//! Decimal numbers, held as the mantissa and scale that `rust_decimal` uses;
//! reading and writing their text is left to `rust_decimal`.
use vstd::prelude::*;

use crate::text::{nat_text, push_str, slice_to_vec, string_from_chars};

verus! {

/// Largest magnitude of a mantissa: 96 bits.
pub const MAX_MANTISSA: i128 = 0xFFFF_FFFF_FFFF_FFFF_FFFF_FFFF;

/// Largest scale.
pub const MAX_SCALE: u32 = 28;

/// A decimal number: `mantissa / 10^scale`. Two numbers are equal when their
/// values are, whatever their scales, as in `rust_decimal`: `1.0 == 1.00`.
#[derive(Clone, Copy, Debug, Eq)]
pub struct Decimal {
    mantissa: i128,
    scale: u32,
}

/// The magnitude and scale of a number with the trailing zeros of its
/// fraction removed: the least scale that writes the same value.
pub open spec fn reduced(magnitude: nat, scale: nat) -> (nat, nat)
    decreases scale,
{
    if scale > 0 && magnitude % 10 == 0 {
        reduced(magnitude / 10, (scale - 1) as nat)
    } else {
        (magnitude, scale)
    }
}

/// The magnitude of a mantissa.
pub open spec fn magnitude(mantissa: int) -> nat {
    if mantissa < 0 {
        (-mantissa) as nat
    } else {
        mantissa as nat
    }
}

/// Whether two numbers, each as mantissa and scale, have the same value: the
/// same sign, and the same magnitude once trailing zeros of the fraction are
/// removed.
pub open spec fn same_value(am: int, ae: nat, bm: int, be: nat) -> bool {
    &&& (am < 0) == (bm < 0)
    &&& reduced(magnitude(am), ae) == reduced(magnitude(bm), be)
}

impl PartialEq for Decimal {
    fn eq(&self, other: &Decimal) -> (r: bool) {
        proof {
            use_type_invariant(self);
            use_type_invariant(other);
        }
        let (a, ae) = self.reduced_parts();
        let (b, be) = other.reduced_parts();
        (self.mantissa < 0) == (other.mantissa < 0) && a == b && ae == be
    }
}

impl vstd::std_specs::cmp::PartialEqSpecImpl for Decimal {
    open spec fn obeys_eq_spec() -> bool {
        true
    }

    open spec fn eq_spec(&self, other: &Decimal) -> bool {
        self.same_value_as(*other)
    }
}

impl core::hash::Hash for Decimal {
    /// Calls `rust_decimal::Decimal`'s `Hash` on the number made by
    /// `from_i128_with_scale`; it hashes the value, so that equal numbers of
    /// different scales hash alike. Nothing is claimed of it.
    #[verifier::external_body]
    fn hash<H: core::hash::Hasher>(&self, state: &mut H) {
        core::hash::Hash::hash(&rust_decimal::Decimal::from_i128_with_scale(self.mantissa, self.scale), state)
    }
}

/// What `rust_decimal::Decimal::from_str` gives for a text, as mantissa and scale.
pub uninterp spec fn decimal_parse(s: Seq<char>) -> Option<(i128, u32)>;

/// The digits of a mantissa's magnitude (none for zero), after as many zeros
/// as it takes to have at least `scale` digits.
pub open spec fn padded_digits(mantissa: int, scale: nat) -> Seq<char> {
    let d = if mantissa == 0 {
        Seq::<char>::empty()
    } else if mantissa < 0 {
        nat_text((-mantissa) as nat)
    } else {
        nat_text(mantissa as nat)
    };
    if scale > d.len() {
        Seq::new((scale - d.len()) as nat, |i: int| '0') + d
    } else {
        d
    }
}

/// The text that `rust_decimal::Decimal`'s `Display` gives for a mantissa and
/// scale: a `-` for a negative mantissa, then the padded digits with a `.`
/// before the last `scale` of them and a `0` before a leading `.`; `0` for
/// zero at scale 0.
pub open spec fn decimal_text(mantissa: i128, scale: u32) -> Seq<char> {
    let p = padded_digits(mantissa as int, scale as nat);
    let w = p.len() - scale;
    let body = if scale == 0 {
        if p.len() == 0 {
            seq!['0']
        } else {
            p
        }
    } else if w == 0 {
        seq!['0', '.'] + p
    } else {
        p.take(w) + seq!['.'] + p.skip(w)
    };
    if mantissa < 0 {
        seq!['-'] + body
    } else {
        body
    }
}

/// Calls `rust_decimal::Decimal::from_str` and hands back the mantissa and
/// scale of the result. Claimed: the result is `decimal_parse` of the text,
/// and a mantissa fits 96 bits and a scale is at most 28, which the
/// representation of `rust_decimal::Decimal` guarantees.
#[verifier::external_body]
fn decimal_from_str_parts(s: &str) -> (r: Option<(i128, u32)>)
    ensures
        r == decimal_parse(s@),
        r matches Some((m, e)) ==> -MAX_MANTISSA <= m <= MAX_MANTISSA && e <= MAX_SCALE,
{
    match <rust_decimal::Decimal as std::str::FromStr>::from_str(s) {
        Ok(d) => Some((d.mantissa(), d.scale())),
        Err(_) => None,
    }
}

/// Calls `rust_decimal::Decimal::from_i128_with_scale` and formats the result
/// with `Display`. Claimed: the text is `decimal_text` of the arguments, as
/// the formatting of `rust_decimal` writes the digits of the mantissa with
/// the point placed by the scale and the sign of the mantissa; the `requires`
/// excludes the arguments on which the constructor panics.
#[verifier::external_body]
fn decimal_to_string_parts(mantissa: i128, scale: u32) -> (r: String)
    requires
        -MAX_MANTISSA <= mantissa <= MAX_MANTISSA,
        scale <= MAX_SCALE,
    ensures
        r@ == decimal_text(mantissa, scale),
{
    rust_decimal::Decimal::from_i128_with_scale(mantissa, scale).to_string()
}

/// What `rust_decimal::Decimal::checked_div` gives for two numbers, each as
/// mantissa and scale, as mantissa and scale.
pub uninterp spec fn decimal_quotient(am: i128, ae: u32, bm: i128, be: u32) -> Option<(i128, u32)>;

/// What `rust_decimal::Decimal::checked_mul` gives for two numbers, each as
/// mantissa and scale, as mantissa and scale.
pub uninterp spec fn decimal_product(am: i128, ae: u32, bm: i128, be: u32) -> Option<(i128, u32)>;

/// Calls `rust_decimal::Decimal::checked_div` on the numbers made by
/// `from_i128_with_scale`, and hands back the mantissa and scale of the
/// quotient. Claimed: the result is `decimal_quotient` of the arguments; it is
/// `None` where the divisor is zero (the source returns `None` for a zero
/// divisor); and a mantissa fits 96 bits and a scale is at most 28, which the
/// representation of `rust_decimal::Decimal` guarantees. The `requires`
/// excludes the arguments on which the constructor panics.
#[verifier::external_body]
fn decimal_checked_div(am: i128, ae: u32, bm: i128, be: u32) -> (r: Option<(i128, u32)>)
    requires
        -MAX_MANTISSA <= am <= MAX_MANTISSA,
        ae <= MAX_SCALE,
        -MAX_MANTISSA <= bm <= MAX_MANTISSA,
        be <= MAX_SCALE,
    ensures
        r == decimal_quotient(am, ae, bm, be),
        bm == 0 ==> r is None,
        r matches Some((m, e)) ==> -MAX_MANTISSA <= m <= MAX_MANTISSA && e <= MAX_SCALE,
{
    let a = rust_decimal::Decimal::from_i128_with_scale(am, ae);
    let b = rust_decimal::Decimal::from_i128_with_scale(bm, be);
    match a.checked_div(b) {
        Some(d) => Some((d.mantissa(), d.scale())),
        None => None,
    }
}

/// Calls `rust_decimal::Decimal::checked_mul` on the numbers made by
/// `from_i128_with_scale`, and hands back the mantissa and scale of the
/// product. Claimed: the result is `decimal_product` of the arguments, and a
/// mantissa fits 96 bits and a scale is at most 28, which the representation
/// of `rust_decimal::Decimal` guarantees. The `requires` excludes the
/// arguments on which the constructor panics.
#[verifier::external_body]
fn decimal_checked_mul(am: i128, ae: u32, bm: i128, be: u32) -> (r: Option<(i128, u32)>)
    requires
        -MAX_MANTISSA <= am <= MAX_MANTISSA,
        ae <= MAX_SCALE,
        -MAX_MANTISSA <= bm <= MAX_MANTISSA,
        be <= MAX_SCALE,
    ensures
        r == decimal_product(am, ae, bm, be),
        r matches Some((m, e)) ==> -MAX_MANTISSA <= m <= MAX_MANTISSA && e <= MAX_SCALE,
{
    let a = rust_decimal::Decimal::from_i128_with_scale(am, ae);
    let b = rust_decimal::Decimal::from_i128_with_scale(bm, be);
    match a.checked_mul(b) {
        Some(d) => Some((d.mantissa(), d.scale())),
        None => None,
    }
}

/// The quotient of two numbers, as `rust_decimal` divides; `None` where it
/// overflows or the divisor is zero.
pub open spec fn quotient(a: Decimal, b: Decimal) -> Option<Decimal> {
    match decimal_quotient(a.mantissa_spec(), a.scale_spec(), b.mantissa_spec(), b.scale_spec()) {
        Some((m, e)) => Some(Decimal::make(m, e)),
        None => None,
    }
}

/// The product of two numbers, as `rust_decimal` multiplies; `None` where it
/// overflows.
pub open spec fn product(a: Decimal, b: Decimal) -> Option<Decimal> {
    match decimal_product(a.mantissa_spec(), a.scale_spec(), b.mantissa_spec(), b.scale_spec()) {
        Some((m, e)) => Some(Decimal::make(m, e)),
        None => None,
    }
}

/// Whether a number is read back from its text, and its text holds no comma.
pub open spec fn reads_back(d: Decimal) -> bool {
    parse_decimal_spec(d.text()) == Some(d) && !d.text().contains(',')
}

/// Reads a decimal number, as `rust_decimal` reads it.
pub open spec fn parse_decimal_spec(s: Seq<char>) -> Option<Decimal> {
    match decimal_parse(s) {
        Some((m, e)) => Some(Decimal::make(m, e)),
        None => None,
    }
}

impl Decimal {
    /// The representation stays within what `rust_decimal` holds.
    #[verifier::type_invariant]
    pub closed spec fn wf(&self) -> bool {
        -MAX_MANTISSA <= self.mantissa <= MAX_MANTISSA && self.scale <= MAX_SCALE
    }

    /// The number with the given mantissa and scale.
    pub closed spec fn make(mantissa: i128, scale: u32) -> Decimal {
        Decimal { mantissa, scale }
    }

    /// The text of the number.
    pub closed spec fn text(&self) -> Seq<char> {
        decimal_text(self.mantissa, self.scale)
    }

    /// Whether the two numbers have the same value.
    pub closed spec fn same_value_as(&self, other: Decimal) -> bool {
        same_value(self.mantissa as int, self.scale as nat, other.mantissa as int, other.scale as nat)
    }

    /// The magnitude of the mantissa and the scale with the trailing zeros of
    /// the fraction removed.
    fn reduced_parts(&self) -> (r: (u128, u32))
        requires
            -MAX_MANTISSA <= self.mantissa <= MAX_MANTISSA,
        ensures
            (r.0 as nat, r.1 as nat) == reduced(magnitude(self.mantissa as int), self.scale as nat),
    {
        let mut m: u128 = if self.mantissa < 0 { (-self.mantissa) as u128 } else { self.mantissa as u128 };
        let mut e: u32 = self.scale;
        while e > 0 && m % 10 == 0
            invariant
                reduced(m as nat, e as nat) == reduced(magnitude(self.mantissa as int), self.scale as nat),
            decreases e,
        {
            m = m / 10;
            e = e - 1;
        }
        (m, e)
    }

    pub closed spec fn mantissa_spec(&self) -> i128 {
        self.mantissa
    }

    pub closed spec fn scale_spec(&self) -> u32 {
        self.scale
    }

    /// The text of a number is what `rust_decimal` writes for its mantissa and scale.
    pub proof fn lemma_text(mantissa: i128, scale: u32)
        ensures
            Decimal::make(mantissa, scale).text() == decimal_text(mantissa, scale),
            Decimal::make(mantissa, scale).mantissa_spec() == mantissa,
            Decimal::make(mantissa, scale).scale_spec() == scale,
    {
    }

    /// The number `mantissa / 10^scale`.
    pub fn new(mantissa: i64, scale: u32) -> (r: Decimal)
        requires
            scale <= MAX_SCALE,
        ensures
            r == Decimal::make(mantissa as i128, scale),
    {
        Decimal { mantissa: mantissa as i128, scale }
    }

    /// The mantissa.
    pub fn mantissa(&self) -> (r: i128)
        ensures
            r == self.mantissa_spec(),
    {
        self.mantissa
    }

    /// The scale.
    pub fn scale(&self) -> (r: u32)
        ensures
            r == self.scale_spec(),
    {
        self.scale
    }

    /// The integer `v` as a number of scale 0.
    pub fn from_int(v: i64) -> (r: Decimal)
        ensures
            r == Decimal::make(v as i128, 0),
    {
        Decimal { mantissa: v as i128, scale: 0 }
    }

    /// Whether the number is zero.
    pub open spec fn is_zero_spec(&self) -> bool {
        self.mantissa_spec() == 0
    }

    /// `self / other`, as `rust_decimal` divides; `None` where that
    /// overflows or `other` is zero.
    pub fn checked_div(&self, other: &Decimal) -> (r: Option<Decimal>)
        ensures
            r == quotient(*self, *other),
            other.is_zero_spec() ==> r is None,
    {
        proof {
            use_type_invariant(self);
            use_type_invariant(other);
        }
        match decimal_checked_div(self.mantissa, self.scale, other.mantissa, other.scale) {
            Some((m, e)) => Some(Decimal { mantissa: m, scale: e }),
            None => None,
        }
    }

    /// `self * other`, as `rust_decimal` multiplies; `None` where that
    /// overflows.
    pub fn checked_mul(&self, other: &Decimal) -> (r: Option<Decimal>)
        ensures
            r == product(*self, *other),
    {
        proof {
            use_type_invariant(self);
            use_type_invariant(other);
        }
        match decimal_checked_mul(self.mantissa, self.scale, other.mantissa, other.scale) {
            Some((m, e)) => Some(Decimal { mantissa: m, scale: e }),
            None => None,
        }
    }

    /// Reads a decimal number from characters.
    pub fn parse(s: &[char]) -> (r: Option<Decimal>)
        ensures
            r == parse_decimal_spec(s@),
    {
        let v = slice_to_vec(s, 0, s.len());
        assert(v@ == s@);
        let st = string_from_chars(&v);
        match decimal_from_str_parts(st.as_str()) {
            Some((m, e)) => Some(Decimal { mantissa: m, scale: e }),
            None => None,
        }
    }

    /// Appends the text of the number.
    pub fn push_to(&self, out: &mut Vec<char>)
        ensures
            final(out)@ == old(out)@ + self.text(),
    {
        proof {
            use_type_invariant(self);
        }
        let st = decimal_to_string_parts(self.mantissa, self.scale);
        push_str(out, st.as_str());
    }
}

} // verus!
