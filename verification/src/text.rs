//! Character-level text handling: whitespace, splitting, joining, lines, and
//! the decimal text of integers.
use vstd::prelude::*;

verus! {

/// The characters of a string slice, collected into a vector.
pub fn chars_of(s: &str) -> (r: Vec<char>)
    ensures
        r@ == s@,
{
    let mut r: Vec<char> = Vec::new();
    for c in it: s.chars()
        invariant
            r@ == it.seq().take(it.index() as int),
            it.seq() == s@,
    {
        r.push(c);
    }
    r
}

/// `String::from_iter` over the characters of a vector.
#[verifier::external_body]
pub(crate) fn string_from_chars(v: &Vec<char>) -> (s: String)
    ensures
        s@ == v@,
{
    String::from_iter(v.iter())
}

/// Appends the characters of `s` to `out`.
pub fn push_str(out: &mut Vec<char>, s: &str)
    ensures
        final(out)@ == old(out)@ + s@,
{
    for c in it: s.chars()
        invariant
            out@ == old(out)@ + it.seq().take(it.index() as int),
            it.seq() == s@,
    {
        out.push(c);
        assert(it.seq().take(it.index() + 1) == it.seq().take(it.index() as int).push(c));
    }
    assert(s@.take(s@.len() as int) == s@);
}

/// Appends the characters of a slice to `out`.
pub fn push_chars(out: &mut Vec<char>, s: &[char])
    ensures
        final(out)@ == old(out)@ + s@,
{
    let mut i: usize = 0;
    while i < s.len()
        invariant
            i <= s.len(),
            out@ == old(out)@ + s@.take(i as int),
        decreases s.len() - i,
    {
        out.push(s[i]);
        assert(s@.take(i + 1) == s@.take(i as int).push(s@[i as int]));
        i = i + 1;
    }
    assert(s@.take(s@.len() as int) == s@);
}

/// Whether two character slices are equal.
pub fn chars_eq(a: &[char], b: &[char]) -> (r: bool)
    ensures
        r == (a@ == b@),
{
    if a.len() != b.len() {
        return false;
    }
    let mut i: usize = 0;
    while i < a.len()
        invariant
            i <= a.len(),
            a.len() == b.len(),
            forall|j: int| 0 <= j < i ==> a@[j] == b@[j],
        decreases a.len() - i,
    {
        if a[i] != b[i] {
            return false;
        }
        i = i + 1;
    }
    assert(a@ =~= b@);
    true
}

/// Whether a character slice spells out the given string.
pub fn eq_str(a: &[char], lit: &str) -> (r: bool)
    ensures
        r == (a@ == lit@),
{
    let l = chars_of(lit);
    chars_eq(a, l.as_slice())
}

/// Whether `s` starts with `p`.
pub open spec fn starts_with(s: Seq<char>, p: Seq<char>) -> bool {
    p.len() <= s.len() && s.take(p.len() as int) == p
}

/// Whether a character slice starts with the given string.
pub fn starts_with_str(a: &[char], lit: &str) -> (r: bool)
    ensures
        r == starts_with(a@, lit@),
{
    let l = chars_of(lit);
    if l.len() > a.len() {
        return false;
    }
    let mut i: usize = 0;
    while i < l.len()
        invariant
            i <= l.len(),
            l.len() <= a.len(),
            l@ == lit@,
            forall|j: int| 0 <= j < i ==> a@[j] == l@[j],
        decreases l.len() - i,
    {
        if a[i] != l[i] {
            assert(a@.take(l@.len() as int)[i as int] == a@[i as int]);
            assert(a@.take(l@.len() as int) != l@);
            assert(l@ == lit@);
            return false;
        }
        i = i + 1;
    }
    assert(a@.take(l@.len() as int) =~= l@);
    true
}

/// A copy of `s[from..to]`.
pub fn slice_to_vec(s: &[char], from: usize, to: usize) -> (r: Vec<char>)
    requires
        from <= to <= s.len(),
    ensures
        r@ == s@.subrange(from as int, to as int),
{
    let mut r: Vec<char> = Vec::new();
    let mut i = from;
    while i < to
        invariant
            from <= i <= to,
            to <= s.len(),
            r@ == s@.subrange(from as int, i as int),
        decreases to - i,
    {
        r.push(s[i]);
        assert(s@.subrange(from as int, i + 1) == s@.subrange(from as int, i as int).push(
            s@[i as int],
        ));
        i = i + 1;
    }
    r
}

/// Whitespace as `char::is_whitespace` defines it: the Unicode `White_Space` property.
pub open spec fn is_ws(c: char) -> bool {
    ||| c == ' '
    ||| ('\t' <= c <= '\r')
    ||| c == '\u{85}'
    ||| c == '\u{a0}'
    ||| c == '\u{1680}'
    ||| ('\u{2000}' <= c <= '\u{200a}')
    ||| c == '\u{2028}'
    ||| c == '\u{2029}'
    ||| c == '\u{202f}'
    ||| c == '\u{205f}'
    ||| c == '\u{3000}'
}

pub fn is_ws_exec(c: char) -> (r: bool)
    ensures
        r == is_ws(c),
{
    c == ' ' || ('\t' <= c && c <= '\r') || c == '\u{85}' || c == '\u{a0}' || c == '\u{1680}'
        || ('\u{2000}' <= c && c <= '\u{200a}') || c == '\u{2028}' || c == '\u{2029}' || c
        == '\u{202f}' || c == '\u{205f}' || c == '\u{3000}'
}

/// Number of leading whitespace characters.
pub open spec fn lead_ws(s: Seq<char>) -> nat
    decreases s.len(),
{
    if s.len() > 0 && is_ws(s[0]) {
        1 + lead_ws(s.drop_first())
    } else {
        0
    }
}

/// Number of trailing whitespace characters.
pub open spec fn trail_ws(s: Seq<char>) -> nat
    decreases s.len(),
{
    if s.len() > 0 && is_ws(s.last()) {
        1 + trail_ws(s.drop_last())
    } else {
        0
    }
}

/// `s` without leading whitespace.
pub open spec fn trim_start(s: Seq<char>) -> Seq<char> {
    s.skip(lead_ws(s) as int)
}

/// `s` without trailing whitespace.
pub open spec fn trim_end(s: Seq<char>) -> Seq<char> {
    s.take(s.len() - trail_ws(s))
}

/// `s` without leading or trailing whitespace, as `str::trim` gives it.
pub open spec fn trim(s: Seq<char>) -> Seq<char> {
    trim_end(trim_start(s))
}

pub proof fn lemma_lead_ws_bound(s: Seq<char>)
    ensures
        lead_ws(s) <= s.len(),
        forall|i: int| 0 <= i < lead_ws(s) ==> is_ws(#[trigger] s[i]),
        lead_ws(s) < s.len() ==> !is_ws(s[lead_ws(s) as int]),
    decreases s.len(),
{
    if s.len() > 0 && is_ws(s[0]) {
        lemma_lead_ws_bound(s.drop_first());
        assert forall|i: int| 0 <= i < lead_ws(s) implies is_ws(#[trigger] s[i]) by {
            if i > 0 {
                assert(s[i] == s.drop_first()[i - 1]);
            }
        }
    }
}

pub proof fn lemma_trail_ws_bound(s: Seq<char>)
    ensures
        trail_ws(s) <= s.len(),
        forall|i: int| s.len() - trail_ws(s) <= i < s.len() ==> is_ws(#[trigger] s[i]),
        trail_ws(s) < s.len() ==> !is_ws(s[s.len() - trail_ws(s) - 1]),
    decreases s.len(),
{
    if s.len() > 0 && is_ws(s.last()) {
        lemma_trail_ws_bound(s.drop_last());
        assert forall|i: int| s.len() - trail_ws(s) <= i < s.len() implies is_ws(#[trigger] s[i]) by {
            if i < s.len() - 1 {
                assert(s[i] == s.drop_last()[i]);
            }
        }
    }
}

/// Index of the first non-whitespace character at or after `from`.
pub fn skip_ws_from(s: &[char], from: usize) -> (r: usize)
    requires
        from <= s.len(),
    ensures
        r == from + lead_ws(s@.skip(from as int)),
{
    let mut i = from;
    while i < s.len() && is_ws_exec(s[i])
        invariant
            from <= i <= s.len(),
            lead_ws(s@.skip(from as int)) == (i - from) + lead_ws(s@.skip(i as int)),
        decreases s.len() - i,
    {
        assert(s@.skip(i as int).drop_first() == s@.skip(i + 1));
        i = i + 1;
    }
    i
}

/// A copy of `s` without leading or trailing whitespace.
pub fn trim_chars(s: &[char]) -> (r: Vec<char>)
    ensures
        r@ == trim(s@),
{
    let start = skip_ws_from(s, 0);
    assert(s@.skip(0) == s@);
    proof {
        lemma_lead_ws_bound(s@);
    }
    let ghost t = s@.skip(start as int);
    let mut end = s.len();
    assert(t.take(s.len() - start) == t);
    while end > start && is_ws_exec(s[end - 1])
        invariant
            start <= end <= s.len(),
            t == s@.skip(start as int),
            trail_ws(t) == (s.len() - end) + trail_ws(t.take(end - start)),
        decreases end,
    {
        assert(t.take(end - start).drop_last() == t.take(end - start - 1));
        assert(t.take(end - start).last() == s@[end - 1]);
        end = end - 1;
    }
    assert(trail_ws(t.take(end - start)) == 0) by {
        if end > start {
            assert(t.take(end - start).last() == s@[end - 1]);
        }
    }
    assert(t.take(t.len() as int) == t);
    let r = slice_to_vec(s, start, end);
    assert(r@ =~= trim_end(t));
    r
}

/// Whether `s` is empty or holds only whitespace.
pub fn is_blank(s: &[char]) -> (r: bool)
    ensures
        r == (trim(s@).len() == 0),
{
    let t = trim_chars(s);
    t.len() == 0
}

// ---------------------------------------------------------------------------
// Splitting and joining
/// `s` split at every `sep`, as `str::split` with a character pattern gives it.
pub open spec fn split(s: Seq<char>, sep: char) -> Seq<Seq<char>>
    decreases s.len(),
{
    if s.len() == 0 {
        seq![Seq::empty()]
    } else {
        let prev = split(s.drop_last(), sep);
        if s.last() == sep {
            prev.push(Seq::empty())
        } else {
            prev.update(prev.len() - 1, prev.last().push(s.last()))
        }
    }
}

pub proof fn lemma_split_len(s: Seq<char>, sep: char)
    ensures
        split(s, sep).len() >= 1,
    decreases s.len(),
{
    if s.len() > 0 {
        lemma_split_len(s.drop_last(), sep);
    }
}

/// The parts joined with `sep` between them, as `[T]::join` gives it.
pub open spec fn join(parts: Seq<Seq<char>>, sep: Seq<char>) -> Seq<char>
    decreases parts.len(),
{
    if parts.len() == 0 {
        Seq::empty()
    } else if parts.len() == 1 {
        parts[0]
    } else {
        join(parts.drop_last(), sep) + sep + parts.last()
    }
}

/// The view of a vector of character vectors.
pub open spec fn vv(v: Seq<Vec<char>>) -> Seq<Seq<char>> {
    v.map_values(|x: Vec<char>| x@)
}

/// Appends one part to a list of parts.
pub fn push_part(parts: &mut Vec<Vec<char>>, x: Vec<char>)
    ensures
        vv(final(parts)@) == vv(old(parts)@).push(x@),
{
    let ghost before = vv(parts@);
    let ghost xv = x@;
    parts.push(x);
    assert(vv(parts@) =~= before.push(xv));
}


/// `s` split at every `sep`.
pub fn split_chars(s: &[char], sep: char) -> (r: Vec<Vec<char>>)
    ensures
        vv(r@) == split(s@, sep),
        r@.len() >= 1,
{
    let mut r: Vec<Vec<char>> = Vec::new();
    r.push(Vec::new());
    let mut i: usize = 0;
    assert(vv(r@) =~= split(s@.take(0), sep));
    while i < s.len()
        invariant
            i <= s.len(),
            r@.len() >= 1,
            vv(r@) == split(s@.take(i as int), sep),
        decreases s.len() - i,
    {
        let c = s[i];
        let ghost prev = vv(r@);
        assert(s@.take(i + 1).drop_last() == s@.take(i as int));
        if c == sep {
            r.push(Vec::new());
            assert(vv(r@) =~= prev.push(Seq::empty()));
        } else {
            let last = r.len() - 1;
            let mut cur = r.pop().unwrap();
            cur.push(c);
            r.push(cur);
            assert(vv(r@) =~= prev.update(prev.len() - 1, prev.last().push(c)));
        }
        i = i + 1;
    }
    assert(s@.take(s@.len() as int) == s@);
    r
}

/// The parts joined with `sep` between them.
pub fn join_chars(parts: &Vec<Vec<char>>, sep: &str) -> (r: Vec<char>)
    ensures
        r@ == join(vv(parts@), sep@),
{
    let mut r: Vec<char> = Vec::new();
    let mut i: usize = 0;
    while i < parts.len()
        invariant
            i <= parts.len(),
            r@ == join(vv(parts@).take(i as int), sep@),
        decreases parts.len() - i,
    {
        let ghost before = vv(parts@).take(i as int);
        assert(vv(parts@).take(i + 1).drop_last() == before);
        if i > 0 {
            push_str(&mut r, sep);
        }
        push_chars(&mut r, parts[i].as_slice());
        proof {
            if i == 0 {
                assert(join(vv(parts@).take(1), sep@) == vv(parts@).take(1)[0]);
                assert(r@ =~= parts@[0]@);
            }
        }
        i = i + 1;
    }
    assert(vv(parts@).take(parts@.len() as int) == vv(parts@));
    r
}

/// A copy of the parts from `k` on.
pub fn parts_from(p: &Vec<Vec<char>>, k: usize) -> (r: Vec<Vec<char>>)
    requires
        k <= p.len(),
    ensures
        vv(r@) == vv(p@).skip(k as int),
{
    let mut r: Vec<Vec<char>> = Vec::new();
    let mut i = k;
    while i < p.len()
        invariant
            k <= i <= p.len(),
            r@.len() == i - k,
            vv(r@) == vv(p@).subrange(k as int, i as int),
        decreases p.len() - i,
    {
        let c = slice_to_vec(p[i].as_slice(), 0, p[i].len());
        assert(c@ =~= p@[i as int]@);
        let ghost before = r@;
        r.push(c);
        assert(r@ == before.push(c));
        assert forall|j: int| 0 <= j < i + 1 - k implies #[trigger] vv(r@)[j] == vv(p@).subrange(
            k as int,
            i + 1,
        )[j] by {
            if j < i - k {
                assert(vv(r@)[j] == r@[j]@);
                assert(r@[j] == before[j]);
                assert(vv(before)[j] == vv(p@).subrange(k as int, i as int)[j]);
            } else {
                assert(vv(r@)[j] == c@);
            }
        }
        assert(vv(r@) =~= vv(p@).subrange(k as int, i + 1));
        i = i + 1;
    }
    r
}

/// The parts from `k` on, joined with `sep`.
pub fn join_from(p: &Vec<Vec<char>>, k: usize, sep: &str) -> (r: Vec<char>)
    requires
        k <= p.len(),
    ensures
        r@ == join(vv(p@).skip(k as int), sep@),
{
    let rest = parts_from(p, k);
    join_chars(&rest, sep)
}

/// Splitting `a` followed by text without the separator extends the last part.
pub proof fn lemma_split_append_plain(a: Seq<char>, b: Seq<char>, sep: char)
    requires
        !b.contains(sep),
    ensures
        split(a + b, sep).len() == split(a, sep).len(),
        split(a + b, sep) == split(a, sep).update(
            split(a, sep).len() - 1,
            split(a, sep).last() + b,
        ),
    decreases b.len(),
{
    lemma_split_len(a, sep);
    if b.len() == 0 {
        assert(a + b == a);
        assert(split(a, sep).last() + b == split(a, sep).last());
        assert(split(a, sep).update(split(a, sep).len() - 1, split(a, sep).last())
            =~= split(a, sep));
    } else {
        let b0 = b.drop_last();
        assert(!b0.contains(sep)) by {
            if b0.contains(sep) {
                let k = choose|k: int| 0 <= k < b0.len() && b0[k] == sep;
                assert(b[k] == sep);
            }
        }
        assert(b.last() != sep) by {
            assert(b[b.len() - 1] == b.last());
        }
        lemma_split_append_plain(a, b0, sep);
        assert((a + b).drop_last() == a + b0);
        assert((a + b).last() == b.last());
        lemma_split_len(a + b0, sep);
        let q = split(a + b0, sep);
        assert(q.last() == split(a, sep).last() + b0);
        assert((split(a, sep).last() + b0).push(b.last()) =~= split(a, sep).last() + b);
        assert(split(a + b, sep) =~= split(a, sep).update(
            split(a, sep).len() - 1,
            split(a, sep).last() + b,
        ));
    }
}

/// Splitting `a` followed by the separator opens a new empty part.
pub proof fn lemma_split_push_sep(a: Seq<char>, sep: char)
    ensures
        split(a.push(sep), sep) == split(a, sep).push(Seq::empty()),
{
    assert(a.push(sep).drop_last() == a);
}

/// Parts that contain no separator are found again by splitting their join.
pub proof fn lemma_split_join(parts: Seq<Seq<char>>, sep: char)
    requires
        parts.len() >= 1,
        forall|i: int| 0 <= i < parts.len() ==> !(#[trigger] parts[i]).contains(sep),
    ensures
        split(join(parts, seq![sep]), sep) == parts,
    decreases parts.len(),
{
    if parts.len() == 1 {
        let e: Seq<char> = Seq::empty();
        lemma_split_append_plain(e, parts[0], sep);
        assert(e + parts[0] == parts[0]);
        assert(split(e, sep) == seq![e]);
        assert(split(parts[0], sep) =~= parts);
    } else {
        let init = parts.drop_last();
        assert forall|i: int| 0 <= i < init.len() implies !(#[trigger] init[i]).contains(sep) by {
            assert(init[i] == parts[i]);
        }
        lemma_split_join(init, sep);
        let j = join(init, seq![sep]);
        assert(j + seq![sep] == j.push(sep));
        lemma_split_push_sep(j, sep);
        assert(parts.last() == parts[parts.len() - 1]);
        lemma_split_append_plain(j.push(sep), parts.last(), sep);
        assert(join(parts, seq![sep]) == j.push(sep) + parts.last());
        let e: Seq<char> = Seq::empty();
        assert(e + parts.last() == parts.last());
        assert(split(join(parts, seq![sep]), sep) =~= parts);
    }
}

// ---------------------------------------------------------------------------
// Lines
/// Strips one trailing carriage return.
pub open spec fn strip_cr(s: Seq<char>) -> Seq<char> {
    if s.len() > 0 && s.last() == '\r' {
        s.drop_last()
    } else {
        s
    }
}

/// The lines of `s`, as `str::lines` gives them: split at `\n`, a `\r` before
/// a `\n` removed, and no final empty line after a last line ending.
pub open spec fn lines(s: Seq<char>) -> Seq<Seq<char>> {
    let parts = split(s, '\n');
    let n = parts.len();
    let body = Seq::new(
        (n - 1) as nat,
        |i: int| strip_cr(parts[i]),
    );
    if parts.last().len() == 0 {
        body
    } else {
        body.push(parts.last())
    }
}

/// The lines of `s`.
pub fn lines_of(s: &[char]) -> (r: Vec<Vec<char>>)
    ensures
        vv(r@) == lines(s@),
{
    let parts = split_chars(s, '\n');
    let n = parts.len();
    let mut r: Vec<Vec<char>> = Vec::new();
    let mut i: usize = 0;
    while i + 1 < n
        invariant
            n == parts@.len(),
            n >= 1,
            i + 1 <= n,
            vv(parts@) == split(s@, '\n'),
            r@.len() == i,
            forall|k: int| 0 <= k < i ==> (#[trigger] r@[k])@ == strip_cr(parts@[k]@),
        decreases n - i,
    {
        let mut q: Vec<char> = parts[i].clone();
        if q.len() > 0 && q[q.len() - 1] == '\r' {
            q.pop();
        }
        assert(q@ == strip_cr(parts@[i as int]@));
        r.push(q);
        i = i + 1;
    }
    let ghost body = r@;
    let last = &parts[n - 1];
    if last.len() > 0 {
        r.push(last.clone());
    }
    proof {
        let parts_v = split(s@, '\n');
        assert(parts_v.len() == n);
        assert forall|k: int| 0 <= k < n - 1 implies strip_cr(#[trigger] parts_v[k]) == body[k]@ by {
            assert(parts_v[k] == parts@[k]@);
        }
        assert(parts_v.last() == parts@[n - 1]@);
        assert(vv(r@) =~= lines(s@));
    }
    r
}

// ---------------------------------------------------------------------------
// Decimal digits of integers
pub open spec fn is_digit(c: char) -> bool {
    '0' <= c <= '9'
}

pub open spec fn digit_value(c: char) -> nat {
    (c as int - '0' as int) as nat
}

pub open spec fn digit_char(d: nat) -> char
    recommends
        d < 10,
{
    (d + '0' as nat) as char
}

pub open spec fn all_digits(s: Seq<char>) -> bool {
    forall|i: int| 0 <= i < s.len() ==> is_digit(#[trigger] s[i])
}

/// The number that a run of decimal digits spells.
pub open spec fn digits_value(s: Seq<char>) -> nat
    decreases s.len(),
{
    if s.len() == 0 {
        0
    } else {
        digits_value(s.drop_last()) * 10 + digit_value(s.last())
    }
}

/// The shortest decimal digits of `n`.
pub open spec fn nat_text(n: nat) -> Seq<char>
    decreases n,
{
    if n < 10 {
        seq![digit_char(n)]
    } else {
        nat_text(n / 10).push(digit_char(n % 10))
    }
}

/// The decimal text of `v`, with a minus sign when it is negative.
pub open spec fn int_text(v: int) -> Seq<char> {
    if v < 0 {
        seq!['-'] + nat_text((-v) as nat)
    } else {
        nat_text(v as nat)
    }
}

/// Why an integer could not be read, as `std::num::IntErrorKind` tells it.
#[derive(Clone, Copy, Debug, PartialEq, Eq, Hash)]
pub enum IntErrorKind {
    /// The text is empty.
    Empty,
    /// A character is not a digit.
    InvalidDigit,
    /// The number is larger than the type holds.
    PosOverflow,
    /// The number is smaller than the type holds.
    NegOverflow,
}

/// Error reading an integer, carrying the reason.
#[derive(Clone, Copy, Debug, PartialEq, Eq, Hash)]
pub struct ParseIntError {
    pub kind: IntErrorKind,
}

/// Outcome of scanning digits from the left: the value so far, or whether the
/// first problem met was a non-digit (`true`) or a value above `bound` (`false`).
pub open spec fn scan_digits(s: Seq<char>, bound: nat) -> Result<nat, bool>
    decreases s.len(),
{
    if s.len() == 0 {
        Ok(0)
    } else {
        match scan_digits(s.drop_last(), bound) {
            Err(e) => Err(e),
            Ok(v) => if !is_digit(s.last()) {
                Err(true)
            } else if v * 10 + digit_value(s.last()) > bound {
                Err(false)
            } else {
                Ok(v * 10 + digit_value(s.last()))
            },
        }
    }
}

/// What `FromStr` for a primitive integer with range `min..=max` gives for `s`.
/// A leading `+` is accepted; a leading `-` only where `min < 0`.
pub open spec fn parse_int_spec(s: Seq<char>, min: int, max: int) -> Result<int, IntErrorKind> {
    if s.len() == 0 {
        Err(IntErrorKind::Empty)
    } else if (s[0] == '+' || s[0] == '-') && s.len() == 1 {
        Err(IntErrorKind::InvalidDigit)
    } else if s[0] == '-' && min < 0 {
        match scan_digits(s.drop_first(), (-min) as nat) {
            Ok(v) => Ok(-v),
            Err(true) => Err(IntErrorKind::InvalidDigit),
            Err(false) => Err(IntErrorKind::NegOverflow),
        }
    } else {
        let d = if s[0] == '+' {
            s.drop_first()
        } else {
            s
        };
        match scan_digits(d, max as nat) {
            Ok(v) => Ok(v as int),
            Err(true) => Err(IntErrorKind::InvalidDigit),
            Err(false) => Err(IntErrorKind::PosOverflow),
        }
    }
}

/// Scans digits `s[from..]` against `bound`.
fn scan_digits_exec(s: &[char], from: usize, bound: u64) -> (r: Result<u64, bool>)
    requires
        from <= s.len(),
        bound < 0x1_0000_0000_0000_0000u128 / 20,
    ensures
        match (r, scan_digits(s@.skip(from as int), bound as nat)) {
            (Ok(a), Ok(b)) => a == b,
            (Err(a), Err(b)) => a == b,
            _ => false,
        },
{
    let ghost d = s@.skip(from as int);
    let mut acc: u64 = 0;
    let mut i = from;
    assert(d.take(0) == Seq::<char>::empty());
    while i < s.len()
        invariant
            from <= i <= s.len(),
            d == s@.skip(from as int),
            acc <= bound,
            bound < 0x1_0000_0000_0000_0000u128 / 20,
            scan_digits(d.take(i - from), bound as nat) == Ok::<nat, bool>(acc as nat),
        decreases s.len() - i,
    {
        let c = s[i];
        let ghost k = (i - from) as int;
        assert(d.take(k + 1).drop_last() == d.take(k));
        assert(d.take(k + 1).last() == c);
        if !('0' <= c && c <= '9') {
            proof {
                lemma_scan_err_extends(d, k + 1, bound as nat);
            }
            return Err(true);
        }
        let dv = (c as u32 - '0' as u32) as u64;
        let next = acc * 10 + dv;
        if next > bound {
            proof {
                lemma_scan_err_extends(d, k + 1, bound as nat);
            }
            return Err(false);
        }
        acc = next;
        i = i + 1;
    }
    assert(d.take(d.len() as int) == d);
    Ok(acc)
}

/// Once the scan of a prefix has failed, so has the scan of the whole.
proof fn lemma_scan_err_extends(d: Seq<char>, k: int, bound: nat)
    requires
        0 <= k <= d.len(),
        scan_digits(d.take(k), bound) is Err,
    ensures
        scan_digits(d, bound) == scan_digits(d.take(k), bound),
    decreases d.len() - k,
{
    if k < d.len() {
        assert(d.take(k + 1).drop_last() == d.take(k));
        lemma_scan_err_extends(d, k + 1, bound);
    } else {
        assert(d.take(k) == d);
    }
}

/// Reads `s` as an integer in `min..=max`.
pub fn parse_int(s: &[char], min: i64, max: u64) -> (r: Result<i128, IntErrorKind>)
    requires
        -(0x1_0000_0000_0000_0000u128 / 20) < min <= 0,
        max < 0x1_0000_0000_0000_0000u128 / 20,
    ensures
        match (r, parse_int_spec(s@, min as int, max as int)) {
            (Ok(a), Ok(b)) => a == b,
            (Err(a), Err(b)) => a == b,
            _ => false,
        },
{
    if s.len() == 0 {
        return Err(IntErrorKind::Empty);
    }
    let c0 = s[0];
    if (c0 == '+' || c0 == '-') && s.len() == 1 {
        return Err(IntErrorKind::InvalidDigit);
    }
    if c0 == '-' && min < 0 {
        let bound: u64 = (-(min as i128)) as u64;
        assert(s@.skip(1) == s@.drop_first());
        match scan_digits_exec(s, 1, bound) {
            Ok(v) => Ok(-(v as i128)),
            Err(true) => Err(IntErrorKind::InvalidDigit),
            Err(false) => Err(IntErrorKind::NegOverflow),
        }
    } else {
        let from: usize = if c0 == '+' {
            1
        } else {
            0
        };
        assert(s@.skip(1) == s@.drop_first());
        assert(s@.skip(0) == s@);
        match scan_digits_exec(s, from, max) {
            Ok(v) => Ok(v as i128),
            Err(true) => Err(IntErrorKind::InvalidDigit),
            Err(false) => Err(IntErrorKind::PosOverflow),
        }
    }
}

/// `s` read as an `i32`, as `str::parse::<i32>` reads it.
pub fn parse_i32(s: &[char]) -> (r: Result<i32, ParseIntError>)
    ensures
        match (r, parse_int_spec(s@, i32::MIN as int, i32::MAX as int)) {
            (Ok(a), Ok(b)) => a == b,
            (Err(a), Err(b)) => a.kind == b,
            _ => false,
        },
{
    match parse_int(s, i32::MIN as i64, i32::MAX as u64) {
        Ok(v) => {
            proof {
                lemma_parse_int_range(s@, i32::MIN as int, i32::MAX as int);
            }
            Ok(v as i32)
        },
        Err(k) => Err(ParseIntError { kind: k }),
    }
}

/// `s` read as a `u8`, as `str::parse::<u8>` reads it.
pub fn parse_u8(s: &[char]) -> (r: Result<u8, ParseIntError>)
    ensures
        match (r, parse_int_spec(s@, 0, u8::MAX as int)) {
            (Ok(a), Ok(b)) => a == b,
            (Err(a), Err(b)) => a.kind == b,
            _ => false,
        },
{
    match parse_int(s, 0, u8::MAX as u64) {
        Ok(v) => {
            proof {
                lemma_parse_int_range(s@, 0, u8::MAX as int);
            }
            Ok(v as u8)
        },
        Err(k) => Err(ParseIntError { kind: k }),
    }
}

/// `s` read as a `usize`, limited to the 32-bit range that every target holds.
pub fn parse_usize(s: &[char]) -> (r: Result<usize, ParseIntError>)
    ensures
        match (r, parse_int_spec(s@, 0, u32::MAX as int)) {
            (Ok(a), Ok(b)) => a == b,
            (Err(a), Err(b)) => a.kind == b,
            _ => false,
        },
{
    match parse_int(s, 0, u32::MAX as u64) {
        Ok(v) => {
            proof {
                lemma_parse_int_range(s@, 0, u32::MAX as int);
            }
            Ok(v as usize)
        },
        Err(k) => Err(ParseIntError { kind: k }),
    }
}

pub proof fn lemma_scan_bound(s: Seq<char>, bound: nat)
    ensures
        scan_digits(s, bound) matches Ok(v) ==> v <= bound,
    decreases s.len(),
{
    if s.len() > 0 {
        lemma_scan_bound(s.drop_last(), bound);
    }
}

/// A successful read lies in the range asked for.
pub proof fn lemma_parse_int_range(s: Seq<char>, min: int, max: int)
    requires
        min <= 0 <= max,
    ensures
        parse_int_spec(s, min, max) matches Ok(v) ==> min <= v <= max,
{
    if s.len() > 0 {
        lemma_scan_bound(s.drop_first(), (-min) as nat);
        lemma_scan_bound(s.drop_first(), max as nat);
        lemma_scan_bound(s, max as nat);
    }
}

/// Appends the decimal digits of `n`.
pub fn push_nat(out: &mut Vec<char>, n: u64)
    ensures
        final(out)@ == old(out)@ + nat_text(n as nat),
    decreases n,
{
    if n >= 10 {
        push_nat(out, n / 10);
    }
    let d = (n % 10) as u8;
    let c = (d + 48u8) as char;
    proof {
        assert(n % 10 < 10);
    }
    out.push(c);
    proof {
        if n >= 10 {
            assert(old(out)@ + nat_text(n as nat) =~= old(out)@ + nat_text((n / 10) as nat) + seq![c]);
        } else {
            assert(n % 10 == n);
            assert(old(out)@ + nat_text(n as nat) =~= old(out)@ + seq![c]);
        }
    }
}

/// Appends the decimal text of `v`.
pub fn push_int(out: &mut Vec<char>, v: i64)
    ensures
        final(out)@ == old(out)@ + int_text(v as int),
{
    if v < 0 {
        out.push('-');
        let m: u64 = (-(v as i128)) as u64;
        push_nat(out, m);
        assert(old(out)@ + int_text(v as int) =~= old(out)@.push('-') + nat_text(m as nat));
    } else {
        push_nat(out, v as u64);
    }
}

/// The decimal text of `v` as a `String`.
pub fn int_to_string(v: i64) -> (s: String)
    ensures
        s@ == int_text(v as int),
{
    let mut out: Vec<char> = Vec::new();
    push_int(&mut out, v);
    assert(out@ =~= int_text(v as int));
    string_from_chars(&out)
}

pub proof fn lemma_nat_text_digits(n: nat)
    ensures
        all_digits(nat_text(n)),
        nat_text(n).len() >= 1,
        digits_value(nat_text(n)) == n,
    decreases n,
{
    if n >= 10 {
        lemma_nat_text_digits(n / 10);
        let t = nat_text(n / 10);
        assert(nat_text(n).drop_last() == t);
        assert(digit_value(digit_char(n % 10)) == n % 10);
        assert(n == (n / 10) * 10 + n % 10);
        assert forall|i: int| 0 <= i < nat_text(n).len() implies is_digit(#[trigger] nat_text(n)[i]) by {
            if i < t.len() {
                assert(nat_text(n)[i] == t[i]);
            }
        }
    } else {
        let c = digit_char(n);
        assert(nat_text(n) == seq![c]);
        assert(seq![c].drop_last() == Seq::<char>::empty());
        assert(seq![c].last() == c);
        assert(digits_value(Seq::<char>::empty()) == 0);
        assert(digit_value(c) == n);
        assert(digits_value(seq![c]) == digits_value(Seq::<char>::empty()) * 10 + digit_value(c));
    }
}

proof fn lemma_scan_all_digits(s: Seq<char>, bound: nat)
    requires
        all_digits(s),
        digits_value(s) <= bound,
    ensures
        scan_digits(s, bound) == Ok::<nat, bool>(digits_value(s)),
    decreases s.len(),
{
    if s.len() > 0 {
        let p = s.drop_last();
        assert(all_digits(p)) by {
            assert forall|i: int| 0 <= i < p.len() implies is_digit(#[trigger] p[i]) by {
                assert(p[i] == s[i]);
            }
        }
        assert(is_digit(s.last())) by {
            assert(s[s.len() - 1] == s.last());
        }
        assert(digits_value(p) <= digits_value(s));
        lemma_scan_all_digits(p, bound);
    }
}

/// Reading back the decimal text of a number in range gives the number.
pub proof fn lemma_parse_int_text(v: int, min: int, max: int)
    requires
        min <= 0 <= max,
        min <= v <= max,
    ensures
        parse_int_spec(int_text(v), min, max) == Ok::<int, IntErrorKind>(v),
{
    if v < 0 {
        let n = (-v) as nat;
        lemma_nat_text_digits(n);
        lemma_scan_all_digits(nat_text(n), (-min) as nat);
        assert((seq!['-'] + nat_text(n)).drop_first() == nat_text(n));
        assert((seq!['-'] + nat_text(n))[0] == '-');
    } else {
        let n = v as nat;
        lemma_nat_text_digits(n);
        lemma_scan_all_digits(nat_text(n), max as nat);
        assert(is_digit(nat_text(n)[0]));
    }
}

} // verus!
