//! The `[Colours]` section: combo colours and slider colours.
use vstd::prelude::*;

use crate::text::{
    int_text, is_blank, is_digit, join, join_chars, lines, lines_of, parse_i32, parse_int_spec,
    parse_u8, push_int, slice_to_vec, starts_with, starts_with_str, trim, trim_chars, vv,
};
use crate::types::{Error, Version, VersionedFromStr, VersionedToString};

verus! {

/// Error reading an RGB colour.
#[derive(Clone, Copy, Debug, PartialEq, Eq, Hash)]
pub enum RGBParseError {
    /// The red value is missing or not a byte.
    InvalidRed,
    /// The green value is not a byte.
    InvalidGreen,
    /// The blue value is not a byte.
    InvalidBlue,
    /// The comma before the green value is missing.
    MissingGreen,
    /// The comma before the blue value is missing.
    MissingBlue,
}

/// Error reading a colour line.
#[derive(Clone, Copy, Debug, PartialEq, Eq, Hash)]
pub enum ColourParseError {
    /// The number after `Combo` is missing or not an integer.
    InvalidComboCount,
    /// The `:` separator is missing.
    InvalidColonSeparator,
    /// The red value is missing or not a byte.
    InvalidRed,
    /// The green value is not a byte.
    InvalidGreen,
    /// The blue value is not a byte.
    InvalidBlue,
    /// The comma before the green value is missing.
    MissingGreen,
    /// The comma before the blue value is missing.
    MissingBlue,
    /// The line names no known colour.
    UnknownColourType,
}

/// Error reading the `[Colours]` section.
#[derive(Clone, Copy, Debug, PartialEq, Eq, Hash)]
pub struct ParseError(pub ColourParseError);

/// The colour error of an RGB error.
pub open spec fn rgb_error(e: RGBParseError) -> ColourParseError {
    match e {
        RGBParseError::InvalidRed => ColourParseError::InvalidRed,
        RGBParseError::InvalidGreen => ColourParseError::InvalidGreen,
        RGBParseError::InvalidBlue => ColourParseError::InvalidBlue,
        RGBParseError::MissingGreen => ColourParseError::MissingGreen,
        RGBParseError::MissingBlue => ColourParseError::MissingBlue,
    }
}

fn rgb_error_exec(e: RGBParseError) -> (r: ColourParseError)
    ensures
        r == rgb_error(e),
{
    match e {
        RGBParseError::InvalidRed => ColourParseError::InvalidRed,
        RGBParseError::InvalidGreen => ColourParseError::InvalidGreen,
        RGBParseError::InvalidBlue => ColourParseError::InvalidBlue,
        RGBParseError::MissingGreen => ColourParseError::MissingGreen,
        RGBParseError::MissingBlue => ColourParseError::MissingBlue,
    }
}

// ---------------------------------------------------------------------------
// Scanning
/// Index of the first character at or after `i` that is not a space or tab.
pub open spec fn skip_blank(s: Seq<char>, i: int) -> int
    decreases s.len() - i,
{
    if 0 <= i < s.len() && (s[i] == ' ' || s[i] == '\t') {
        skip_blank(s, i + 1)
    } else {
        i
    }
}

/// Index of the first character at or after `i` that is not a digit.
pub open spec fn skip_digits(s: Seq<char>, i: int) -> int
    decreases s.len() - i,
{
    if 0 <= i < s.len() && is_digit(s[i]) {
        skip_digits(s, i + 1)
    } else {
        i
    }
}

proof fn lemma_skip_bounds(s: Seq<char>, i: int)
    requires
        0 <= i <= s.len(),
    ensures
        i <= skip_blank(s, i) <= s.len(),
        i <= skip_digits(s, i) <= s.len(),
    decreases s.len() - i,
{
    if i < s.len() {
        lemma_skip_bounds(s, i + 1);
    }
}

fn skip_blank_exec(s: &[char], i: usize) -> (r: usize)
    requires
        i <= s.len(),
    ensures
        r == skip_blank(s@, i as int),
        i <= r <= s.len(),
{
    let mut j = i;
    while j < s.len() && (s[j] == ' ' || s[j] == '\t')
        invariant
            i <= j <= s.len(),
            skip_blank(s@, i as int) == skip_blank(s@, j as int),
        decreases s.len() - j,
    {
        j = j + 1;
    }
    j
}

fn skip_digits_exec(s: &[char], i: usize) -> (r: usize)
    requires
        i <= s.len(),
    ensures
        r == skip_digits(s@, i as int),
        i <= r <= s.len(),
{
    let mut j = i;
    while j < s.len() && ('0' <= s[j] && s[j] <= '9')
        invariant
            i <= j <= s.len(),
            skip_digits(s@, i as int) == skip_digits(s@, j as int),
        decreases s.len() - j,
    {
        j = j + 1;
    }
    j
}

/// A run of digits read as a byte.
pub open spec fn byte_of(d: Seq<char>) -> Option<u8> {
    match parse_int_spec(d, 0, 255) {
        Ok(v) => Some(v as u8),
        Err(_) => None,
    }
}

fn byte_of_exec(s: &[char], from: usize, to: usize) -> (r: Option<u8>)
    requires
        from <= to <= s.len(),
    ensures
        r == byte_of(s@.subrange(from as int, to as int)),
{
    let d = slice_to_vec(s, from, to);
    match parse_u8(d.as_slice()) {
        Ok(v) => Some(v),
        Err(_) => None,
    }
}

/// An RGB colour, each channel from 0 to 255.
#[derive(Clone, Copy, Hash, Debug, PartialEq, Eq)]
pub struct Rgb {
    /// Red.
    pub red: u8,
    /// Green.
    pub green: u8,
    /// Blue.
    pub blue: u8,
}

impl View for Rgb {
    type V = Rgb;

    open spec fn view(&self) -> Rgb {
        *self
    }
}

/// What reading `red,green,blue` gives; spaces and tabs may stand around the
/// numbers, the blue value is the rest of the text.
#[verifier::opaque]
pub open spec fn rgb_parse(s: Seq<char>) -> Result<Rgb, RGBParseError> {
    let a = skip_blank(s, 0);
    let b = skip_digits(s, a);
    if b == a || byte_of(s.subrange(a, b)) is None {
        Err(RGBParseError::InvalidRed)
    } else {
        let c = skip_blank(s, b);
        if c >= s.len() || s[c] != ',' {
            Err(RGBParseError::MissingGreen)
        } else {
            let d = skip_blank(s, c + 1);
            let e = skip_digits(s, d);
            if e == d || byte_of(s.subrange(d, e)) is None {
                Err(RGBParseError::InvalidGreen)
            } else {
                let f = skip_blank(s, e);
                if f >= s.len() || s[f] != ',' {
                    Err(RGBParseError::MissingBlue)
                } else {
                    let g = skip_blank(s, f + 1);
                    match byte_of(s.subrange(g, s.len() as int)) {
                        None => Err(RGBParseError::InvalidBlue),
                        Some(blue) => Ok(
                            Rgb {
                                red: byte_of(s.subrange(a, b)).unwrap(),
                                green: byte_of(s.subrange(d, e)).unwrap(),
                                blue,
                            },
                        ),
                    }
                }
            }
        }
    }
}

/// The text of an RGB colour.
pub open spec fn rgb_text(c: Rgb) -> Seq<char> {
    int_text(c.red as int) + seq![','] + int_text(c.green as int) + seq![','] + int_text(
        c.blue as int,
    )
}

impl Rgb {
    /// Reads `red,green,blue`.
    pub fn parse(s: &[char]) -> (r: Result<Rgb, RGBParseError>)
        ensures
            r == rgb_parse(s@),
    {
        reveal(rgb_parse);
        proof {
            lemma_skip_bounds(s@, 0);
        }
        let a = skip_blank_exec(s, 0);
        let b = skip_digits_exec(s, a);
        if b == a {
            return Err(RGBParseError::InvalidRed);
        }
        let red = match byte_of_exec(s, a, b) {
            Some(v) => v,
            None => return Err(RGBParseError::InvalidRed),
        };
        let c = skip_blank_exec(s, b);
        if c >= s.len() || s[c] != ',' {
            return Err(RGBParseError::MissingGreen);
        }
        let d = skip_blank_exec(s, c + 1);
        let e = skip_digits_exec(s, d);
        if e == d {
            return Err(RGBParseError::InvalidGreen);
        }
        let green = match byte_of_exec(s, d, e) {
            Some(v) => v,
            None => return Err(RGBParseError::InvalidGreen),
        };
        let f = skip_blank_exec(s, e);
        if f >= s.len() || s[f] != ',' {
            return Err(RGBParseError::MissingBlue);
        }
        let g = skip_blank_exec(s, f + 1);
        match byte_of_exec(s, g, s.len()) {
            None => Err(RGBParseError::InvalidBlue),
            Some(blue) => Ok(Rgb { red, green, blue }),
        }
    }

    /// Appends the text of the colour.
    pub fn push_to(&self, out: &mut Vec<char>)
        ensures
            final(out)@ == old(out)@ + rgb_text(*self),
    {
        push_int(out, self.red as i64);
        out.push(',');
        push_int(out, self.green as i64);
        out.push(',');
        push_int(out, self.blue as i64);
        assert(out@ =~= old(out)@ + rgb_text(*self));
    }
}

impl VersionedFromStr for Rgb {
    type Err = RGBParseError;

    open spec fn parse_text(s: Seq<char>, version: Version) -> Result<Option<Rgb>, RGBParseError> {
        match rgb_parse(s) {
            Ok(c) => Ok(Some(c)),
            Err(e) => Err(e),
        }
    }

    fn from_chars(s: &[char], version: Version) -> (r: Result<Option<Rgb>, RGBParseError>) {
        match Rgb::parse(s) {
            Ok(c) => Ok(Some(c)),
            Err(e) => Err(e),
        }
    }
}

impl VersionedToString for Rgb {
    open spec fn text_of(v: Rgb, version: Version) -> Option<Seq<char>> {
        Some(rgb_text(v))
    }

    fn to_chars(&self, version: Version) -> (r: Option<Vec<char>>) {
        let mut out: Vec<char> = Vec::new();
        self.push_to(&mut out);
        assert(out@ =~= rgb_text(*self));
        Some(out)
    }
}

/// A colour line of the `[Colours]` section.
#[derive(Clone, Copy, Hash, PartialEq, Eq, Debug)]
pub enum Colour {
    /// Additive combo colour, with its number.
    Combo(i32, Rgb),
    /// Additive slider track colour.
    SliderTrackOverride(Rgb),
    /// Slider border colour.
    SliderBorder(Rgb),
}

impl View for Colour {
    type V = Colour;

    open spec fn view(&self) -> Colour {
        *self
    }
}

/// The separator after a colour's name: `:` with spaces or tabs around it.
/// Gives the index after it.
pub open spec fn separator_end(s: Seq<char>, i: int) -> Option<int> {
    let j = skip_blank(s, i);
    if j < s.len() && s[j] == ':' {
        Some(skip_blank(s, j + 1))
    } else {
        None
    }
}

/// The colour read after its name, with the RGB value starting after the separator at `i`.
pub open spec fn colour_rest(s: Seq<char>, i: int) -> Result<Rgb, ColourParseError> {
    match separator_end(s, i) {
        None => Err(ColourParseError::InvalidColonSeparator),
        Some(j) => match rgb_parse(s.subrange(j, s.len() as int)) {
            Ok(c) => Ok(c),
            Err(e) => Err(rgb_error(e)),
        },
    }
}

/// Whether `s` starts with `SliderBorder` or `Sliderborder`.
pub open spec fn is_slider_border(s: Seq<char>) -> bool {
    starts_with(s, "Slider"@) && s.len() > 11 && (s[6] == 'B' || s[6] == 'b') && s.subrange(7, 12)
        == "order"@
}

/// What reading a colour line gives; the line is trimmed first.
#[verifier::opaque]
pub open spec fn colour_parse(line: Seq<char>) -> Result<Colour, ColourParseError> {
    let s = trim(line);
    if starts_with(s, "Combo"@) {
        let e = skip_digits(s, 5);
        if e == 5 {
            Err(ColourParseError::InvalidComboCount)
        } else {
            match parse_int_spec(s.subrange(5, e), i32::MIN as int, i32::MAX as int) {
                Err(_) => Err(ColourParseError::InvalidComboCount),
                Ok(n) => match colour_rest(s, e) {
                    Ok(c) => Ok(Colour::Combo(n as i32, c)),
                    Err(err) => Err(err),
                },
            }
        }
    } else if starts_with(s, "SliderTrackOverride"@) {
        match colour_rest(s, 19) {
            Ok(c) => Ok(Colour::SliderTrackOverride(c)),
            Err(err) => Err(err),
        }
    } else if is_slider_border(s) {
        match colour_rest(s, 12) {
            Ok(c) => Ok(Colour::SliderBorder(c)),
            Err(err) => Err(err),
        }
    } else {
        Err(ColourParseError::UnknownColourType)
    }
}

/// The text of a colour line.
pub open spec fn colour_text(c: Colour) -> Seq<char> {
    match c {
        Colour::Combo(n, rgb) => "Combo"@ + int_text(n as int) + " : "@ + rgb_text(rgb),
        Colour::SliderTrackOverride(rgb) => "SliderTrackOverride : "@ + rgb_text(rgb),
        Colour::SliderBorder(rgb) => "SliderBorder : "@ + rgb_text(rgb),
    }
}

fn colour_rest_exec(s: &[char], i: usize) -> (r: Result<Rgb, ColourParseError>)
    requires
        i <= s.len(),
    ensures
        r == colour_rest(s@, i as int),
{
    let j = skip_blank_exec(s, i);
    if j >= s.len() || s[j] != ':' {
        return Err(ColourParseError::InvalidColonSeparator);
    }
    let k = skip_blank_exec(s, j + 1);
    let rest = slice_to_vec(s, k, s.len());
    match Rgb::parse(rest.as_slice()) {
        Ok(c) => Ok(c),
        Err(e) => Err(rgb_error_exec(e)),
    }
}

impl VersionedFromStr for Colour {
    type Err = ColourParseError;

    open spec fn parse_text(s: Seq<char>, version: Version) -> Result<Option<Colour>, ColourParseError> {
        match colour_parse(s) {
            Ok(c) => Ok(Some(c)),
            Err(e) => Err(e),
        }
    }

    fn from_chars(line: &[char], version: Version) -> (r: Result<Option<Colour>, ColourParseError>) {
        reveal(colour_parse);
        let s = trim_chars(line);
        let s = s.as_slice();
        if starts_with_str(s, "Combo") {
            proof {
                reveal_strlit("Combo");
            }
            let e = skip_digits_exec(s, 5);
            if e == 5 {
                return Err(ColourParseError::InvalidComboCount);
            }
            let d = slice_to_vec(s, 5, e);
            let n = match parse_i32(d.as_slice()) {
                Ok(n) => n,
                Err(_) => return Err(ColourParseError::InvalidComboCount),
            };
            let c = colour_rest_exec(s, e)?;
            Ok(Some(Colour::Combo(n, c)))
        } else if starts_with_str(s, "SliderTrackOverride") {
            proof {
                reveal_strlit("SliderTrackOverride");
            }
            let c = colour_rest_exec(s, 19)?;
            Ok(Some(Colour::SliderTrackOverride(c)))
        } else if starts_with_str(s, "Slider") && s.len() > 11 && (s[6] == 'B' || s[6] == 'b') && {
            let o = slice_to_vec(s, 7, 12);
            crate::text::eq_str(o.as_slice(), "order")
        } {
            proof {
                reveal_strlit("Slider");
            }
            let c = colour_rest_exec(s, 12)?;
            Ok(Some(Colour::SliderBorder(c)))
        } else {
            Err(ColourParseError::UnknownColourType)
        }
    }
}

impl VersionedToString for Colour {
    open spec fn text_of(v: Colour, version: Version) -> Option<Seq<char>> {
        Some(colour_text(v))
    }

    fn to_chars(&self, version: Version) -> (r: Option<Vec<char>>) {
        let mut out: Vec<char> = Vec::new();
        match self {
            Colour::Combo(n, rgb) => {
                crate::text::push_str(&mut out, "Combo");
                push_int(&mut out, *n as i64);
                crate::text::push_str(&mut out, " : ");
                rgb.push_to(&mut out);
            },
            Colour::SliderTrackOverride(rgb) => {
                crate::text::push_str(&mut out, "SliderTrackOverride : ");
                rgb.push_to(&mut out);
            },
            Colour::SliderBorder(rgb) => {
                crate::text::push_str(&mut out, "SliderBorder : ");
                rgb.push_to(&mut out);
            },
        }
        assert(out@ =~= colour_text(*self));
        Some(out)
    }
}

/// The `[Colours]` section; versions 3 and 4 have none.
#[derive(Clone, Debug, Hash, PartialEq, Eq)]
pub struct Colours(pub Vec<Colour>);

impl View for Colours {
    type V = Seq<Colour>;

    open spec fn view(&self) -> Seq<Colour> {
        self.0@
    }
}

/// Reads the non-blank lines, each as a colour; the error carries the index
/// of the line that failed.
pub open spec fn colour_lines_parse(ls: Seq<Seq<char>>) -> Result<Seq<Colour>, Error<ParseError>>
    decreases ls.len(),
{
    if ls.len() == 0 {
        Ok(Seq::empty())
    } else {
        match colour_lines_parse(ls.drop_last()) {
            Err(e) => Err(e),
            Ok(prev) => if trim(ls.last()).len() == 0 {
                Ok(prev)
            } else {
                match colour_parse(ls.last()) {
                    Ok(c) => Ok(prev.push(c)),
                    Err(e) => Err(Error { line_index: (ls.len() - 1) as usize, error: ParseError(e) }),
                }
            },
        }
    }
}

proof fn lemma_colour_lines_err(ls: Seq<Seq<char>>, k: int)
    requires
        0 <= k <= ls.len(),
        colour_lines_parse(ls.take(k)) is Err,
    ensures
        colour_lines_parse(ls) == colour_lines_parse(ls.take(k)),
    decreases ls.len() - k,
{
    if k < ls.len() {
        assert(ls.take(k + 1).drop_last() == ls.take(k));
        lemma_colour_lines_err(ls, k + 1);
    } else {
        assert(ls.take(k) == ls);
    }
}

impl VersionedFromStr for Colours {
    type Err = Error<ParseError>;

    open spec fn parse_text(s: Seq<char>, version: Version) -> Result<Option<Seq<Colour>>, Error<ParseError>> {
        if 3 <= version <= 4 {
            Ok(None)
        } else {
            match colour_lines_parse(lines(s)) {
                Ok(v) => Ok(Some(v)),
                Err(e) => Err(e),
            }
        }
    }

    fn from_chars(s: &[char], version: Version) -> (r: Result<Option<Colours>, Error<ParseError>>) {
        if 3 <= version && version <= 4 {
            return Ok(None);
        }
        let ls = lines_of(s);
        let mut cs: Vec<Colour> = Vec::new();
        let mut i: usize = 0;
        assert(vv(ls@).take(0) =~= Seq::<Seq<char>>::empty());
        assert(cs@ =~= Seq::<Colour>::empty());
        while i < ls.len()
            invariant
                i <= ls.len(),
                !(3 <= version <= 4),
                vv(ls@) == lines(s@),
                colour_lines_parse(vv(ls@).take(i as int)) == Ok::<Seq<Colour>, Error<ParseError>>(cs@),
            decreases ls.len() - i,
        {
            assert(vv(ls@).take(i + 1).drop_last() == vv(ls@).take(i as int));
            assert(vv(ls@).take(i + 1).last() == ls@[i as int]@);
            if !is_blank(ls[i].as_slice()) {
                match Colour::from_chars(ls[i].as_slice(), version) {
                    Ok(Some(c)) => cs.push(c),
                    Ok(None) => {},
                    Err(e) => {
                        let err = Error { line_index: i, error: ParseError(e) };
                        proof {
                            assert(colour_lines_parse(vv(ls@).take(i + 1)) == Err::<
                                Seq<Colour>,
                                Error<ParseError>,
                            >(err));
                            lemma_colour_lines_err(vv(ls@), i + 1);
                        }
                        return Err(err);
                    },
                }
            }
            i = i + 1;
        }
        assert(vv(ls@).take(ls@.len() as int) == vv(ls@));
        Ok(Some(Colours(cs)))
    }
}

impl VersionedToString for Colours {
    open spec fn text_of(v: Seq<Colour>, version: Version) -> Option<Seq<char>> {
        if 3 <= version <= 4 {
            None
        } else {
            Some(join(v.map_values(|c: Colour| colour_text(c)), seq!['\n']))
        }
    }

    fn to_chars(&self, version: Version) -> (r: Option<Vec<char>>) {
        if 3 <= version && version <= 4 {
            return None;
        }
        let mut ls: Vec<Vec<char>> = Vec::new();
        let mut i: usize = 0;
        while i < self.0.len()
            invariant
                i <= self.0.len(),
                ls@.len() == i,
                forall|j: int| 0 <= j < i ==> (#[trigger] ls@[j])@ == colour_text(self.0@[j]),
            decreases self.0.len() - i,
        {
            let t = self.0[i].to_chars(version).unwrap();
            ls.push(t);
            i = i + 1;
        }
        assert(vv(ls@) =~= self.0@.map_values(|c: Colour| colour_text(c)));
        let s = join_chars(&ls, "\n");
        proof {
            reveal_strlit("\n");
            assert("\n"@ =~= seq!['\n']);
        }
        Some(s)
    }
}

impl Colours {
    /// The section in `version`: absent in versions 3 and 4, otherwise empty.
    pub fn default(version: Version) -> (r: Option<Colours>)
        ensures
            3 <= version <= 4 ==> r is None,
            !(3 <= version <= 4) ==> (r matches Some(c) && c@.len() == 0),
    {
        if 3 <= version && version <= 4 {
            None
        } else {
            Some(Colours(Vec::new()))
        }
    }
}

} // verus!
