//! Sections made of `key: value` lines, and the kinds of values they hold.
use vstd::prelude::*;

use crate::decimal::{parse_decimal_spec, Decimal};
use crate::helper::{bool_text, parse_zero_one_bool_chars, push_bool, zero_one_bool_spec, ParseZeroOneBoolError};
use crate::text::{
    int_text, join, join_chars, join_from, lead_ws, parse_i32, parse_int_spec, push_chars,
    push_int, skip_ws_from, slice_to_vec, split, split_chars, string_from_chars, trim, trim_chars,
    vv, chars_of, ParseIntError,
};
use crate::types::{Integer, Version, VersionedFromStr, VersionedToString};

verus! {

/// The view of an optional value.
pub open spec fn ov<T: View>(o: Option<T>) -> Option<T::V> {
    match o {
        Some(x) => Some(x@),
        None => None,
    }
}

/// A `key: value` line: the key before the first `:`, the number of
/// whitespace characters after it, and the value without surrounding whitespace.
pub open spec fn colon_line(l: Seq<char>) -> Option<(Seq<char>, nat, Seq<char>)> {
    let p = split(l, ':');
    if p.len() < 2 {
        None
    } else if trim(p[0]).len() == 0 {
        None
    } else {
        let rest = join(p.skip(1), seq![':']);
        Some((trim(p[0]), lead_ws(rest), trim(rest)))
    }
}

/// Reads a `key: value` line.
pub fn colon_line_exec(l: &[char]) -> (r: Option<(Vec<char>, usize, Vec<char>)>)
    ensures
        match (r, colon_line(l@)) {
            (Some((a, b, c)), Some((d, e, f))) => a@ == d && b == e && c@ == f,
            (None, None) => true,
            _ => false,
        },
{
    let p = split_chars(l, ':');
    if p.len() < 2 {
        return None;
    }
    assert(vv(p@)[0] == p@[0]@);
    let name = trim_chars(p[0].as_slice());
    if name.len() == 0 {
        return None;
    }
    let rest = join_from(&p, 1, ":");
    proof {
        reveal_strlit(":");
        assert(":"@ =~= seq![':']);
    }
    let sp = skip_ws_from(rest.as_slice(), 0);
    assert(rest@.skip(0) == rest@);
    let value = trim_chars(rest.as_slice());
    Some((name, sp, value))
}

/// `n` spaces.
pub open spec fn spaces(n: nat) -> Seq<char> {
    Seq::new(n, |i: int| ' ')
}

/// The text of a value that may be absent, by its view.
pub open spec fn ov_text<T: VersionedToString>(o: Option<T::V>, version: Version) -> Option<Seq<char>> {
    match o {
        Some(x) => T::text_of(x, version),
        None => None,
    }
}

/// The line written for a field: none where the value or its text is absent.
pub open spec fn line_of(key: Seq<char>, spacing: Option<usize>, default_spacing: nat, t: Option<Seq<char>>) -> Seq<Seq<char>> {
    match t {
        None => Seq::empty(),
        Some(t) => seq![
            key + seq![':'] + spaces(
                match spacing {
                    Some(n) => n as nat,
                    None => default_spacing,
                },
            ) + t,
        ],
    }
}

/// Appends the line of a field.
pub fn push_field_line<T: VersionedToString>(
    lines: &mut Vec<Vec<char>>,
    key: &str,
    value: &Option<T>,
    spacing: Option<usize>,
    default_spacing: usize,
    version: Version,
)
    ensures
        vv(final(lines)@) == vv(old(lines)@) + line_of(
            key@,
            spacing,
            default_spacing as nat,
            ov_text::<T>(ov(*value), version),
        ),
{
    match value {
        None => {
            assert(vv(lines@) =~= vv(old(lines)@) + Seq::<Seq<char>>::empty());
        },
        Some(v) => match v.to_chars(version) {
            None => {
                assert(vv(lines@) =~= vv(old(lines)@) + Seq::<Seq<char>>::empty());
            },
            Some(t) => {
                let n = match spacing {
                    Some(n) => n,
                    None => default_spacing,
                };
                let mut line = chars_of(key);
                line.push(':');
                let mut i: usize = 0;
                let ghost head = line@;
                while i < n
                    invariant
                        i <= n,
                        line@ == head + spaces(i as nat),
                    decreases n - i,
                {
                    line.push(' ');
                    assert(line@ =~= head + spaces((i + 1) as nat));
                    i = i + 1;
                }
                push_chars(&mut line, t.as_slice());
                let ghost before = lines@;
                lines.push(line);
                assert(vv(lines@) =~= vv(before).push(line@));
                assert(line@ =~= key@ + seq![':'] + spaces(n as nat) + t@);
            },
        },
    }
}

/// Whether `x` is in `v`.
pub fn vec_contains(v: &Vec<usize>, x: usize) -> (r: bool)
    ensures
        r == v@.contains(x),
{
    let mut i: usize = 0;
    while i < v.len()
        invariant
            i <= v.len(),
            forall|j: int| 0 <= j < i ==> v@[j] != x,
        decreases v.len() - i,
    {
        if v[i] == x {
            assert(v@[i as int] == x);
            return true;
        }
        i = i + 1;
    }
    false
}

// ---------------------------------------------------------------------------
// Kinds of values
impl VersionedFromStr for i32 {
    type Err = ParseIntError;

    open spec fn parse_text(s: Seq<char>, version: Version) -> Result<Option<i32>, ParseIntError> {
        match parse_int_spec(s, i32::MIN as int, i32::MAX as int) {
            Ok(v) => Ok(Some(v as i32)),
            Err(k) => Err(ParseIntError { kind: k }),
        }
    }

    fn from_chars(s: &[char], version: Version) -> (r: Result<Option<i32>, ParseIntError>) {
        match parse_i32(s) {
            Ok(v) => Ok(Some(v)),
            Err(e) => Err(e),
        }
    }
}

impl VersionedToString for i32 {
    open spec fn text_of(v: i32, version: Version) -> Option<Seq<char>> {
        Some(int_text(v as int))
    }

    fn to_chars(&self, version: Version) -> (r: Option<Vec<char>>) {
        let mut out: Vec<char> = Vec::new();
        push_int(&mut out, *self as i64);
        assert(out@ =~= int_text(*self as int));
        Some(out)
    }
}

impl VersionedFromStr for String {
    type Err = ();

    open spec fn parse_text(s: Seq<char>, version: Version) -> Result<Option<Seq<char>>, ()> {
        Ok(Some(s))
    }

    fn from_chars(s: &[char], version: Version) -> (r: Result<Option<String>, ()>) {
        let v = slice_to_vec(s, 0, s.len());
        assert(v@ =~= s@);
        Ok(Some(string_from_chars(&v)))
    }
}

impl VersionedToString for String {
    open spec fn text_of(v: Seq<char>, version: Version) -> Option<Seq<char>> {
        Some(v)
    }

    fn to_chars(&self, version: Version) -> (r: Option<Vec<char>>) {
        Some(chars_of(self.as_str()))
    }
}

impl VersionedFromStr for bool {
    type Err = ParseZeroOneBoolError;

    open spec fn parse_text(s: Seq<char>, version: Version) -> Result<Option<bool>, ParseZeroOneBoolError> {
        match zero_one_bool_spec(s) {
            Ok(b) => Ok(Some(b)),
            Err(e) => Err(e),
        }
    }

    fn from_chars(s: &[char], version: Version) -> (r: Result<Option<bool>, ParseZeroOneBoolError>) {
        match parse_zero_one_bool_chars(s) {
            Ok(b) => Ok(Some(b)),
            Err(e) => Err(e),
        }
    }
}

impl VersionedToString for bool {
    open spec fn text_of(v: bool, version: Version) -> Option<Seq<char>> {
        Some(bool_text(v))
    }

    fn to_chars(&self, version: Version) -> (r: Option<Vec<char>>) {
        let mut out: Vec<char> = Vec::new();
        push_bool(&mut out, *self);
        assert(out@ =~= bool_text(*self));
        Some(out)
    }
}

/// Error reading a decimal number.
#[derive(Clone, Copy, Debug, PartialEq, Eq, Hash)]
pub struct DecimalParseError;

impl View for Decimal {
    type V = Decimal;

    open spec fn view(&self) -> Decimal {
        *self
    }
}

impl VersionedFromStr for Decimal {
    type Err = DecimalParseError;

    open spec fn parse_text(s: Seq<char>, version: Version) -> Result<Option<Decimal>, DecimalParseError> {
        match parse_decimal_spec(s) {
            Some(d) => Ok(Some(d)),
            None => Err(DecimalParseError),
        }
    }

    fn from_chars(s: &[char], version: Version) -> (r: Result<Option<Decimal>, DecimalParseError>) {
        match Decimal::parse(s) {
            Some(d) => Ok(Some(d)),
            None => Err(DecimalParseError),
        }
    }
}

impl VersionedToString for Decimal {
    open spec fn text_of(v: Decimal, version: Version) -> Option<Seq<char>> {
        Some(v.text())
    }

    fn to_chars(&self, version: Version) -> (r: Option<Vec<char>>) {
        let mut out: Vec<char> = Vec::new();
        self.push_to(&mut out);
        assert(out@ =~= self.text());
        Some(out)
    }
}

/// Hash of the audio file; not written from version 14 on.
#[derive(Clone, Debug, PartialEq, Eq, Hash)]
pub struct AudioHash(pub String);

impl View for AudioHash {
    type V = Seq<char>;

    open spec fn view(&self) -> Seq<char> {
        self.0@
    }
}

impl VersionedFromStr for AudioHash {
    type Err = ();

    open spec fn parse_text(s: Seq<char>, version: Version) -> Result<Option<Seq<char>>, ()> {
        Ok(Some(s))
    }

    fn from_chars(s: &[char], version: Version) -> (r: Result<Option<AudioHash>, ()>) {
        let v = slice_to_vec(s, 0, s.len());
        assert(v@ =~= s@);
        Ok(Some(AudioHash(string_from_chars(&v))))
    }
}

impl VersionedToString for AudioHash {
    open spec fn text_of(v: Seq<char>, version: Version) -> Option<Seq<char>> {
        if version > 13 {
            None
        } else {
            Some(v)
        }
    }

    fn to_chars(&self, version: Version) -> (r: Option<Vec<char>>) {
        if version > 13 {
            None
        } else {
            Some(chars_of(self.0.as_str()))
        }
    }
}

/// Space-separated search terms.
#[derive(Clone, Debug, PartialEq, Eq, Hash)]
pub struct Tags(pub Vec<String>);

impl View for Tags {
    type V = Seq<Seq<char>>;

    open spec fn view(&self) -> Seq<Seq<char>> {
        self.0@.map_values(|t: String| t@)
    }
}

impl VersionedFromStr for Tags {
    type Err = ();

    open spec fn parse_text(s: Seq<char>, version: Version) -> Result<Option<Seq<Seq<char>>>, ()> {
        Ok(Some(split(s, ' ')))
    }

    fn from_chars(s: &[char], version: Version) -> (r: Result<Option<Tags>, ()>) {
        let parts = split_chars(s, ' ');
        let mut tags: Vec<String> = Vec::new();
        let mut i: usize = 0;
        while i < parts.len()
            invariant
                i <= parts.len(),
                tags@.len() == i,
                forall|j: int| 0 <= j < i ==> (#[trigger] tags@[j])@ == parts@[j]@,
            decreases parts.len() - i,
        {
            tags.push(string_from_chars(&parts[i]));
            i = i + 1;
        }
        let t = Tags(tags);
        assert(t@ =~= split(s@, ' ')) by {
            assert forall|j: int| 0 <= j < t@.len() implies #[trigger] t@[j] == split(s@, ' ')[j] by {
                assert(vv(parts@)[j] == parts@[j]@);
            }
        }
        Ok(Some(t))
    }
}

impl VersionedToString for Tags {
    open spec fn text_of(v: Seq<Seq<char>>, version: Version) -> Option<Seq<char>> {
        Some(join(v, seq![' ']))
    }

    fn to_chars(&self, version: Version) -> (r: Option<Vec<char>>) {
        let mut parts: Vec<Vec<char>> = Vec::new();
        let mut i: usize = 0;
        while i < self.0.len()
            invariant
                i <= self.0.len(),
                parts@.len() == i,
                forall|j: int| 0 <= j < i ==> (#[trigger] parts@[j])@ == self.0@[j]@,
            decreases self.0.len() - i,
        {
            parts.push(chars_of(self.0[i].as_str()));
            i = i + 1;
        }
        assert(vv(parts@) =~= self@);
        let out = join_chars(&parts, " ");
        proof {
            reveal_strlit(" ");
            assert(" "@ =~= seq![' ']);
        }
        Some(out)
    }
}

/// Error reading bookmarks.
#[derive(Clone, Copy, Debug, PartialEq, Eq, Hash)]
pub enum BookmarksParseError {
    /// A bookmark between two commas is empty.
    InvalidCommaList,
    /// A bookmark is not an integer.
    ParseIntError(ParseIntError),
}

/// Reads the comma-separated bookmarks in order; the first one that fails
/// decides the error.
pub open spec fn bookmark_parts(parts: Seq<Seq<char>>) -> Result<Seq<i32>, BookmarksParseError>
    decreases parts.len(),
{
    if parts.len() == 0 {
        Ok(Seq::empty())
    } else {
        match bookmark_parts(parts.drop_last()) {
            Err(e) => Err(e),
            Ok(prev) => match parse_int_spec(parts.last(), i32::MIN as int, i32::MAX as int) {
                Ok(v) => Ok(prev.push(v as i32)),
                Err(k) => if parts.last().len() == 0 {
                    Err(BookmarksParseError::InvalidCommaList)
                } else {
                    Err(BookmarksParseError::ParseIntError(ParseIntError { kind: k }))
                },
            },
        }
    }
}

proof fn lemma_bookmark_parts_err(parts: Seq<Seq<char>>, k: int)
    requires
        0 <= k <= parts.len(),
        bookmark_parts(parts.take(k)) is Err,
    ensures
        bookmark_parts(parts) == bookmark_parts(parts.take(k)),
    decreases parts.len() - k,
{
    if k < parts.len() {
        assert(parts.take(k + 1).drop_last() == parts.take(k));
        lemma_bookmark_parts_err(parts, k + 1);
    } else {
        assert(parts.take(k) == parts);
    }
}

/// Times in milliseconds of the editor's bookmarks, comma-separated.
#[derive(Clone, Debug, PartialEq, Eq, Hash)]
pub struct Bookmarks(pub Vec<Integer>);

impl View for Bookmarks {
    type V = Seq<i32>;

    open spec fn view(&self) -> Seq<i32> {
        self.0@
    }
}

impl VersionedFromStr for Bookmarks {
    type Err = BookmarksParseError;

    open spec fn parse_text(s: Seq<char>, version: Version) -> Result<Option<Seq<i32>>, BookmarksParseError> {
        if s.len() == 0 {
            Ok(Some(Seq::empty()))
        } else {
            match bookmark_parts(split(s, ',')) {
                Ok(v) => Ok(Some(v)),
                Err(e) => Err(e),
            }
        }
    }

    fn from_chars(s: &[char], version: Version) -> (r: Result<Option<Bookmarks>, BookmarksParseError>) {
        let mut out: Vec<i32> = Vec::new();
        if s.len() == 0 {
            assert(out@ =~= Seq::<i32>::empty());
            return Ok(Some(Bookmarks(out)));
        }
        let parts = split_chars(s, ',');
        let mut i: usize = 0;
        assert(vv(parts@).take(0) =~= Seq::<Seq<char>>::empty());
        assert(out@ =~= Seq::<i32>::empty());
        while i < parts.len()
            invariant
                i <= parts.len(),
                s.len() > 0,
                vv(parts@) == split(s@, ','),
                bookmark_parts(vv(parts@).take(i as int)) == Ok::<Seq<i32>, BookmarksParseError>(out@),
            decreases parts.len() - i,
        {
            assert(vv(parts@).take(i + 1).drop_last() == vv(parts@).take(i as int));
            assert(vv(parts@).take(i + 1).last() == parts@[i as int]@);
            match parse_i32(parts[i].as_slice()) {
                Ok(v) => {
                    out.push(v);
                },
                Err(e) => {
                    let err = if parts[i].len() == 0 {
                        BookmarksParseError::InvalidCommaList
                    } else {
                        BookmarksParseError::ParseIntError(e)
                    };
                    proof {
                        assert(bookmark_parts(vv(parts@).take(i + 1)) == Err::<
                            Seq<i32>,
                            BookmarksParseError,
                        >(err));
                        lemma_bookmark_parts_err(vv(parts@), i + 1);
                    }
                    return Err(err);
                },
            }
            i = i + 1;
        }
        assert(vv(parts@).take(parts@.len() as int) == vv(parts@));
        Ok(Some(Bookmarks(out)))
    }
}

impl VersionedToString for Bookmarks {
    open spec fn text_of(v: Seq<i32>, version: Version) -> Option<Seq<char>> {
        Some(join(v.map_values(|b: i32| int_text(b as int)), seq![',']))
    }

    fn to_chars(&self, version: Version) -> (r: Option<Vec<char>>) {
        let mut parts: Vec<Vec<char>> = Vec::new();
        let mut i: usize = 0;
        while i < self.0.len()
            invariant
                i <= self.0.len(),
                parts@.len() == i,
                forall|j: int| 0 <= j < i ==> (#[trigger] parts@[j])@ == int_text(self.0@[j] as int),
            decreases self.0.len() - i,
        {
            let mut t: Vec<char> = Vec::new();
            push_int(&mut t, self.0[i] as i64);
            assert(t@ =~= int_text(self.0@[i as int] as int));
            parts.push(t);
            i = i + 1;
        }
        assert(vv(parts@) =~= self@.map_values(|b: i32| int_text(b as int)));
        let out = join_chars(&parts, ",");
        proof {
            reveal_strlit(",");
            assert(","@ =~= seq![',']);
        }
        Some(out)
    }
}

} // verus!
