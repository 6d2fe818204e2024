//! Small helpers shared by the sections: bit flags, `0`/`1` booleans,
//! `|`-separated lists and `key:value` lines.
use vstd::prelude::*;

use crate::text::{
    chars_of, join, join_chars, parse_i32, parse_int_spec, push_chars, push_str, split, split_chars,
    string_from_chars, vv, ParseIntError,
};
use crate::types::{opt_text, Version, VersionedFromStr, VersionedToString};

verus! {

/// Whether bit `nth_bit` of `value` is set.
pub fn nth_bit_state_i64(value: i64, nth_bit: u8) -> (r: bool)
    requires
        nth_bit < 64,
    ensures
        r == ((value >> nth_bit) & 1 == 1),
{
    (value >> nth_bit) & 1 == 1
}

/// Error reading a `0`/`1` boolean.
#[derive(Clone, Copy, Debug, PartialEq, Eq, Hash)]
pub enum ParseZeroOneBoolError {
    /// The value is not an integer.
    ParseIntError(ParseIntError),
    /// The value is an integer other than `0` or `1`.
    InvalidValue,
}

/// What reading a `0`/`1` boolean gives.
pub open spec fn zero_one_bool_spec(s: Seq<char>) -> Result<bool, ParseZeroOneBoolError> {
    match parse_int_spec(s, i32::MIN as int, i32::MAX as int) {
        Err(k) => Err(ParseZeroOneBoolError::ParseIntError(ParseIntError { kind: k })),
        Ok(v) => if v == 0 {
            Ok(false)
        } else if v == 1 {
            Ok(true)
        } else {
            Err(ParseZeroOneBoolError::InvalidValue)
        },
    }
}

/// Reads `0` as `false` and `1` as `true`.
pub fn parse_zero_one_bool_chars(value: &[char]) -> (r: Result<bool, ParseZeroOneBoolError>)
    ensures
        r == zero_one_bool_spec(value@),
{
    match parse_i32(value) {
        Err(e) => Err(ParseZeroOneBoolError::ParseIntError(e)),
        Ok(v) => if v == 0 {
            Ok(false)
        } else if v == 1 {
            Ok(true)
        } else {
            Err(ParseZeroOneBoolError::InvalidValue)
        },
    }
}

/// Reads `0` as `false` and `1` as `true`.
pub fn parse_zero_one_bool(value: &str) -> (r: Result<bool, ParseZeroOneBoolError>)
    ensures
        r == zero_one_bool_spec(value@),
{
    let c = chars_of(value);
    parse_zero_one_bool_chars(c.as_slice())
}

/// The text of a boolean as `0` or `1`.
pub open spec fn bool_text(b: bool) -> Seq<char> {
    if b {
        seq!['1']
    } else {
        seq!['0']
    }
}

pub fn push_bool(out: &mut Vec<char>, b: bool)
    ensures
        final(out)@ == old(out)@ + bool_text(b),
{
    if b {
        out.push('1');
    } else {
        out.push('0');
    }
}

/// The texts of a list of values, each by `text_of`.
pub open spec fn texts<T: VersionedToString>(items: Seq<T>, version: Version) -> Seq<Seq<char>> {
    items.map_values(|x: T| T::text_of(x@, version).unwrap())
}

/// Whether every value has a text in `version`.
pub open spec fn all_have_text<T: VersionedToString>(items: Seq<T>, version: Version) -> bool {
    forall|i: int| 0 <= i < items.len() ==> (T::text_of((#[trigger] items[i])@, version) is Some)
}

/// Appends the texts of the values joined with `|`.
pub fn push_pipe_vec<T: VersionedToString>(out: &mut Vec<char>, vec: &[T], version: Version)
    requires
        all_have_text(vec@, version),
    ensures
        final(out)@ == old(out)@ + join(texts(vec@, version), seq!['|']),
{
    let mut i: usize = 0;
    while i < vec.len()
        invariant
            i <= vec.len(),
            all_have_text(vec@, version),
            out@ == old(out)@ + join(texts(vec@, version).take(i as int), seq!['|']),
        decreases vec.len() - i,
    {
        assert(texts(vec@, version).take(i + 1).drop_last() == texts(vec@, version).take(
            i as int,
        ));
        if i > 0 {
            out.push('|');
        }
        let t = vec[i].to_chars(version);
        assert(T::text_of(vec@[i as int]@, version) is Some);
        let t = t.unwrap();
        push_chars(out, t.as_slice());
        proof {
            let tx = texts(vec@, version);
            assert(tx.take(i + 1).last() == t@);
            if i == 0 {
                assert(join(tx.take(1), seq!['|']) == tx.take(1)[0]);
            }
            assert(out@ =~= old(out)@ + join(tx.take(i + 1), seq!['|']));
        }
        i = i + 1;
    }
    assert(texts(vec@, version).take(vec@.len() as int) == texts(vec@, version));
}

/// The texts of the values joined with `|`.
pub fn pipe_vec_to_string<T: VersionedToString>(vec: &[T], version: Version) -> (r: String)
    requires
        all_have_text(vec@, version),
    ensures
        r@ == join(texts(vec@, version), seq!['|']),
{
    let mut out: Vec<char> = Vec::new();
    push_pipe_vec(&mut out, vec, version);
    assert(out@ =~= join(texts(vec@, version), seq!['|']));
    string_from_chars(&out)
}

/// Error reading a `|`-separated list: the item that failed, by its index
/// and its text, and why.
#[derive(Clone, Debug, PartialEq, Eq, Hash)]
pub struct PipeVecParseErr<E> {
    /// Index of the item that failed to read.
    pub index: usize,
    /// Text of the item that failed to read.
    pub value: String,
    /// Why it failed.
    pub source: E,
}

/// The view of an error reading a `|`-separated list.
pub struct PipeVecParseErrView<E> {
    pub index: usize,
    pub value: Seq<char>,
    pub source: E,
}

impl<E> View for PipeVecParseErr<E> {
    type V = PipeVecParseErrView<E>;

    open spec fn view(&self) -> PipeVecParseErrView<E> {
        PipeVecParseErrView { index: self.index, value: self.value@, source: self.source }
    }
}

/// Reads the parts in order; values that do not exist in `version` are left out.
pub open spec fn parse_parts<T: VersionedFromStr>(parts: Seq<Seq<char>>, version: Version) -> Result<
    Seq<T::V>,
    PipeVecParseErrView<T::Err>,
>
    decreases parts.len(),
{
    if parts.len() == 0 {
        Ok(Seq::empty())
    } else {
        match parse_parts::<T>(parts.drop_last(), version) {
            Err(e) => Err(e),
            Ok(prev) => match T::parse_text(parts.last(), version) {
                Err(e) => Err(PipeVecParseErrView { index: (parts.len() - 1) as usize, value: parts.last(), source: e }),
                Ok(None) => Ok(prev),
                Ok(Some(v)) => Ok(prev.push(v)),
            },
        }
    }
}

/// The views of a list of values.
pub open spec fn views<T: View>(v: Seq<T>) -> Seq<T::V> {
    v.map_values(|x: T| x@)
}

/// Reads each part in order.
pub fn parse_parts_exec<T: VersionedFromStr>(parts: &Vec<Vec<char>>, version: Version) -> (r: Result<
    Vec<T>,
    PipeVecParseErr<T::Err>,
>)
    ensures
        match (r, parse_parts::<T>(vv(parts@), version)) {
            (Ok(a), Ok(b)) => views(a@) == b,
            (Err(a), Err(b)) => a@ == b,
            _ => false,
        },
{
    let mut out: Vec<T> = Vec::new();
    let mut i: usize = 0;
    assert(vv(parts@).take(0) =~= Seq::<Seq<char>>::empty());
    assert(views(out@) =~= Seq::<T::V>::empty());
    while i < parts.len()
        invariant
            i <= parts.len(),
            parse_parts::<T>(vv(parts@).take(i as int), version) == Ok::<
                Seq<T::V>,
                PipeVecParseErrView<T::Err>,
            >(views(out@)),
        decreases parts.len() - i,
    {
        let ghost pre = vv(parts@).take(i as int);
        assert(vv(parts@).take(i + 1).drop_last() == pre);
        assert(vv(parts@).take(i + 1).last() == parts@[i as int]@);
        match T::from_chars(parts[i].as_slice(), version) {
            Err(e) => {
                proof {
                    lemma_parse_parts_err::<T>(vv(parts@), (i + 1) as int, version);
                }
                return Err(PipeVecParseErr { index: i, value: string_from_chars(&parts[i]), source: e });
            },
            Ok(None) => {},
            Ok(Some(v)) => {
                let ghost before = out@;
                out.push(v);
                assert(views(out@) =~= views(before).push(v@));
            },
        }
        i = i + 1;
    }
    assert(vv(parts@).take(parts@.len() as int) == vv(parts@));
    Ok(out)
}

proof fn lemma_parse_parts_err<T: VersionedFromStr>(parts: Seq<Seq<char>>, k: int, version: Version)
    requires
        0 <= k <= parts.len(),
        parse_parts::<T>(parts.take(k), version) is Err,
    ensures
        parse_parts::<T>(parts, version) == parse_parts::<T>(parts.take(k), version),
    decreases parts.len() - k,
{
    if k < parts.len() {
        assert(parts.take(k + 1).drop_last() == parts.take(k));
        lemma_parse_parts_err::<T>(parts, k + 1, version);
    } else {
        assert(parts.take(k) == parts);
    }
}

/// Reads a `|`-separated list of values.
pub fn str_to_pipe_vec<T: VersionedFromStr>(s: &str, version: Version) -> (r: Result<
    Vec<T>,
    PipeVecParseErr<T::Err>,
>)
    ensures
        match (r, parse_parts::<T>(split(s@, '|'), version)) {
            (Ok(a), Ok(b)) => views(a@) == b,
            (Err(a), Err(b)) => a@ == b,
            _ => false,
        },
{
    let c = chars_of(s);
    let parts = split_chars(c.as_slice(), '|');
    parse_parts_exec(&parts, version)
}

/// The `name:value` lines of the fields that have a value, joined with newlines.
pub open spec fn colon_fields_text(fields: Seq<(Seq<char>, Option<Seq<char>>)>, space: bool) -> Seq<
    Seq<char>,
>
    decreases fields.len(),
{
    if fields.len() == 0 {
        Seq::empty()
    } else {
        let prev = colon_fields_text(fields.drop_last(), space);
        match fields.last().1 {
            Some(v) => prev.push(
                fields.last().0 + seq![':'] + (if space {
                    seq![' ']
                } else {
                    Seq::empty()
                }) + v,
            ),
            None => prev,
        }
    }
}

/// The view of a list of named optional values.
pub open spec fn named_fields_view(fields: Seq<(&str, &Option<String>)>) -> Seq<
    (Seq<char>, Option<Seq<char>>),
> {
    fields.map_values(|f: (&str, &Option<String>)| (f.0@, opt_text(*f.1)))
}

/// Writes each field that has a value as `name:value` (with a space after the
/// colon when asked), one per line.
pub fn display_colon_fields(fields: &[(&str, &Option<String>)], space_after_colon: bool) -> (r:
    String)
    ensures
        r@ == join(colon_fields_text(named_fields_view(fields@), space_after_colon), seq!['\n']),
{
    let mut lines: Vec<Vec<char>> = Vec::new();
    let mut i: usize = 0;
    while i < fields.len()
        invariant
            i <= fields.len(),
            vv(lines@) == colon_fields_text(named_fields_view(fields@).take(i as int), space_after_colon),
        decreases fields.len() - i,
    {
        let ghost nf = named_fields_view(fields@);
        assert(nf.take(i + 1).drop_last() == nf.take(i as int));
        assert(nf.take(i + 1).last() == nf[i as int]);
        let (name, value) = fields[i];
        match value {
            Some(v) => {
                let mut line: Vec<char> = Vec::new();
                push_str(&mut line, name);
                line.push(':');
                if space_after_colon {
                    line.push(' ');
                }
                push_str(&mut line, v.as_str());
                let ghost before = lines@;
                lines.push(line);
                proof {
                    assert(vv(lines@) =~= vv(before).push(line@));
                    assert(line@ =~= nf[i as int].0 + seq![':'] + (if space_after_colon {
                        seq![' ']
                    } else {
                        Seq::empty()
                    }) + nf[i as int].1.unwrap());
                }
            },
            None => {},
        }
        i = i + 1;
    }
    assert(named_fields_view(fields@).take(fields@.len() as int) == named_fields_view(fields@));
    let out = join_chars(&lines, "\n");
    proof {
        reveal_strlit("\n");
        assert("\n"@ =~= seq!['\n']);
    }
    string_from_chars(&out)
}

/// The strings that are present, in order.
pub open spec fn present_texts(items: Seq<Option<Seq<char>>>) -> Seq<Seq<char>>
    decreases items.len(),
{
    if items.len() == 0 {
        Seq::empty()
    } else {
        match items.last() {
            Some(s) => present_texts(items.drop_last()).push(s),
            None => present_texts(items.drop_last()),
        }
    }
}

/// Joining the present strings of a list with newlines.
pub trait MapOptStringNewLine {
    /// The view of the items.
    spec fn items_view(&self) -> Seq<Option<Seq<char>>>;

    /// The present strings joined with newlines.
    fn map_string_new_line(&self) -> (r: String)
        ensures
            r@ == join(present_texts(self.items_view()), seq!['\n']),
    ;
}

impl MapOptStringNewLine for Vec<Option<String>> {
    open spec fn items_view(&self) -> Seq<Option<Seq<char>>> {
        self@.map_values(|o: Option<String>| opt_text(o))
    }

    fn map_string_new_line(&self) -> (r: String) {
        let mut kept: Vec<Vec<char>> = Vec::new();
        let mut i: usize = 0;
        while i < self.len()
            invariant
                i <= self.len(),
                vv(kept@) == present_texts(self.items_view().take(i as int)),
            decreases self.len() - i,
        {
            let ghost iv = self.items_view();
            assert(iv.take(i + 1).drop_last() == iv.take(i as int));
            assert(iv.take(i + 1).last() == opt_text(self@[i as int]));
            match &self[i] {
                Some(s) => {
                    let c = chars_of(s.as_str());
                    let ghost before = kept@;
                    kept.push(c);
                    assert(vv(kept@) =~= vv(before).push(c@));
                },
                None => {},
            }
            i = i + 1;
        }
        assert(self.items_view().take(self@.len() as int) == self.items_view());
        let out = join_chars(&kept, "\n");
        proof {
            reveal_strlit("\n");
            assert("\n"@ =~= seq!['\n']);
        }
        string_from_chars(&out)
    }
}

} // verus!
