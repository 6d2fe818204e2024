//! Storyboard files (`.osb`): variables and events.
use vstd::prelude::*;

use crate::events::{
    events_parse, events_stuck, events_text, EventView, Events, ParseError as EventsParseError,
};
use crate::sections::{
    chunk_view, chunks_view, section_body, section_body_exec, sections_of, split_sections,
    trailing_blank_lines, trailing_blank_lines_exec, SectionChunk, SectionText,
};
use crate::text::{
    chars_of, eq_str, is_blank, join, join_chars, lines, lines_of, push_chars, push_part, push_str,
    slice_to_vec, starts_with, string_from_chars, trim, vv,
};
use crate::types::{Error, Version, VersionedToString};

verus! {

/// Error reading a variable.
#[derive(Clone, Copy, Debug, Hash, PartialEq, Eq)]
pub enum ParseVariableError {
    /// The line does not start with `$`.
    MissingHeader,
    /// No `=` follows the name.
    MissingEquals,
}

/// A storyboard variable: `$name=value`; its uses in command lines are
/// replaced by the value.
#[derive(Clone, Debug, Hash, PartialEq, Eq)]
pub struct Variable {
    pub name: String,
    pub value: String,
}

/// The view of a variable: its name and value.
pub struct VariableView {
    pub name: Seq<char>,
    pub value: Seq<char>,
}

impl View for Variable {
    type V = VariableView;

    open spec fn view(&self) -> VariableView {
        VariableView { name: self.name@, value: self.value@ }
    }
}

/// Index of the first `=` or newline in `s`, if any.
pub open spec fn name_end(s: Seq<char>) -> Option<nat>
    decreases s.len(),
{
    if s.len() == 0 {
        None
    } else if s[0] == '=' || s[0] == '\n' {
        Some(0)
    } else {
        match name_end(s.drop_first()) {
            Some(k) => Some(k + 1),
            None => None,
        }
    }
}

/// The lines on which reading a variable panics: an empty line, or a
/// `$` with no `=` or newline after it, which the grammar reports as
/// incomplete.
pub open spec fn variable_stuck(s: Seq<char>) -> bool {
    s.len() == 0 || (s[0] == '$' && name_end(s.drop_first()) is None)
}

/// What reading a variable line gives.
pub open spec fn variable_parse(s: Seq<char>) -> Result<VariableView, ParseVariableError> {
    if s.len() == 0 || s[0] != '$' {
        Err(ParseVariableError::MissingHeader)
    } else {
        let rest = s.drop_first();
        match name_end(rest) {
            None => Err(ParseVariableError::MissingEquals),
            Some(k) => if rest[k as int] == '\n' {
                Err(ParseVariableError::MissingEquals)
            } else {
                Ok(VariableView { name: rest.take(k as int), value: rest.skip((k + 1) as int) })
            },
        }
    }
}

/// The text of a variable.
pub open spec fn variable_text(v: VariableView) -> Seq<char> {
    seq!['$'] + v.name + seq!['='] + v.value
}

proof fn lemma_name_end_step(s: Seq<char>, i: int)
    requires
        0 <= i < s.len(),
        s[i] != '=' && s[i] != '\n',
    ensures
        name_end(s.skip(i)) == match name_end(s.skip(i + 1)) {
            Some(k) => Some(k + 1),
            None => None::<nat>,
        },
{
    assert(s.skip(i).drop_first() =~= s.skip(i + 1));
}

proof fn lemma_name_end_bound(s: Seq<char>)
    ensures
        name_end(s) matches Some(k) ==> k < s.len() && (s[k as int] == '=' || s[k as int] == '\n'),
    decreases s.len(),
{
    if s.len() > 0 && s[0] != '=' && s[0] != '\n' {
        lemma_name_end_bound(s.drop_first());
    }
}

impl Variable {
    /// Reads a variable line; the `requires` leaves out the lines on which
    /// reading panics.
    pub fn parse_chars(s: &[char]) -> (r: Result<Variable, ParseVariableError>)
        requires
            !variable_stuck(s@),
        ensures
            match (r, variable_parse(s@)) {
                (Ok(a), Ok(b)) => a@ == b,
                (Err(a), Err(b)) => a == b,
                _ => false,
            },
    {
        match Variable::try_parse_chars(s) {
            Some(x) => x,
            None => Err(ParseVariableError::MissingHeader),
        }
    }

    /// Reads a variable line; `None` exactly on the lines on which reading
    /// panics (see `variable_stuck`).
    pub fn try_parse_chars(s: &[char]) -> (r: Option<Result<Variable, ParseVariableError>>)
        ensures
            r is None <==> variable_stuck(s@),
            r matches Some(x) ==> match (x, variable_parse(s@)) {
                (Ok(a), Ok(b)) => a@ == b,
                (Err(a), Err(b)) => a == b,
                _ => false,
            },
    {
        if s.len() == 0 {
            return None;
        }
        if s[0] != '$' {
            return Some(Err(ParseVariableError::MissingHeader));
        }
        let ghost rest = s@.drop_first();
        let mut i: usize = 1;
        assert(s@.skip(1) =~= rest);
        while i < s.len() && s[i] != '=' && s[i] != '\n'
            invariant
                1 <= i <= s.len(),
                rest == s@.drop_first(),
                name_end(rest) == match name_end(s@.skip(i as int)) {
                    Some(k) => Some((k + (i - 1)) as nat),
                    None => None::<nat>,
                },
            decreases s.len() - i,
        {
            proof {
                lemma_name_end_step(s@, i as int);
            }
            i = i + 1;
        }
        if i == s.len() {
            assert(s@.skip(i as int).len() == 0);
            return None;
        }
        assert(s@.skip(i as int)[0] == s@[i as int]);
        assert(name_end(rest) == Some((i - 1) as nat));
        if s[i] == '\n' {
            return Some(Err(ParseVariableError::MissingEquals));
        }
        let name = slice_to_vec(s, 1, i);
        let value = slice_to_vec(s, i + 1, s.len());
        assert(name@ =~= rest.take(i - 1));
        assert(value@ =~= rest.skip(i as int));
        Some(Ok(Variable { name: string_from_chars(&name), value: string_from_chars(&value) }))
    }
}

impl VersionedToString for Variable {
    open spec fn text_of(v: VariableView, version: Version) -> Option<Seq<char>> {
        Some(variable_text(v))
    }

    fn to_chars(&self, version: Version) -> (r: Option<Vec<char>>) {
        let mut out: Vec<char> = Vec::new();
        out.push('$');
        push_str(&mut out, self.name.as_str());
        out.push('=');
        push_str(&mut out, self.value.as_str());
        assert(out@ =~= variable_text(self@));
        Some(out)
    }
}

// ---------------------------------------------------------------------------
// Substitution

/// Whether `pat` occurs in `s`.
pub open spec fn occurs(s: Seq<char>, pat: Seq<char>) -> bool
    decreases s.len(),
{
    if s.len() < pat.len() {
        false
    } else if starts_with(s, pat) {
        true
    } else if s.len() == 0 {
        false
    } else {
        occurs(s.drop_first(), pat)
    }
}

/// `s` with each occurrence of `pat` replaced by `rep`, from the left and
/// without overlaps, as `str::replace` does.
pub open spec fn replace_all(s: Seq<char>, pat: Seq<char>, rep: Seq<char>) -> Seq<char>
    recommends
        pat.len() > 0,
    decreases s.len(),
{
    if pat.len() == 0 || s.len() < pat.len() {
        s
    } else if starts_with(s, pat) {
        rep + replace_all(s.skip(pat.len() as int), pat, rep)
    } else {
        seq![s[0]] + replace_all(s.drop_first(), pat, rep)
    }
}

/// Index of the first occurrence of `c` in `s`, if any.
pub open spec fn first_index_of(s: Seq<char>, c: char) -> Option<nat>
    decreases s.len(),
{
    if s.len() == 0 {
        None
    } else if s[0] == c {
        Some(0)
    } else {
        match first_index_of(s.drop_first(), c) {
            Some(k) => Some(k + 1),
            None => None,
        }
    }
}

/// The part of a line after its first comma, or the whole line if it has none.
pub open spec fn after_first_comma(s: Seq<char>) -> Seq<char> {
    match first_index_of(s, ',') {
        Some(i) => s.skip((i + 1) as int),
        None => s,
    }
}

/// A command line with the variables put in: for each variable in turn whose
/// `$name` occurs after the line's first comma (in the line as read), every
/// `$name` in the line so far is replaced by its value.
pub open spec fn substitute(line: Seq<char>, vars: Seq<VariableView>) -> Seq<char>
    decreases vars.len(),
{
    if vars.len() == 0 {
        line
    } else {
        let prev = substitute(line, vars.drop_last());
        let full = seq!['$'] + vars.last().name;
        if occurs(after_first_comma(line), full) {
            replace_all(prev, full, vars.last().value)
        } else {
            prev
        }
    }
}

proof fn lemma_occurs_step(s: Seq<char>, i: int, pat: Seq<char>)
    requires
        0 <= i < s.len(),
        s.len() - i >= pat.len(),
        !starts_with(s.skip(i), pat),
    ensures
        occurs(s.skip(i), pat) == occurs(s.skip(i + 1), pat),
{
    assert(s.skip(i).drop_first() =~= s.skip(i + 1));
}

/// Whether `pat` occurs in `s`.
pub fn occurs_exec(s: &[char], pat: &[char]) -> (r: bool)
    ensures
        r == occurs(s@, pat@),
{
    let mut i: usize = 0;
    assert(s@.skip(0) =~= s@);
    while i < s.len() && s.len() - i >= pat.len()
        invariant
            i <= s.len(),
            occurs(s@, pat@) == occurs(s@.skip(i as int), pat@),
        decreases s.len() - i,
    {
        if prefix_at(s, i, pat) {
            return true;
        }
        proof {
            lemma_occurs_step(s@, i as int, pat@);
        }
        i = i + 1;
    }
    prefix_at(s, i, pat)
}

/// Whether `pat` occurs in `s` at index `i`.
fn prefix_at(s: &[char], i: usize, pat: &[char]) -> (r: bool)
    requires
        i <= s.len(),
    ensures
        r == starts_with(s@.skip(i as int), pat@),
{
    if s.len() - i < pat.len() {
        return false;
    }
    let mut j: usize = 0;
    while j < pat.len()
        invariant
            j <= pat.len(),
            i + pat.len() <= s.len(),
            forall|k: int| 0 <= k < j ==> s@[i + k] == pat@[k],
        decreases pat.len() - j,
    {
        if s[i + j] != pat[j] {
            assert(s@.skip(i as int).take(pat@.len() as int)[j as int] == s@[i + j]);
            return false;
        }
        j = j + 1;
    }
    assert(s@.skip(i as int).take(pat@.len() as int) =~= pat@);
    true
}

proof fn lemma_replace_step_match(s: Seq<char>, i: int, pat: Seq<char>, rep: Seq<char>)
    requires
        0 <= i <= s.len(),
        pat.len() > 0,
        s.len() - i >= pat.len(),
        starts_with(s.skip(i), pat),
    ensures
        replace_all(s.skip(i), pat, rep) == rep + replace_all(s.skip(i + pat.len()), pat, rep),
{
    assert(s.skip(i).skip(pat.len() as int) =~= s.skip(i + pat.len()));
}

proof fn lemma_replace_step_plain(s: Seq<char>, i: int, pat: Seq<char>, rep: Seq<char>)
    requires
        0 <= i < s.len(),
        pat.len() > 0,
        !(s.len() - i >= pat.len() && starts_with(s.skip(i), pat)),
    ensures
        replace_all(s.skip(i), pat, rep) == seq![s[i]] + replace_all(s.skip(i + 1), pat, rep),
{
    assert(s.skip(i).drop_first() =~= s.skip(i + 1));
    if s.len() - i < pat.len() {
        if s.len() - i - 1 < pat.len() {
            assert(replace_all(s.skip(i + 1), pat, rep) == s.skip(i + 1));
            assert(s.skip(i) =~= seq![s[i]] + s.skip(i + 1));
        }
    }
}

/// `s` with each occurrence of `pat` replaced by `rep`.
pub fn replace_all_exec(s: &[char], pat: &[char], rep: &[char]) -> (r: Vec<char>)
    requires
        pat.len() > 0,
    ensures
        r@ == replace_all(s@, pat@, rep@),
{
    let mut out: Vec<char> = Vec::new();
    let mut i: usize = 0;
    assert(s@.skip(0) =~= s@);
    while i < s.len()
        invariant
            i <= s.len(),
            pat@.len() > 0,
            out@ + replace_all(s@.skip(i as int), pat@, rep@) == replace_all(s@, pat@, rep@),
        decreases s.len() - i,
    {
        if prefix_at(s, i, pat) {
            proof {
                lemma_replace_step_match(s@, i as int, pat@, rep@);
                assert(out@ + rep@ + replace_all(s@.skip(i + pat@.len()), pat@, rep@) =~= out@ + (rep@
                    + replace_all(s@.skip(i + pat@.len()), pat@, rep@)));
            }
            push_chars(&mut out, rep);
            i = i + pat.len();
        } else {
            proof {
                lemma_replace_step_plain(s@, i as int, pat@, rep@);
                assert(out@.push(s@[i as int]) + replace_all(s@.skip(i + 1), pat@, rep@) =~= out@ + (seq![
                    s@[i as int],
                ] + replace_all(s@.skip(i + 1), pat@, rep@)));
            }
            out.push(s[i]);
            i = i + 1;
        }
    }
    assert(s@.skip(i as int).len() == 0);
    assert(replace_all(s@.skip(i as int), pat@, rep@) =~= Seq::<char>::empty());
    assert(out@ =~= out@ + Seq::<char>::empty());
    out
}


proof fn lemma_first_index_step(s: Seq<char>, i: int, c: char)
    requires
        0 <= i < s.len(),
        s[i] != c,
    ensures
        first_index_of(s.skip(i), c) == match first_index_of(s.skip(i + 1), c) {
            Some(k) => Some(k + 1),
            None => None::<nat>,
        },
{
    assert(s.skip(i).drop_first() =~= s.skip(i + 1));
}

fn after_first_comma_exec(s: &[char]) -> (r: Vec<char>)
    ensures
        r@ == after_first_comma(s@),
{
    let mut i: usize = 0;
    assert(s@.skip(0) =~= s@);
    while i < s.len() && s[i] != ','
        invariant
            i <= s.len(),
            first_index_of(s@, ',') == match first_index_of(s@.skip(i as int), ',') {
                Some(k) => Some((k + i) as nat),
                None => None::<nat>,
            },
        decreases s.len() - i,
    {
        proof {
            lemma_first_index_step(s@, i as int, ',');
        }
        i = i + 1;
    }
    if i == s.len() {
        assert(s@.skip(i as int).len() == 0);
        slice_to_vec(s, 0, s.len())
    } else {
        assert(s@.skip(i as int)[0] == s@[i as int]);
        slice_to_vec(s, i + 1, s.len())
    }
}

/// The views of a list of variables.
pub open spec fn variables_view(vars: Seq<Variable>) -> Seq<VariableView> {
    vars.map_values(|v: Variable| v@)
}

/// A command line with the variables put in.
pub fn substitute_exec(line: &[char], vars: &[Variable]) -> (r: Vec<char>)
    ensures
        r@ == substitute(line@, variables_view(vars@)),
{
    let header_rest = after_first_comma_exec(line);
    let mut cur = slice_to_vec(line, 0, line.len());
    assert(cur@ =~= line@);
    let mut i: usize = 0;
    assert(variables_view(vars@).take(0) =~= Seq::<VariableView>::empty());
    while i < vars.len()
        invariant
            i <= vars.len(),
            header_rest@ == after_first_comma(line@),
            cur@ == substitute(line@, variables_view(vars@).take(i as int)),
        decreases vars.len() - i,
    {
        let ghost vs = variables_view(vars@);
        assert(vs.take(i + 1).drop_last() =~= vs.take(i as int));
        assert(vs.take(i + 1).last() == vars@[i as int]@);
        let mut full: Vec<char> = Vec::new();
        full.push('$');
        push_str(&mut full, vars[i].name.as_str());
        assert(full@ =~= seq!['$'] + vars@[i as int].name@);
        if occurs_exec(header_rest.as_slice(), full.as_slice()) {
            let value = chars_of(vars[i].value.as_str());
            cur = replace_all_exec(cur.as_slice(), full.as_slice(), value.as_slice());
        }
        i = i + 1;
    }
    assert(variables_view(vars@).take(vars@.len() as int) =~= variables_view(vars@));
    cur
}


// ---------------------------------------------------------------------------
// Storyboard files

/// Error reading a storyboard file.
#[derive(Clone, Copy, Debug, Hash, PartialEq, Eq)]
pub enum ParseError {
    /// Two sections have the same name.
    DuplicateSections,
    /// A section name is neither `Variables` nor `Events`.
    UnknownSection,
    ParseVariableError(ParseVariableError),
    ParseEventsError(EventsParseError),
}

/// Number of empty lines written after each section.
#[derive(Clone, Copy, Debug, Hash, PartialEq, Eq)]
pub struct OsbSpacing {
    pub variables: usize,
    pub events: usize,
}

impl OsbSpacing {
    /// One empty line after each section.
    pub fn default() -> (r: OsbSpacing)
        ensures
            r == (OsbSpacing { variables: 1, events: 1 }),
    {
        OsbSpacing { variables: 1, events: 1 }
    }
}

/// A storyboard file: its variables and events, and the spacing after each.
#[derive(Debug, Hash, PartialEq, Eq)]
pub struct Osb {
    pub variables: Option<Vec<Variable>>,
    pub events: Option<Events>,
    pub spacing: OsbSpacing,
}

/// The view of a storyboard file.
pub struct OsbView {
    pub variables: Option<Seq<VariableView>>,
    pub events: Option<Seq<EventView>>,
    pub spacing: OsbSpacing,
}

impl View for Osb {
    type V = OsbView;

    open spec fn view(&self) -> OsbView {
        OsbView {
            variables: match self.variables {
                Some(v) => Some(variables_view(v@)),
                None => None,
            },
            events: match self.events {
                Some(e) => Some(e@),
                None => None,
            },
            spacing: self.spacing,
        }
    }
}

/// `Variables`.
pub open spec fn variables_word() -> Seq<char> {
    seq!['V', 'a', 'r', 'i', 'a', 'b', 'l', 'e', 's']
}

/// `Events`.
pub open spec fn events_word() -> Seq<char> {
    seq!['E', 'v', 'e', 'n', 't', 's']
}

/// The outcome of reading the lines of a `[Variables]` section whose first
/// line has index `base`; `Err(None)` where reading panics.
pub open spec fn variable_lines_parse(ls: Seq<Seq<char>>, base: usize) -> Result<Seq<VariableView>, Option<Error<ParseError>>>
    decreases ls.len(),
{
    if ls.len() == 0 {
        Ok(Seq::empty())
    } else {
        match variable_lines_parse(ls.drop_last(), base) {
            Err(e) => Err(e),
            Ok(vs) => {
                let l = ls.last();
                if trim(l).len() == 0 {
                    Ok(vs)
                } else if variable_stuck(l) {
                    Err(None)
                } else {
                    match variable_parse(l) {
                        Ok(v) => Ok(vs.push(v)),
                        Err(e) => Err(Some(Error {
                            line_index: base.saturating_add((ls.len() - 1) as usize),
                            error: ParseError::ParseVariableError(e),
                        })),
                    }
                }
            },
        }
    }
}

/// What a storyboard file read so far holds.
pub struct OsbAcc {
    pub seen: Seq<Seq<char>>,
    pub variables: Option<Seq<VariableView>>,
    pub events: Option<Seq<EventView>>,
    pub spacing: OsbSpacing,
}

/// The empty lines after a section: its trailing blank lines, and one more
/// for the last section where the text ends with a newline.
pub open spec fn spacing_after(sec: SectionText, last: bool, ends_newline: bool) -> usize {
    (trailing_blank_lines(sec.lines) as usize).saturating_add(if last && ends_newline { 1usize } else { 0usize })
}

/// Reads one section of a storyboard file.
#[verifier::opaque]
pub open spec fn osb_section_step(acc: OsbAcc, sec: SectionText, last: bool, ends_newline: bool, version: Version) -> Result<OsbAcc, Option<Error<ParseError>>> {
    let base = (sec.header as usize).saturating_add(1);
    if acc.seen.contains(sec.name) {
        Err(Some(Error { line_index: sec.header as usize, error: ParseError::DuplicateSections }))
    } else if sec.name == variables_word() {
        match variable_lines_parse(sec.lines, base) {
            Err(e) => Err(e),
            Ok(vs) => Ok(OsbAcc {
                seen: acc.seen.push(sec.name),
                variables: Some(vs),
                spacing: OsbSpacing { variables: spacing_after(sec, last, ends_newline), ..acc.spacing },
                ..acc
            }),
        }
    } else if sec.name == events_word() {
        let vars = match acc.variables {
            Some(v) => v,
            None => Seq::empty(),
        };
        if events_stuck(section_body(sec), version, vars) {
            Err(None)
        } else {
            match events_parse(section_body(sec), version, vars) {
                Err(e) => Err(Some(Error {
                    line_index: e.line_index.saturating_add(base),
                    error: ParseError::ParseEventsError(e.error),
                })),
                Ok(evs) => Ok(OsbAcc {
                    seen: acc.seen.push(sec.name),
                    events: Some(evs),
                    spacing: OsbSpacing { events: spacing_after(sec, last, ends_newline), ..acc.spacing },
                    ..acc
                }),
            }
        }
    } else {
        Err(Some(Error { line_index: sec.header as usize, error: ParseError::UnknownSection }))
    }
}

/// Reads the first sections of a storyboard file, out of `total`.
pub open spec fn osb_fold(secs: Seq<SectionText>, total: nat, ends_newline: bool, version: Version) -> Result<OsbAcc, Option<Error<ParseError>>>
    decreases secs.len(),
{
    if secs.len() == 0 {
        Ok(OsbAcc { seen: Seq::empty(), variables: None, events: None, spacing: OsbSpacing { variables: 1, events: 1 } })
    } else {
        match osb_fold(secs.drop_last(), total, ends_newline, version) {
            Err(e) => Err(e),
            Ok(acc) => osb_section_step(acc, secs.last(), secs.len() == total, ends_newline, version),
        }
    }
}

/// Whether a text ends with a newline.
pub open spec fn ends_newline(s: Seq<char>) -> bool {
    s.len() > 0 && s.last() == '\n'
}

/// The outcome of reading a storyboard file of version 14 or later.
pub open spec fn osb_outcome(s: Seq<char>, version: Version) -> Result<OsbAcc, Option<Error<ParseError>>> {
    let secs = sections_of(lines(s), 0);
    osb_fold(secs, secs.len(), ends_newline(s), version)
}

/// Whether reading a storyboard file panics.
pub open spec fn osb_stuck(s: Seq<char>, version: Version) -> bool {
    version >= 14 && osb_outcome(s, version) == Err::<OsbAcc, Option<Error<ParseError>>>(None)
}

/// What reading a storyboard file gives: nothing before version 14.
pub open spec fn osb_parse(s: Seq<char>, version: Version) -> Result<Option<OsbView>, Error<ParseError>> {
    if version < 14 {
        Ok(None)
    } else {
        match osb_outcome(s, version) {
            Ok(acc) => Ok(Some(OsbView { variables: acc.variables, events: acc.events, spacing: acc.spacing })),
            Err(Some(e)) => Err(e),
            Err(None) => Ok(None),
        }
    }
}

proof fn lemma_osb_fold_err(secs: Seq<SectionText>, k: int, total: nat, nl: bool, version: Version)
    requires
        0 <= k <= secs.len(),
        osb_fold(secs.take(k), total, nl, version) is Err,
    ensures
        osb_fold(secs, total, nl, version) == osb_fold(secs.take(k), total, nl, version),
    decreases secs.len() - k,
{
    if k < secs.len() {
        assert(secs.take(k + 1).drop_last() =~= secs.take(k));
        lemma_osb_fold_err(secs, k + 1, total, nl, version);
    } else {
        assert(secs.take(k) =~= secs);
    }
}

proof fn lemma_variable_lines_err(ls: Seq<Seq<char>>, k: int, base: usize)
    requires
        0 <= k <= ls.len(),
        variable_lines_parse(ls.take(k), base) is Err,
    ensures
        variable_lines_parse(ls, base) == variable_lines_parse(ls.take(k), base),
    decreases ls.len() - k,
{
    if k < ls.len() {
        assert(ls.take(k + 1).drop_last() =~= ls.take(k));
        lemma_variable_lines_err(ls, k + 1, base);
    } else {
        assert(ls.take(k) =~= ls);
    }
}

fn variable_lines_exec(ls: &Vec<Vec<char>>, base: usize) -> (r: Result<Vec<Variable>, Option<Error<ParseError>>>)
    ensures
        match variable_lines_parse(vv(ls@), base) {
            Ok(vs) => r matches Ok(v) && variables_view(v@) == vs,
            Err(x) => r == Err::<Vec<Variable>, Option<Error<ParseError>>>(x),
        },
{
    let mut vars: Vec<Variable> = Vec::new();
    let mut i: usize = 0;
    assert(vv(ls@).take(0) =~= Seq::<Seq<char>>::empty());
    assert(variables_view(vars@) =~= Seq::<VariableView>::empty());
    while i < ls.len()
        invariant
            i <= ls.len(),
            variable_lines_parse(vv(ls@).take(i as int), base) == Ok::<
                Seq<VariableView>,
                Option<Error<ParseError>>,
            >(variables_view(vars@)),
        decreases ls.len() - i,
    {
        assert(vv(ls@).take(i + 1).drop_last() =~= vv(ls@).take(i as int));
        assert(vv(ls@).take(i + 1).last() == ls@[i as int]@);
        let l = &ls[i];
        if !is_blank(l.as_slice()) {
            proof {
                if variable_lines_parse(vv(ls@).take(i + 1), base) is Err {
                    lemma_variable_lines_err(vv(ls@), i + 1, base);
                }
            }
            match Variable::try_parse_chars(l.as_slice()) {
                None => {
                    return Err(None);
                },
                Some(Ok(v)) => {
                    let ghost before = vars@;
                    vars.push(v);
                    assert(variables_view(vars@) =~= variables_view(before).push(vars@.last()@));
                },
                Some(Err(e)) => {
                    let err = Error::new(ParseError::ParseVariableError(e), base.saturating_add(i));
                    return Err(Some(err));
                },
            }
        }
        i = i + 1;
    }
    assert(vv(ls@).take(ls@.len() as int) =~= vv(ls@));
    Ok(vars)
}


fn seen_contains(seen: &Vec<Vec<char>>, name: &Vec<char>) -> (r: bool)
    ensures
        r == vv(seen@).contains(name@),
{
    let mut i: usize = 0;
    while i < seen.len()
        invariant
            i <= seen.len(),
            forall|j: int| 0 <= j < i ==> vv(seen@)[j] != name@,
        decreases seen.len() - i,
    {
        if crate::text::chars_eq(seen[i].as_slice(), name.as_slice()) {
            assert(vv(seen@)[i as int] == name@);
            return true;
        }
        i = i + 1;
    }
    false
}

proof fn lemma_osb_words()
    ensures
        "Variables"@ == variables_word(),
        "Events"@ == events_word(),
{
    reveal_strlit("Variables");
    reveal_strlit("Events");
    assert("Variables"@ =~= variables_word());
    assert("Events"@ =~= events_word());
}

/// The views of the events, if any.
pub open spec fn opt_events_view(e: Option<Events>) -> Option<Seq<EventView>> {
    match e {
        Some(x) => Some(x@),
        None => None,
    }
}

/// The views of the variables, if any.
pub open spec fn opt_variables_view(v: Option<Vec<Variable>>) -> Option<Seq<VariableView>> {
    match v {
        Some(x) => Some(variables_view(x@)),
        None => None,
    }
}

/// What the storyboard file read so far holds, by its parts.
pub open spec fn acc_of(seen: Seq<Vec<char>>, variables: Option<Vec<Variable>>, events: Option<Events>, spacing: OsbSpacing) -> OsbAcc {
    OsbAcc { seen: vv(seen), variables: opt_variables_view(variables), events: opt_events_view(events), spacing }
}

#[verifier::rlimit(40)]
fn osb_section_step_exec(
    seen: &mut Vec<Vec<char>>,
    variables: &mut Option<Vec<Variable>>,
    events: &mut Option<Events>,
    spacing: &mut OsbSpacing,
    sec: &SectionChunk,
    last: bool,
    nl: bool,
    version: Version,
) -> (r: Result<(), Option<Error<ParseError>>>)
    ensures
        match osb_section_step(acc_of(old(seen)@, *old(variables), *old(events), *old(spacing)), chunk_view(*sec), last, nl, version) {
            Ok(a) => r is Ok && acc_of(final(seen)@, *final(variables), *final(events), *final(spacing)) == a,
            Err(x) => r == Err::<(), Option<Error<ParseError>>>(x),
        },
{
    proof {
        lemma_osb_words();
        reveal(osb_section_step);
    }
    let base = sec.header.saturating_add(1);
    if seen_contains(seen, &sec.name) {
        return Err(Some(Error::new(ParseError::DuplicateSections, sec.header)));
    }
    if eq_str(sec.name.as_slice(), "Variables") {
        match variable_lines_exec(&sec.lines, base) {
            Err(e) => return Err(e),
            Ok(vs) => {
                *variables = Some(vs);
            },
        }
        let tb = trailing_blank_lines_exec(&sec.lines);
        let extra: usize = if last && nl { 1 } else { 0 };
        *spacing = OsbSpacing { variables: tb.saturating_add(extra), events: spacing.events };
        assert(spacing.variables == spacing_after(chunk_view(*sec), last, nl));
        assert(opt_variables_view(*variables) == Some(variables_view(variables->0@)));
    } else if eq_str(sec.name.as_slice(), "Events") {
        let body = section_body_exec(sec);
        let no_vars: Vec<Variable> = Vec::new();
        assert(variables_view(no_vars@) =~= Seq::<VariableView>::empty());
        let parsed = match &*variables {
            Some(vs) => Events::try_from_str_variables_chars(body.as_slice(), version, vs.as_slice()),
            None => Events::try_from_str_variables_chars(body.as_slice(), version, no_vars.as_slice()),
        };
        match parsed {
            None => {
                return Err(None);
            },
            Some(Err(e)) => {
                return Err(Some(Error::new(ParseError::ParseEventsError(e.error), e.line_index.saturating_add(base))));
            },
            Some(Ok(Some(evs))) => {
                *events = Some(evs);
            },
            Some(Ok(None)) => {
                assert(false);
            },
        }
        let tb = trailing_blank_lines_exec(&sec.lines);
        let extra: usize = if last && nl { 1 } else { 0 };
        *spacing = OsbSpacing { variables: spacing.variables, events: tb.saturating_add(extra) };
        assert(spacing.events == spacing_after(chunk_view(*sec), last, nl));
    } else {
        return Err(Some(Error::new(ParseError::UnknownSection, sec.header)));
    }
    let name_copy = slice_to_vec(sec.name.as_slice(), 0, sec.name.len());
    assert(name_copy@ =~= sec.name@);
    push_part(seen, name_copy);
    Ok(())
}

impl Osb {
    /// Reads a storyboard file; before version 14 there is none. The
    /// `requires` leaves out the inputs on which reading panics.
    pub fn from_str(s: &str, version: Version) -> (r: Result<Option<Osb>, Error<ParseError>>)
        requires
            !osb_stuck(s@, version),
        ensures
            match osb_parse(s@, version) {
                Ok(Some(o)) => r matches Ok(Some(x)) && x@ == o,
                Ok(None) => r matches Ok(None),
                Err(e) => r == Err::<Option<Osb>, Error<ParseError>>(e),
            },
    {
        match Osb::try_from_str(s, version) {
            Some(x) => x,
            None => Ok(None),
        }
    }

    /// Reads a storyboard file; before version 14 there is none. `None`
    /// exactly on the inputs on which reading panics (see
    /// `osb_stuck`).
    pub fn try_from_str(s: &str, version: Version) -> (r: Option<Result<Option<Osb>, Error<ParseError>>>)
        ensures
            r is None <==> osb_stuck(s@, version),
            r matches Some(y) ==> match osb_parse(s@, version) {
                Ok(Some(o)) => y matches Ok(Some(x)) && x@ == o,
                Ok(None) => y matches Ok(None),
                Err(e) => y == Err::<Option<Osb>, Error<ParseError>>(e),
            },
    {
        if version < 14 {
            return Some(Ok(None));
        }
        let c = chars_of(s);
        let ls = lines_of(c.as_slice());
        let secs = split_sections(&ls, 0);
        let nl = c.len() > 0 && c[c.len() - 1] == '\n';
        assert(nl == ends_newline(s@));
        let ghost total = secs@.len();
        let ghost sv = chunks_view(secs@);
        let mut seen: Vec<Vec<char>> = Vec::new();
        let mut variables: Option<Vec<Variable>> = None;
        let mut events: Option<Events> = None;
        let mut spacing = OsbSpacing::default();
        let mut k: usize = 0;
        assert(sv.take(0) =~= Seq::<SectionText>::empty());
        assert(vv(seen@) =~= Seq::<Seq<char>>::empty());
        while k < secs.len()
            invariant
                k <= secs.len(),
                version >= 14,
                sv == chunks_view(secs@),
                sv == sections_of(lines(s@), 0),
                nl == ends_newline(s@),
                sv.len() == total,
                osb_fold(sv.take(k as int), total, nl, version) == Ok::<OsbAcc, Option<Error<ParseError>>>(
                    acc_of(seen@, variables, events, spacing),
                ),
            decreases secs.len() - k,
        {
            assert(sv.take(k + 1).drop_last() =~= sv.take(k as int));
            assert(sv.take(k + 1).last() == chunk_view(secs@[k as int]));
            proof {
                if osb_fold(sv.take(k + 1), total, nl, version) is Err {
                    lemma_osb_fold_err(sv, k + 1, total, nl, version);
                }
            }
            let last = k + 1 == secs.len();
            match osb_section_step_exec(&mut seen, &mut variables, &mut events, &mut spacing, &secs[k], last, nl, version) {
                Err(Some(e)) => return Some(Err(e)),
                Err(None) => return None,
                Ok(()) => {},
            }
            k = k + 1;
        }
        assert(sv.take(total as int) =~= sv);
        Some(Ok(Some(Osb { variables, events, spacing })))
    }
}


/// `n` newlines.
pub open spec fn newlines(n: nat) -> Seq<char> {
    Seq::new(n, |i: int| '\n')
}

/// `[Variables]` and a newline.
pub open spec fn variables_header() -> Seq<char> {
    seq!['['] + variables_word() + seq![']', '\n']
}

/// `[Events]` and a newline.
pub open spec fn events_header() -> Seq<char> {
    seq!['['] + events_word() + seq![']', '\n']
}

/// The text of a storyboard file: each present section with its header, its
/// lines, and the empty lines after it; nothing before version 14.
pub open spec fn osb_text(o: OsbView, version: Version) -> Option<Seq<char>> {
    if version < 14 {
        None
    } else {
        Some(
            (match o.variables {
                Some(vs) => variables_header() + join(vs.map_values(|v: VariableView| variable_text(v)), seq!['\n'])
                    + newlines((o.spacing.variables + 1) as nat),
                None => Seq::empty(),
            }) + (match o.events {
                Some(evs) => events_header() + events_text(evs, version) + newlines(o.spacing.events as nat),
                None => Seq::empty(),
            }),
        )
    }
}

fn push_newlines(out: &mut Vec<char>, n: usize)
    ensures
        final(out)@ == old(out)@ + newlines(n as nat),
{
    let mut i: usize = 0;
    while i < n
        invariant
            i <= n,
            out@ == old(out)@ + newlines(i as nat),
        decreases n - i,
    {
        out.push('\n');
        assert(old(out)@ + newlines((i + 1) as nat) =~= old(out)@ + newlines(i as nat) + seq!['\n']);
        i = i + 1;
    }
}

fn variables_chars(vs: &Vec<Variable>) -> (r: Vec<char>)
    ensures
        r@ == join(variables_view(vs@).map_values(|v: VariableView| variable_text(v)), seq!['\n']),
{
    let mut parts: Vec<Vec<char>> = Vec::new();
    let mut i: usize = 0;
    while i < vs.len()
        invariant
            i <= vs.len(),
            vv(parts@) == variables_view(vs@).map_values(|v: VariableView| variable_text(v)).take(i as int),
        decreases vs.len() - i,
    {
        let t = vs[i].to_chars(14).unwrap();
        push_part(&mut parts, t);
        assert(vv(parts@) =~= variables_view(vs@).map_values(|v: VariableView| variable_text(v)).take(i + 1));
        i = i + 1;
    }
    assert(variables_view(vs@).map_values(|v: VariableView| variable_text(v)).take(vs@.len() as int)
        =~= variables_view(vs@).map_values(|v: VariableView| variable_text(v)));
    proof {
        reveal_strlit("\n");
        assert("\n"@ =~= seq!['\n']);
    }
    join_chars(&parts, "\n")
}

impl Osb {
    /// The text of the storyboard file as characters.
    pub fn osb_chars(&self, version: Version) -> (r: Option<Vec<char>>)
        ensures
            match r {
                Some(c) => osb_text(self@, version) == Some(c@),
                None => osb_text(self@, version) is None,
            },
    {
        if version < 14 {
            return None;
        }
        proof {
            lemma_osb_words();
            reveal_strlit("[Variables]\n");
            reveal_strlit("[Events]\n");
            assert("[Variables]\n"@ =~= variables_header());
            assert("[Events]\n"@ =~= events_header());
        }
        let mut out: Vec<char> = Vec::new();
        match &self.variables {
            Some(vs) => {
                push_str(&mut out, "[Variables]\n");
                let t = variables_chars(vs);
                push_chars(&mut out, t.as_slice());
                push_newlines(&mut out, self.spacing.variables);
                out.push('\n');
                assert(newlines((self.spacing.variables + 1) as nat) =~= newlines(self.spacing.variables as nat) + seq!['\n']);
            },
            None => {},
        }
        let ghost mid = out@;
        match &self.events {
            Some(evs) => {
                push_str(&mut out, "[Events]\n");
                let t = evs.events_chars(version);
                push_chars(&mut out, t.as_slice());
                push_newlines(&mut out, self.spacing.events);
            },
            None => {},
        }
        assert(out@ =~= osb_text(self@, version).unwrap());
        Some(out)
    }
}

impl VersionedToString for Osb {
    open spec fn text_of(v: OsbView, version: Version) -> Option<Seq<char>> {
        osb_text(v, version)
    }

    fn to_chars(&self, version: Version) -> (r: Option<Vec<char>>) {
        self.osb_chars(version)
    }
}

} // verus!
