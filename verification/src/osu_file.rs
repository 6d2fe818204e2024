//! A whole `.osu` file: the format version line and the sections.
use vstd::prelude::*;

use crate::colours::{Colour, Colours, ParseError as ColoursParseError};
use crate::difficulty::{Difficulty, DifficultyView, ParseError as DifficultyParseError};
use crate::editor::{Editor, EditorView, ParseError as EditorParseError};
use crate::events::{events_parse, events_stuck, EventView, Events, ParseError as EventsParseError};
use crate::general::{General, GeneralView, ParseError as GeneralParseError};
use crate::hitobjects::error::ParseError as HitObjectsParseError;
use crate::hitobjects::{HitObjectView, HitObjects};
use crate::metadata::{Metadata, MetadataView, ParseError as MetadataParseError};
use crate::osb::{osb_parse, osb_stuck, osb_text, Osb, OsbView, ParseError as OsbParseError};
use crate::sections::{
    chunk_view, chunks_view, section_body, section_body_exec, sections_of, split_sections,
    SectionChunk, SectionText,
};
use crate::text::{
    chars_of, eq_str, int_text, join, lines, lines_of, parse_int_spec, parse_usize, push_chars,
    push_str, slice_to_vec, starts_with, starts_with_str, string_from_chars, trim, trim_chars, vv,
};
use crate::timingpoints::{TimingPointView, TimingPoints, TimingPointsParseError};
use crate::types::{Error, Version, VersionedFromStr, VersionedToString, LATEST_VERSION, MIN_VERSION};

verus! {

/// Error reading an `.osu` file.
#[derive(Clone, Copy, Debug, PartialEq, Eq, Hash)]
pub enum ParseError {
    /// The file version is no number of the versions read.
    InvalidFileVersion,
    /// The file does not start with `osu file format v`.
    FileVersionDefinedWrong,
    /// The version is defined, but not on the first line.
    FileVersionInWrongLine,
    /// A line other than a comment comes before the first section.
    UnexpectedLine,
    /// Two sections have the same name.
    DuplicateSections,
    /// A section name is unknown.
    UnknownSection,
    /// A section name misses its opening bracket.
    SectionNameNoOpenBracket,
    /// A section name misses its closing bracket.
    SectionNameNoCloseBracket,
    ParseGeneralError { source: GeneralParseError },
    ParseEditorError { source: EditorParseError },
    ParseMetadataError { source: MetadataParseError },
    ParseDifficultyError { source: DifficultyParseError },
    ParseEventsError { source: EventsParseError },
    ParseTimingPointsError { source: TimingPointsParseError },
    ParseColoursError { source: ColoursParseError },
    ParseHitObjectsError { source: HitObjectsParseError },
}

/// An `.osu` file.
#[derive(Debug, Hash, PartialEq, Eq)]
pub struct OsuFile {
    /// Version of the file format.
    pub version: Version,
    pub general: Option<General>,
    pub editor: Option<Editor>,
    /// Contents of an `.osb` storyboard file.
    pub osb: Option<Osb>,
    pub metadata: Option<Metadata>,
    pub difficulty: Option<Difficulty>,
    pub events: Option<Events>,
    pub timing_points: Option<TimingPoints>,
    pub colours: Option<Colours>,
    pub hitobjects: Option<HitObjects>,
}

/// The view of an `.osu` file.
pub struct OsuFileView {
    pub version: Version,
    pub general: Option<GeneralView>,
    pub editor: Option<EditorView>,
    pub osb: Option<OsbView>,
    pub metadata: Option<MetadataView>,
    pub difficulty: Option<DifficultyView>,
    pub events: Option<Seq<EventView>>,
    pub timing_points: Option<Seq<TimingPointView>>,
    pub colours: Option<Seq<Colour>>,
    pub hitobjects: Option<Seq<HitObjectView>>,
}

/// The view of an optional value.
pub open spec fn opt_view<T: View>(o: Option<T>) -> Option<T::V> {
    match o {
        Some(x) => Some(x@),
        None => None,
    }
}

impl View for OsuFile {
    type V = OsuFileView;

    open spec fn view(&self) -> OsuFileView {
        OsuFileView {
            version: self.version,
            general: opt_view(self.general),
            editor: opt_view(self.editor),
            osb: opt_view(self.osb),
            metadata: opt_view(self.metadata),
            difficulty: opt_view(self.difficulty),
            events: opt_view(self.events),
            timing_points: opt_view(self.timing_points),
            colours: opt_view(self.colours),
            hitobjects: opt_view(self.hitobjects),
        }
    }
}

/// A file of the version with no sections.
pub open spec fn empty_file(version: Version) -> OsuFileView {
    OsuFileView {
        version,
        general: None,
        editor: None,
        osb: None,
        metadata: None,
        difficulty: None,
        events: None,
        timing_points: None,
        colours: None,
        hitobjects: None,
    }
}

// ---------------------------------------------------------------------------
// The version line

/// Whether a character is blank space that may stand before the version line:
/// a space, a tab, a carriage return or a line feed.
pub open spec fn is_multispace(c: char) -> bool {
    c == ' ' || c == '\t' || c == '\r' || c == '\n'
}

/// Number of leading spaces, tabs and line breaks.
pub open spec fn multispace_len(s: Seq<char>) -> nat
    decreases s.len(),
{
    if s.len() > 0 && is_multispace(s[0]) {
        1 + multispace_len(s.drop_first())
    } else {
        0
    }
}

/// Number of characters before the first line break (or all of them).
pub open spec fn line_end(s: Seq<char>) -> nat
    decreases s.len(),
{
    if s.len() == 0 || s[0] == '\r' || s[0] == '\n' {
        0
    } else {
        1 + line_end(s.drop_first())
    }
}

/// `osu file format v`.
pub open spec fn format_prefix() -> Seq<char> {
    seq!['o', 's', 'u', ' ', 'f', 'i', 'l', 'e', ' ', 'f', 'o', 'r', 'm', 'a', 't', ' ', 'v']
}

/// The file version line: whitespace, an optional byte order mark,
/// `osu file format v` and the version up to the line break. On success, the
/// version, the text after the version, and the number of lines of the
/// leading whitespace.
pub open spec fn version_line_parse(f: Seq<char>) -> Result<(usize, Seq<char>, nat), ParseError> {
    let w = multispace_len(f);
    let a = f.skip(w as int);
    let a2 = if a.len() > 0 && a[0] == '\u{feff}' { a.skip(1) } else { a };
    if !starts_with(a2, format_prefix()) {
        Err(ParseError::FileVersionDefinedWrong)
    } else {
        let b = a2.skip(17);
        let k = line_end(b);
        match parse_int_spec(b.take(k as int), 0, u32::MAX as int) {
            Err(_) => Err(ParseError::InvalidFileVersion),
            Ok(v) => if v < MIN_VERSION || v > LATEST_VERSION {
                Err(ParseError::InvalidFileVersion)
            } else {
                Ok((v as usize, b.skip(k as int), lines(f.take(w as int)).len()))
            },
        }
    }
}

// ---------------------------------------------------------------------------
// Lines before the first section

/// Whether a line ends the part before the sections: trimmed, it starts with
/// `[` or ends with `]`.
pub open spec fn ends_preamble(l: Seq<char>) -> bool {
    let t = trim(l);
    t.len() > 0 && (t[0] == '[' || t[t.len() - 1] == ']')
}

/// Number of lines before the first that ends the part before the sections.
pub open spec fn preamble_len(ls: Seq<Seq<char>>) -> nat
    decreases ls.len(),
{
    if ls.len() == 0 || ends_preamble(ls[0]) {
        0
    } else {
        1 + preamble_len(ls.drop_first())
    }
}

/// Whether a line before the sections is not allowed there: it is neither
/// blank nor a `//` comment.
pub open spec fn unexpected_line(l: Seq<char>) -> bool {
    let t = trim(l);
    t.len() > 0 && !starts_with(t, seq!['/', '/'])
}

/// Index of the first line that is not allowed before the sections.
pub open spec fn first_unexpected(ls: Seq<Seq<char>>) -> Option<nat>
    decreases ls.len(),
{
    if ls.len() == 0 {
        None
    } else if unexpected_line(ls[0]) {
        Some(0)
    } else {
        match first_unexpected(ls.drop_first()) {
            Some(k) => Some(k + 1),
            None => None,
        }
    }
}

// ---------------------------------------------------------------------------
// Sections

/// What an `.osu` file read so far holds: the names of the sections read,
/// and the file.
pub struct OsuAcc {
    pub seen: Seq<Seq<char>>,
    pub file: OsuFileView,
}

/// The outcome of reading sections; `Err(None)` where reading panics.
pub type OsuStep = Result<OsuAcc, Option<Error<ParseError>>>;

/// An error of a section, moved to the line of the file where the section's
/// text starts.
pub open spec fn moved<E>(e: Error<E>, base: usize, wrap: spec_fn(E) -> ParseError) -> OsuStep {
    Err(Some(Error { line_index: e.line_index.saturating_add(base), error: wrap(e.error) }))
}

/// `General`.
pub open spec fn general_word() -> Seq<char> {
    seq!['G', 'e', 'n', 'e', 'r', 'a', 'l']
}

/// `Editor`.
pub open spec fn editor_word() -> Seq<char> {
    seq!['E', 'd', 'i', 't', 'o', 'r']
}

/// `Metadata`.
pub open spec fn metadata_word() -> Seq<char> {
    seq!['M', 'e', 't', 'a', 'd', 'a', 't', 'a']
}

/// `Difficulty`.
pub open spec fn difficulty_word() -> Seq<char> {
    seq!['D', 'i', 'f', 'f', 'i', 'c', 'u', 'l', 't', 'y']
}

/// `Events`.
pub open spec fn events_name() -> Seq<char> {
    seq!['E', 'v', 'e', 'n', 't', 's']
}

/// `TimingPoints`.
pub open spec fn timing_points_word() -> Seq<char> {
    seq!['T', 'i', 'm', 'i', 'n', 'g', 'P', 'o', 'i', 'n', 't', 's']
}

/// `Colours`.
pub open spec fn colours_word() -> Seq<char> {
    seq!['C', 'o', 'l', 'o', 'u', 'r', 's']
}

/// `HitObjects`.
pub open spec fn hitobjects_word() -> Seq<char> {
    seq!['H', 'i', 't', 'O', 'b', 'j', 'e', 'c', 't', 's']
}

/// Reads one section of an `.osu` file whose leading whitespace has
/// `ws_lines` lines.
#[verifier::opaque]
pub open spec fn osu_section_step(acc: OsuAcc, sec: SectionText, ws_lines: nat, version: Version) -> OsuStep {
    let header_line = (ws_lines as usize).saturating_add(sec.header as usize);
    let base = header_line.saturating_add(1);
    let body = section_body(sec);
    let seen = acc.seen.push(sec.name);
    let f = acc.file;
    if acc.seen.contains(sec.name) {
        Err(Some(Error { line_index: header_line, error: ParseError::DuplicateSections }))
    } else if sec.name == general_word() {
        match General::parse_text(body, version) {
            Ok(v) => Ok(OsuAcc { seen, file: OsuFileView { general: v, ..f } }),
            Err(e) => moved(e, base, |x: GeneralParseError| ParseError::ParseGeneralError { source: x }),
        }
    } else if sec.name == editor_word() {
        match Editor::parse_text(body, version) {
            Ok(v) => Ok(OsuAcc { seen, file: OsuFileView { editor: v, ..f } }),
            Err(e) => moved(e, base, |x: EditorParseError| ParseError::ParseEditorError { source: x }),
        }
    } else if sec.name == metadata_word() {
        match Metadata::parse_text(body, version) {
            Ok(v) => Ok(OsuAcc { seen, file: OsuFileView { metadata: v, ..f } }),
            Err(e) => moved(e, base, |x: MetadataParseError| ParseError::ParseMetadataError { source: x }),
        }
    } else if sec.name == difficulty_word() {
        match Difficulty::parse_text(body, version) {
            Ok(v) => Ok(OsuAcc { seen, file: OsuFileView { difficulty: v, ..f } }),
            Err(e) => moved(e, base, |x: DifficultyParseError| ParseError::ParseDifficultyError { source: x }),
        }
    } else if sec.name == events_name() {
        if events_stuck(body, version, Seq::empty()) {
            Err(None)
        } else {
            match events_parse(body, version, Seq::empty()) {
                Ok(v) => Ok(OsuAcc { seen, file: OsuFileView { events: Some(v), ..f } }),
                Err(e) => moved(e, base, |x: EventsParseError| ParseError::ParseEventsError { source: x }),
            }
        }
    } else if sec.name == timing_points_word() {
        match TimingPoints::parse_text(body, version) {
            Ok(v) => Ok(OsuAcc { seen, file: OsuFileView { timing_points: v, ..f } }),
            Err(e) => moved(e, base, |x: TimingPointsParseError| ParseError::ParseTimingPointsError { source: x }),
        }
    } else if sec.name == colours_word() {
        match Colours::parse_text(body, version) {
            Ok(v) => Ok(OsuAcc { seen, file: OsuFileView { colours: v, ..f } }),
            Err(e) => moved(e, base, |x: ColoursParseError| ParseError::ParseColoursError { source: x }),
        }
    } else if sec.name == hitobjects_word() {
        match HitObjects::parse_text(body, version) {
            Ok(v) => Ok(OsuAcc { seen, file: OsuFileView { hitobjects: v, ..f } }),
            Err(e) => moved(e, base, |x: HitObjectsParseError| ParseError::ParseHitObjectsError { source: x }),
        }
    } else {
        Err(Some(Error { line_index: header_line, error: ParseError::UnknownSection }))
    }
}

/// Reads the sections of an `.osu` file in order.
pub open spec fn osu_fold(secs: Seq<SectionText>, ws_lines: nat, version: Version) -> OsuStep
    decreases secs.len(),
{
    if secs.len() == 0 {
        Ok(OsuAcc { seen: Seq::empty(), file: empty_file(version) })
    } else {
        match osu_fold(secs.drop_last(), ws_lines, version) {
            Err(e) => Err(e),
            Ok(acc) => osu_section_step(acc, secs.last(), ws_lines, version),
        }
    }
}

/// The outcome of reading an `.osu` file.
pub open spec fn osu_outcome(f: Seq<char>) -> Result<OsuFileView, Option<Error<ParseError>>> {
    match version_line_parse(f) {
        Err(e) => Err(Some(Error { line_index: 0, error: e })),
        Ok((version, rest, ws_lines)) => {
            let ls = lines(rest);
            let pre = preamble_len(ls);
            match first_unexpected(ls.take(pre as int)) {
                Some(i) => Err(Some(Error { line_index: i as usize, error: ParseError::UnexpectedLine })),
                None => match osu_fold(sections_of(ls, pre), ws_lines, version) {
                    Ok(acc) => Ok(acc.file),
                    Err(e) => Err(e),
                },
            }
        },
    }
}

/// Whether reading an `.osu` file panics.
pub open spec fn osu_file_stuck(f: Seq<char>) -> bool {
    osu_outcome(f) == Err::<OsuFileView, Option<Error<ParseError>>>(None)
}

/// What reading an `.osu` file gives, where reading returns.
pub open spec fn osu_file_parse(f: Seq<char>) -> Result<OsuFileView, Error<ParseError>> {
    match osu_outcome(f) {
        Ok(v) => Ok(v),
        Err(Some(e)) => Err(e),
        Err(None) => Ok(empty_file(0)),
    }
}

// ---------------------------------------------------------------------------
// Reading, executable

proof fn lemma_skip_step(s: Seq<char>, i: int)
    requires
        0 <= i < s.len(),
    ensures
        s.skip(i).drop_first() == s.skip(i + 1),
        s.skip(i)[0] == s[i],
{
    assert(s.skip(i).drop_first() =~= s.skip(i + 1));
}

fn multispace_len_exec(s: &[char]) -> (r: usize)
    ensures
        r == multispace_len(s@),
        r <= s.len(),
{
    let mut i: usize = 0;
    assert(s@.skip(0) =~= s@);
    while i < s.len() && (s[i] == ' ' || s[i] == '\t' || s[i] == '\r' || s[i] == '\n')
        invariant
            i <= s.len(),
            multispace_len(s@) == i + multispace_len(s@.skip(i as int)),
        decreases s.len() - i,
    {
        proof {
            lemma_skip_step(s@, i as int);
        }
        i = i + 1;
    }
    proof {
        if i < s.len() {
            lemma_skip_step(s@, i as int);
        }
    }
    i
}

fn line_end_exec(s: &[char], from: usize) -> (r: usize)
    requires
        from <= s.len(),
    ensures
        from + line_end(s@.skip(from as int)) == r,
        r <= s.len(),
{
    let mut i: usize = from;
    while i < s.len() && s[i] != '\r' && s[i] != '\n'
        invariant
            from <= i <= s.len(),
            line_end(s@.skip(from as int)) == (i - from) + line_end(s@.skip(i as int)),
        decreases s.len() - i,
    {
        proof {
            lemma_skip_step(s@, i as int);
        }
        i = i + 1;
    }
    proof {
        if i < s.len() {
            lemma_skip_step(s@, i as int);
        }
    }
    i
}

fn version_line_exec(f: &[char]) -> (r: Result<(usize, Vec<char>, usize), ParseError>)
    ensures
        match (r, version_line_parse(f@)) {
            (Ok((v, rest, n)), Ok((v2, rest2, n2))) => v == v2 && rest@ == rest2 && n == n2,
            (Err(a), Err(b)) => a == b,
            _ => false,
        },
{
    proof {
        reveal_strlit("osu file format v");
        assert("osu file format v"@ =~= format_prefix());
    }
    let w = multispace_len_exec(f);
    let mut a: usize = w;
    if a < f.len() && f[a] == '\u{feff}' {
        a = a + 1;
    }
    let a2 = slice_to_vec(f, a, f.len());
    assert(a2@ =~= (if f@.skip(w as int).len() > 0 && f@.skip(w as int)[0] == '\u{feff}' {
        f@.skip(w as int).skip(1)
    } else {
        f@.skip(w as int)
    }));
    if !starts_with_str(a2.as_slice(), "osu file format v") {
        return Err(ParseError::FileVersionDefinedWrong);
    }
    let ghost b = a2@.skip(17);
    let k = line_end_exec(a2.as_slice(), 17);
    let t = slice_to_vec(a2.as_slice(), 17, k);
    assert(t@ =~= b.take(line_end(b) as int));
    let v = match parse_usize(t.as_slice()) {
        Ok(v) => v,
        Err(_) => return Err(ParseError::InvalidFileVersion),
    };
    if v < MIN_VERSION || v > LATEST_VERSION {
        return Err(ParseError::InvalidFileVersion);
    }
    let rest = slice_to_vec(a2.as_slice(), k, a2.len());
    assert(rest@ =~= b.skip(line_end(b) as int));
    let head = slice_to_vec(f, 0, w);
    assert(head@ =~= f@.take(w as int));
    let n = lines_of(head.as_slice()).len();
    Ok((v, rest, n))
}

fn ends_preamble_exec(l: &[char]) -> (r: bool)
    ensures
        r == ends_preamble(l@),
{
    let t = trim_chars(l);
    t.len() > 0 && (t[0] == '[' || t[t.len() - 1] == ']')
}

fn preamble_len_exec(ls: &Vec<Vec<char>>) -> (r: usize)
    ensures
        r == preamble_len(vv(ls@)),
        r <= ls.len(),
{
    let mut i: usize = 0;
    assert(vv(ls@).skip(0) =~= vv(ls@));
    while i < ls.len() && !ends_preamble_exec(ls[i].as_slice())
        invariant
            i <= ls.len(),
            preamble_len(vv(ls@)) == i + preamble_len(vv(ls@).skip(i as int)),
        decreases ls.len() - i,
    {
        assert(vv(ls@).skip(i as int).drop_first() =~= vv(ls@).skip(i + 1));
        assert(vv(ls@).skip(i as int)[0] == ls@[i as int]@);
        i = i + 1;
    }
    proof {
        if i < ls.len() {
            assert(vv(ls@).skip(i as int)[0] == ls@[i as int]@);
        }
    }
    i
}

fn unexpected_line_exec(l: &[char]) -> (r: bool)
    ensures
        r == unexpected_line(l@),
{
    proof {
        reveal_strlit("//");
        assert("//"@ =~= seq!['/', '/']);
    }
    let t = trim_chars(l);
    t.len() > 0 && !starts_with_str(t.as_slice(), "//")
}

fn first_unexpected_exec(ls: &Vec<Vec<char>>, pre: usize) -> (r: Option<usize>)
    requires
        pre <= ls.len(),
    ensures
        match first_unexpected(vv(ls@).take(pre as int)) {
            Some(i) => r == Some(i as usize),
            None => r is None,
        },
{
    let ghost q = vv(ls@).take(pre as int);
    let mut i: usize = 0;
    assert(q.skip(0) =~= q);
    while i < pre
        invariant
            i <= pre <= ls.len(),
            q == vv(ls@).take(pre as int),
            first_unexpected(q) == match first_unexpected(q.skip(i as int)) {
                Some(k) => Some((k + i) as nat),
                None => None::<nat>,
            },
        decreases pre - i,
    {
        assert(q.skip(i as int)[0] == ls@[i as int]@);
        if unexpected_line_exec(ls[i].as_slice()) {
            return Some(i);
        }
        assert(q.skip(i as int).drop_first() =~= q.skip(i + 1));
        i = i + 1;
    }
    assert(q.skip(i as int).len() == 0);
    None
}

proof fn lemma_section_words()
    ensures
        "General"@ == general_word(),
        "Editor"@ == editor_word(),
        "Metadata"@ == metadata_word(),
        "Difficulty"@ == difficulty_word(),
        "Events"@ == events_name(),
        "TimingPoints"@ == timing_points_word(),
        "Colours"@ == colours_word(),
        "HitObjects"@ == hitobjects_word(),
{
    reveal_strlit("General");
    reveal_strlit("Editor");
    reveal_strlit("Metadata");
    reveal_strlit("Difficulty");
    reveal_strlit("Events");
    reveal_strlit("TimingPoints");
    reveal_strlit("Colours");
    reveal_strlit("HitObjects");
    assert("General"@ =~= general_word());
    assert("Editor"@ =~= editor_word());
    assert("Metadata"@ =~= metadata_word());
    assert("Difficulty"@ =~= difficulty_word());
    assert("Events"@ =~= events_name());
    assert("TimingPoints"@ =~= timing_points_word());
    assert("Colours"@ =~= colours_word());
    assert("HitObjects"@ =~= hitobjects_word());
}

fn seen_contains(seen: &Vec<Vec<char>>, name: &Vec<char>) -> (r: bool)
    ensures
        r == vv(seen@).contains(name@),
{
    let mut i: usize = 0;
    while i < seen.len()
        invariant
            i <= seen.len(),
            forall|j: int| 0 <= j < i ==> vv(seen@)[j] != name@,
        decreases seen.len() - i,
    {
        if crate::text::chars_eq(seen[i].as_slice(), name.as_slice()) {
            assert(vv(seen@)[i as int] == name@);
            return true;
        }
        i = i + 1;
    }
    false
}

fn moved_error<E>(e: Error<E>, base: usize) -> (r: (usize, E))
    ensures
        r.0 == e.line_index.saturating_add(base),
        r.1 == e.error,
{
    (e.line_index.saturating_add(base), e.error)
}

#[verifier::rlimit(60)]
fn osu_section_step_exec(
    seen: &mut Vec<Vec<char>>,
    file: &mut OsuFile,
    sec: &SectionChunk,
    ws_lines: usize,
) -> (r: Result<(), Option<Error<ParseError>>>)
    ensures
        final(file).version == old(file).version,
        match osu_section_step(OsuAcc { seen: vv(old(seen)@), file: old(file)@ }, chunk_view(*sec), ws_lines as nat, old(file).version) {
            Ok(a) => r is Ok && vv(final(seen)@) == a.seen && final(file)@ == a.file,
            Err(x) => r == Err::<(), Option<Error<ParseError>>>(x),
        },
{
    proof {
        lemma_section_words();
        reveal(osu_section_step);
    }
    let version = file.version;
    let header_line = ws_lines.saturating_add(sec.header);
    let base = header_line.saturating_add(1);
    if seen_contains(seen, &sec.name) {
        return Err(Some(Error::new(ParseError::DuplicateSections, header_line)));
    }
    let body = section_body_exec(sec);
    let name = sec.name.as_slice();
    if eq_str(name, "General") {
        match General::from_chars(body.as_slice(), version) {
            Ok(v) => {
                file.general = v;
            },
            Err(e) => {
                let (i, x) = moved_error(e, base);
                return Err(Some(Error::new(ParseError::ParseGeneralError { source: x }, i)));
            },
        }
    } else if eq_str(name, "Editor") {
        match Editor::from_chars(body.as_slice(), version) {
            Ok(v) => {
                file.editor = v;
            },
            Err(e) => {
                let (i, x) = moved_error(e, base);
                return Err(Some(Error::new(ParseError::ParseEditorError { source: x }, i)));
            },
        }
    } else if eq_str(name, "Metadata") {
        match Metadata::from_chars(body.as_slice(), version) {
            Ok(v) => {
                file.metadata = v;
            },
            Err(e) => {
                let (i, x) = moved_error(e, base);
                return Err(Some(Error::new(ParseError::ParseMetadataError { source: x }, i)));
            },
        }
    } else if eq_str(name, "Difficulty") {
        match Difficulty::from_chars(body.as_slice(), version) {
            Ok(v) => {
                file.difficulty = v;
            },
            Err(e) => {
                let (i, x) = moved_error(e, base);
                return Err(Some(Error::new(ParseError::ParseDifficultyError { source: x }, i)));
            },
        }
    } else if eq_str(name, "Events") {
        let no_vars: Vec<crate::osb::Variable> = Vec::new();
        assert(crate::osb::variables_view(no_vars@) =~= Seq::<crate::osb::VariableView>::empty());
        match Events::try_from_str_variables_chars(body.as_slice(), version, no_vars.as_slice()) {
            None => {
                return Err(None);
            },
            Some(Ok(v)) => {
                file.events = v;
            },
            Some(Err(e)) => {
                let (i, x) = moved_error(e, base);
                return Err(Some(Error::new(ParseError::ParseEventsError { source: x }, i)));
            },
        }
    } else if eq_str(name, "TimingPoints") {
        match TimingPoints::from_chars(body.as_slice(), version) {
            Ok(v) => {
                file.timing_points = v;
            },
            Err(e) => {
                let (i, x) = moved_error(e, base);
                return Err(Some(Error::new(ParseError::ParseTimingPointsError { source: x }, i)));
            },
        }
    } else if eq_str(name, "Colours") {
        match Colours::from_chars(body.as_slice(), version) {
            Ok(v) => {
                file.colours = v;
            },
            Err(e) => {
                let (i, x) = moved_error(e, base);
                return Err(Some(Error::new(ParseError::ParseColoursError { source: x }, i)));
            },
        }
    } else if eq_str(name, "HitObjects") {
        match HitObjects::from_chars(body.as_slice(), version) {
            Ok(v) => {
                file.hitobjects = v;
            },
            Err(e) => {
                let (i, x) = moved_error(e, base);
                return Err(Some(Error::new(ParseError::ParseHitObjectsError { source: x }, i)));
            },
        }
    } else {
        return Err(Some(Error::new(ParseError::UnknownSection, header_line)));
    }
    let name_copy = slice_to_vec(sec.name.as_slice(), 0, sec.name.len());
    assert(name_copy@ =~= sec.name@);
    crate::text::push_part(seen, name_copy);
    Ok(())
}

proof fn lemma_osu_fold_err(secs: Seq<SectionText>, k: int, ws: nat, version: Version)
    requires
        0 <= k <= secs.len(),
        osu_fold(secs.take(k), ws, version) is Err,
    ensures
        osu_fold(secs, ws, version) == osu_fold(secs.take(k), ws, version),
    decreases secs.len() - k,
{
    if k < secs.len() {
        assert(secs.take(k + 1).drop_last() =~= secs.take(k));
        lemma_osu_fold_err(secs, k + 1, ws, version);
    } else {
        assert(secs.take(k) =~= secs);
    }
}

impl OsuFile {
    /// A file of the version with no data.
    pub fn new(version: Version) -> (r: OsuFile)
        ensures
            r@ == empty_file(version),
    {
        OsuFile {
            version,
            general: None,
            editor: None,
            metadata: None,
            difficulty: None,
            events: None,
            timing_points: None,
            colours: None,
            hitobjects: None,
            osb: None,
        }
    }

    /// A file of the version with no data.
    pub fn default(version: Version) -> (r: OsuFile)
        ensures
            r@ == empty_file(version),
    {
        OsuFile::new(version)
    }

    /// Reads an `.osu` file; the `requires` leaves out the inputs on which
    /// reading panics.
    pub fn from_str(s: &str) -> (r: Result<OsuFile, Error<ParseError>>)
        requires
            !osu_file_stuck(s@),
        ensures
            match osu_file_parse(s@) {
                Ok(v) => r matches Ok(f) && f@ == v,
                Err(e) => r == Err::<OsuFile, Error<ParseError>>(e),
            },
    {
        match OsuFile::try_from_str(s) {
            Some(x) => x,
            None => Ok(OsuFile::new(0)),
        }
    }

    /// Reads an `.osu` file; `None` exactly on the inputs on which reading
    /// panics (see `osu_file_stuck`).
    pub fn try_from_str(s: &str) -> (r: Option<Result<OsuFile, Error<ParseError>>>)
        ensures
            r is None <==> osu_file_stuck(s@),
            r matches Some(x) ==> match osu_file_parse(s@) {
                Ok(v) => x matches Ok(f) && f@ == v,
                Err(e) => x == Err::<OsuFile, Error<ParseError>>(e),
            },
    {
        let c = chars_of(s);
        let (version, rest, ws_lines) = match version_line_exec(c.as_slice()) {
            Ok(t) => t,
            Err(e) => return Some(Err(Error::new(e, 0))),
        };
        let ls = lines_of(rest.as_slice());
        let pre = preamble_len_exec(&ls);
        match first_unexpected_exec(&ls, pre) {
            Some(i) => return Some(Err(Error::new(ParseError::UnexpectedLine, i))),
            None => {},
        }
        let secs = split_sections(&ls, pre);
        let ghost sv = chunks_view(secs@);
        assert(osu_outcome(s@) == match osu_fold(sv, ws_lines as nat, version) {
            Ok(acc) => Ok(acc.file),
            Err(e) => Err::<OsuFileView, Option<Error<ParseError>>>(e),
        });
        let mut seen: Vec<Vec<char>> = Vec::new();
        let mut file = OsuFile::new(version);
        let mut k: usize = 0;
        assert(sv.take(0) =~= Seq::<SectionText>::empty());
        assert(vv(seen@) =~= Seq::<Seq<char>>::empty());
        while k < secs.len()
            invariant
                k <= secs.len(),
                sv == chunks_view(secs@),
                sv.len() == secs@.len(),
                file.version == version,
                osu_outcome(s@) == match osu_fold(sv, ws_lines as nat, version) {
                    Ok(acc) => Ok(acc.file),
                    Err(e) => Err::<OsuFileView, Option<Error<ParseError>>>(e),
                },
                osu_fold(sv.take(k as int), ws_lines as nat, version) == Ok::<OsuAcc, Option<Error<ParseError>>>(
                    OsuAcc { seen: vv(seen@), file: file@ },
                ),
            decreases secs.len() - k,
        {
            assert(sv.take(k + 1).drop_last() =~= sv.take(k as int));
            assert(sv.take(k + 1).last() == chunk_view(secs@[k as int]));
            proof {
                if osu_fold(sv.take(k + 1), ws_lines as nat, version) is Err {
                    lemma_osu_fold_err(sv, k + 1, ws_lines as nat, version);
                }
            }
            match osu_section_step_exec(&mut seen, &mut file, &secs[k], ws_lines) {
                Err(Some(e)) => return Some(Err(e)),
                Err(None) => return None,
                Ok(()) => {},
            }
            k = k + 1;
        }
        assert(sv.take(sv.len() as int) =~= sv);
        Some(Ok(file))
    }

    /// Reads a storyboard file into the file, in the file's version. The
    /// `requires` leaves out the inputs on which reading panics.
    pub fn append_osb(&mut self, s: &str) -> (r: Result<(), Error<OsbParseError>>)
        requires
            !osb_stuck(s@, old(self).version),
        ensures
            match osb_parse(s@, old(self).version) {
                Ok(o) => r is Ok && final(self)@ == (OsuFileView { osb: o, ..old(self)@ }),
                Err(e) => r == Err::<(), Error<OsbParseError>>(e) && final(self)@ == old(self)@,
            },
    {
        match Osb::from_str(s, self.version) {
            Ok(o) => {
                self.osb = o;
                Ok(())
            },
            Err(e) => Err(e),
        }
    }

    /// Reads a storyboard file into the file, in the file's version; `None`,
    /// and the file unchanged, exactly on the inputs on which reading does not
    /// return (see `osb_stuck`).
    pub fn try_append_osb(&mut self, s: &str) -> (r: Option<Result<(), Error<OsbParseError>>>)
        ensures
            r is None <==> osb_stuck(s@, old(self).version),
            r is None ==> final(self)@ == old(self)@,
            r matches Some(x) ==> match osb_parse(s@, old(self).version) {
                Ok(o) => x is Ok && final(self)@ == (OsuFileView { osb: o, ..old(self)@ }),
                Err(e) => x == Err::<(), Error<OsbParseError>>(e) && final(self)@ == old(self)@,
            },
    {
        match Osb::try_from_str(s, self.version) {
            None => None,
            Some(Ok(o)) => {
                self.osb = o;
                Some(Ok(()))
            },
            Some(Err(e)) => Some(Err(e)),
        }
    }

    /// The text of the storyboard file, if the file has one and its version
    /// writes one.
    pub fn osb_to_string(&self) -> (r: Option<String>)
        ensures
            crate::types::opt_text(r) == match self@.osb {
                Some(o) => osb_text(o, self.version),
                None => None,
            },
    {
        match &self.osb {
            Some(o) => o.to_string(self.version),
            None => None,
        }
    }
}

// ---------------------------------------------------------------------------
// Writing

/// A section block: `[name]`, a newline and the text; nothing where the
/// section has no text.
pub open spec fn block(name: Seq<char>, t: Option<Seq<char>>) -> Seq<Seq<char>> {
    match t {
        Some(c) => seq![seq!['['] + name + seq![']', '\n'] + c],
        None => Seq::empty(),
    }
}

/// The section blocks of a file, in the order they are written.
pub open spec fn file_blocks(f: OsuFileView) -> Seq<Seq<char>> {
    let v = f.version;
    block(general_word(), match f.general { Some(x) => General::text_of(x, v), None => None })
        + block(editor_word(), match f.editor { Some(x) => Editor::text_of(x, v), None => None })
        + block(metadata_word(), match f.metadata { Some(x) => Metadata::text_of(x, v), None => None })
        + block(difficulty_word(), match f.difficulty { Some(x) => Difficulty::text_of(x, v), None => None })
        + block(events_name(), match f.events { Some(x) => Events::text_of(x, v), None => None })
        + block(timing_points_word(), match f.timing_points { Some(x) => TimingPoints::text_of(x, v), None => None })
        + block(colours_word(), match f.colours { Some(x) => Colours::text_of(x, v), None => None })
        + block(hitobjects_word(), match f.hitobjects { Some(x) => HitObjects::text_of(x, v), None => None })
}

/// The text of a file: the version line, an empty line, and the section
/// blocks separated by empty lines.
pub open spec fn osu_file_text(f: OsuFileView) -> Seq<char> {
    format_prefix() + int_text(f.version as int) + seq!['\n', '\n'] + join(file_blocks(f), seq!['\n', '\n'])
}

fn push_block(parts: &mut Vec<Vec<char>>, name: &str, t: Option<Vec<char>>)
    ensures
        vv(final(parts)@) == vv(old(parts)@) + block(name@, match t { Some(c) => Some(c@), None => None }),
{
    match t {
        Some(c) => {
            let mut b: Vec<char> = Vec::new();
            b.push('[');
            push_str(&mut b, name);
            b.push(']');
            b.push('\n');
            push_chars(&mut b, c.as_slice());
            assert(b@ =~= seq!['['] + name@ + seq![']', '\n'] + c@);
            let ghost before = vv(parts@);
            crate::text::push_part(parts, b);
            assert(vv(parts@) =~= before + block(name@, Some(c@)));
        },
        None => {
            assert(vv(parts@) =~= vv(parts@) + Seq::<Seq<char>>::empty());
        },
    }
}

fn opt_chars<T: VersionedToString>(o: &Option<T>, version: Version) -> (r: Option<Vec<char>>)
    ensures
        match r {
            Some(c) => (match *o { Some(x) => T::text_of(x@, version), None => None }) == Some(c@),
            None => (match *o { Some(x) => T::text_of(x@, version), None => None }) is None,
        },
{
    match o {
        Some(x) => x.to_chars(version),
        None => None,
    }
}

impl OsuFile {
    /// The text of the file as characters.
    pub fn file_chars(&self) -> (r: Vec<char>)
        ensures
            r@ == osu_file_text(self@),
    {
        proof {
            lemma_section_words();
            reveal_strlit("osu file format v");
            assert("osu file format v"@ =~= format_prefix());
            reveal_strlit("\n\n");
            assert("\n\n"@ =~= seq!['\n', '\n']);
        }
        let v = self.version;
        let mut parts: Vec<Vec<char>> = Vec::new();
        push_block(&mut parts, "General", opt_chars(&self.general, v));
        push_block(&mut parts, "Editor", opt_chars(&self.editor, v));
        push_block(&mut parts, "Metadata", opt_chars(&self.metadata, v));
        push_block(&mut parts, "Difficulty", opt_chars(&self.difficulty, v));
        push_block(&mut parts, "Events", opt_chars(&self.events, v));
        push_block(&mut parts, "TimingPoints", opt_chars(&self.timing_points, v));
        push_block(&mut parts, "Colours", opt_chars(&self.colours, v));
        push_block(&mut parts, "HitObjects", opt_chars(&self.hitobjects, v));
        assert(vv(parts@) =~= file_blocks(self@));
        let mut out: Vec<char> = Vec::new();
        push_str(&mut out, "osu file format v");
        crate::text::push_nat(&mut out, v as u64);
        push_str(&mut out, "\n\n");
        let body = crate::text::join_chars(&parts, "\n\n");
        push_chars(&mut out, body.as_slice());
        assert(out@ =~= osu_file_text(self@));
        out
    }

    /// The text of the file.
    pub fn to_string(&self) -> (r: String)
        ensures
            r@ == osu_file_text(self@),
    {
        string_from_chars(&self.file_chars())
    }
}

} // verus!
