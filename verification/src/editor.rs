//! The `[Editor]` section: saved settings of the beatmap editor, as `key: value` lines.
use vstd::prelude::*;

use crate::decimal::Decimal;
use crate::section::{Bookmarks, BookmarksParseError};
use crate::text::ParseIntError;
use crate::types::Integer;

use crate::section::{
    colon_line, colon_line_exec, line_of, ov, ov_text, push_field_line, vec_contains,
};
use crate::text::{eq_str, join, join_chars, lines, lines_of, is_blank, trim, vv};
use crate::types::{Error, Version, VersionedFromStr, VersionedToString};

verus! {
/// Error reading the `[Editor]` section.
#[derive(Clone, Copy, Debug, PartialEq, Eq, Hash)]
pub enum ParseError {
    /// A field failed to read as an integer.
    ParseIntError(ParseIntError),
    /// A field failed to read as a decimal number.
    ParseDecimalError,
    /// A line is not in the `key: value` format.
    InvalidColonSet,
    /// The key is not a field of the section.
    InvalidKey,
    /// A comma-separated list has an empty item.
    InvalidCommaList,
    /// The field was already given.
    DuplicateField,
}

/// Number of spaces after the colon of each field, as read.
#[derive(Clone, Copy, Debug, Default, PartialEq, Eq, Hash)]
pub struct SectionSpacing {
    pub bookmarks: Option<usize>,
    pub distance_spacing: Option<usize>,
    pub beat_divisor: Option<usize>,
    pub grid_size: Option<usize>,
    pub timeline_zoom: Option<usize>,
}

/// Saved settings of the beatmap editor.
#[derive(Clone, Debug, PartialEq, Eq, Hash)]
pub struct Editor {
    /// Spaces after the colon of each field, as read; written back the same way.
    pub spacing: SectionSpacing,
    /// The `Bookmarks` field.
    pub bookmarks: Option<Bookmarks>,
    /// The `DistanceSpacing` field.
    pub distance_spacing: Option<Decimal>,
    /// The `BeatDivisor` field.
    pub beat_divisor: Option<Decimal>,
    /// The `GridSize` field.
    pub grid_size: Option<Integer>,
    /// The `TimelineZoom` field.
    pub timeline_zoom: Option<Decimal>,
}

/// The view of the section.
pub struct EditorView {
    pub spacing: SectionSpacing,
    pub bookmarks: Option<Seq<i32>>,
    pub distance_spacing: Option<Decimal>,
    pub beat_divisor: Option<Decimal>,
    pub grid_size: Option<i32>,
    pub timeline_zoom: Option<Decimal>,
}

impl View for Editor {
    type V = EditorView;

    open spec fn view(&self) -> EditorView {
        EditorView {
            spacing: self.spacing,
            bookmarks: ov(self.bookmarks),
            distance_spacing: ov(self.distance_spacing),
            beat_divisor: ov(self.beat_divisor),
            grid_size: ov(self.grid_size),
            timeline_zoom: ov(self.timeline_zoom),
        }
    }
}

/// The section with no fields.
pub open spec fn empty_view() -> EditorView {
    EditorView {
        spacing: SectionSpacing {
            bookmarks: None,
            distance_spacing: None,
            beat_divisor: None,
            grid_size: None,
            timeline_zoom: None,
        },
        bookmarks: None,
        distance_spacing: None,
        beat_divisor: None,
        grid_size: None,
        timeline_zoom: None,
    }
}

/// Index of the field with the given key.
pub open spec fn key_index(name: Seq<char>) -> Option<nat> {
    if name == "Bookmarks"@ {
        Some(0)
    } else if name == "DistanceSpacing"@ {
        Some(1)
    } else if name == "BeatDivisor"@ {
        Some(2)
    } else if name == "GridSize"@ {
        Some(3)
    } else if name == "TimelineZoom"@ {
        Some(4)
    } else {
        None
    }
}

fn key_index_exec(name: &[char]) -> (r: Option<usize>)
    ensures
        match (r, key_index(name@)) {
            (Some(a), Some(b)) => a == b,
            (None, None) => true,
            _ => false,
        },
{
    if eq_str(name, "Bookmarks") {
        Some(0)
    } else if eq_str(name, "DistanceSpacing") {
        Some(1)
    } else if eq_str(name, "BeatDivisor") {
        Some(2)
    } else if eq_str(name, "GridSize") {
        Some(3)
    } else if eq_str(name, "TimelineZoom") {
        Some(4)
    } else {
        None
    }
}

/// Sets field `k` from its value text, recording the spaces after the colon.
pub open spec fn apply_field(acc: EditorView, k: nat, sp: nat, value: Seq<char>, version: Version) -> Result<EditorView, ParseError> {
    if k == 0 {
        match <Bookmarks as VersionedFromStr>::parse_text(value, version) {
            Ok(v) => Ok(EditorView { bookmarks: v, spacing: SectionSpacing { bookmarks: Some(sp as usize), ..acc.spacing }, ..acc }),
            Err(e) => Err(match e { BookmarksParseError::InvalidCommaList => ParseError::InvalidCommaList, BookmarksParseError::ParseIntError(p) => ParseError::ParseIntError(p) }),
        }
    } else if k == 1 {
        match <Decimal as VersionedFromStr>::parse_text(value, version) {
            Ok(v) => Ok(EditorView { distance_spacing: v, spacing: SectionSpacing { distance_spacing: Some(sp as usize), ..acc.spacing }, ..acc }),
            Err(e) => Err(ParseError::ParseDecimalError),
        }
    } else if k == 2 {
        match <Decimal as VersionedFromStr>::parse_text(value, version) {
            Ok(v) => Ok(EditorView { beat_divisor: v, spacing: SectionSpacing { beat_divisor: Some(sp as usize), ..acc.spacing }, ..acc }),
            Err(e) => Err(ParseError::ParseDecimalError),
        }
    } else if k == 3 {
        match <Integer as VersionedFromStr>::parse_text(value, version) {
            Ok(v) => Ok(EditorView { grid_size: v, spacing: SectionSpacing { grid_size: Some(sp as usize), ..acc.spacing }, ..acc }),
            Err(e) => Err(ParseError::ParseIntError(e)),
        }
    } else if k == 4 {
        match <Decimal as VersionedFromStr>::parse_text(value, version) {
            Ok(v) => Ok(EditorView { timeline_zoom: v, spacing: SectionSpacing { timeline_zoom: Some(sp as usize), ..acc.spacing }, ..acc }),
            Err(e) => Err(ParseError::ParseDecimalError),
        }
    } else {
        Ok(acc)
    }
}

fn apply_field_exec(acc: &mut Editor, k: usize, sp: usize, value: &[char], version: Version) -> (r: Result<(), ParseError>)
    ensures
        match (r, apply_field(old(acc)@, k as nat, sp as nat, value@, version)) {
            (Ok(()), Ok(v)) => final(acc)@ == v,
            (Err(a), Err(b)) => a == b,
            _ => false,
        },
{
    if k == 0 {
        match <Bookmarks as VersionedFromStr>::from_chars(value, version) {
            Ok(v) => {
                acc.bookmarks = v;
                acc.spacing.bookmarks = Some(sp);
                Ok(())
            },
            Err(e) => Err(match e { BookmarksParseError::InvalidCommaList => ParseError::InvalidCommaList, BookmarksParseError::ParseIntError(p) => ParseError::ParseIntError(p) }),
        }
    } else if k == 1 {
        match <Decimal as VersionedFromStr>::from_chars(value, version) {
            Ok(v) => {
                acc.distance_spacing = v;
                acc.spacing.distance_spacing = Some(sp);
                Ok(())
            },
            Err(e) => Err(ParseError::ParseDecimalError),
        }
    } else if k == 2 {
        match <Decimal as VersionedFromStr>::from_chars(value, version) {
            Ok(v) => {
                acc.beat_divisor = v;
                acc.spacing.beat_divisor = Some(sp);
                Ok(())
            },
            Err(e) => Err(ParseError::ParseDecimalError),
        }
    } else if k == 3 {
        match <Integer as VersionedFromStr>::from_chars(value, version) {
            Ok(v) => {
                acc.grid_size = v;
                acc.spacing.grid_size = Some(sp);
                Ok(())
            },
            Err(e) => Err(ParseError::ParseIntError(e)),
        }
    } else if k == 4 {
        match <Decimal as VersionedFromStr>::from_chars(value, version) {
            Ok(v) => {
                acc.timeline_zoom = v;
                acc.spacing.timeline_zoom = Some(sp);
                Ok(())
            },
            Err(e) => Err(ParseError::ParseDecimalError),
        }
    } else {
        Ok(())
    }
}

/// Reads the lines in order: blank lines are skipped, every other line must be
/// a `key: value` line with a known key that was not seen before; an error
/// carries the index of its line.
pub open spec fn lines_parse(ls: Seq<Seq<char>>, version: Version) -> Result<(EditorView, Seq<usize>), Error<ParseError>>
    decreases ls.len(),
{
    if ls.len() == 0 {
        Ok((empty_view(), Seq::empty()))
    } else {
        match lines_parse(ls.drop_last(), version) {
            Err(e) => Err(e),
            Ok((acc, seen)) => {
                let idx = (ls.len() - 1) as usize;
                let l = ls.last();
                if trim(l).len() == 0 {
                    Ok((acc, seen))
                } else {
                    match colon_line(l) {
                        None => Err(Error { line_index: idx, error: ParseError::InvalidColonSet }),
                        Some((name, sp, value)) => match key_index(name) {
                            None => Err(Error { line_index: idx, error: ParseError::InvalidKey }),
                            Some(k) => if seen.contains(k as usize) {
                                Err(Error { line_index: idx, error: ParseError::DuplicateField })
                            } else {
                                match apply_field(acc, k, sp, value, version) {
                                    Ok(a) => Ok((a, seen.push(k as usize))),
                                    Err(e) => Err(Error { line_index: idx, error: e }),
                                }
                            },
                        },
                    }
                }
            },
        }
    }
}

proof fn lemma_lines_parse_err(ls: Seq<Seq<char>>, k: int, version: Version)
    requires
        0 <= k <= ls.len(),
        lines_parse(ls.take(k), version) is Err,
    ensures
        lines_parse(ls, version) == lines_parse(ls.take(k), version),
    decreases ls.len() - k,
{
    if k < ls.len() {
        assert(ls.take(k + 1).drop_last() == ls.take(k));
        lemma_lines_parse_err(ls, k + 1, version);
    } else {
        assert(ls.take(k) == ls);
    }
}

/// The lines of the fields that are present and exist in `version`, in the
/// order of the fields.
pub open spec fn field_lines(v: EditorView, version: Version) -> Seq<Seq<char>> {
    ((((line_of("Bookmarks"@, v.spacing.bookmarks, 1, ov_text::<Bookmarks>(v.bookmarks, version)))
        + line_of("DistanceSpacing"@, v.spacing.distance_spacing, 1, ov_text::<Decimal>(v.distance_spacing, version)))
        + line_of("BeatDivisor"@, v.spacing.beat_divisor, 1, ov_text::<Decimal>(v.beat_divisor, version)))
        + line_of("GridSize"@, v.spacing.grid_size, 1, ov_text::<Integer>(v.grid_size, version)))
        + line_of("TimelineZoom"@, v.spacing.timeline_zoom, 1, ov_text::<Decimal>(v.timeline_zoom, version))
}

impl Editor {
    /// The section with no fields.
    pub fn new() -> (r: Editor)
        ensures
            r@ == empty_view(),
    {
        Editor {
            spacing: SectionSpacing {
                bookmarks: None,
                distance_spacing: None,
                beat_divisor: None,
                grid_size: None,
                timeline_zoom: None,
            },
            bookmarks: None,
            distance_spacing: None,
            beat_divisor: None,
            grid_size: None,
            timeline_zoom: None,
        }
    }

    /// Forgets the spaces read after the colons; the default spacing is written instead.
    pub fn reset_spacing(&mut self)
        ensures
            final(self)@ == (EditorView { spacing: SectionSpacing {
                bookmarks: None,
                distance_spacing: None,
                beat_divisor: None,
                grid_size: None,
                timeline_zoom: None,
            }, ..old(self)@ }),
    {
        self.spacing.bookmarks = None;
        self.spacing.distance_spacing = None;
        self.spacing.beat_divisor = None;
        self.spacing.grid_size = None;
        self.spacing.timeline_zoom = None;
    }
}

impl Default for Editor {
    fn default() -> (r: Editor)
        ensures
            r@ == empty_view(),
    {
        Editor::new()
    }
}

impl VersionedFromStr for Editor {
    type Err = Error<ParseError>;

    open spec fn parse_text(s: Seq<char>, version: Version) -> Result<Option<EditorView>, Error<ParseError>> {
        match lines_parse(lines(s), version) {
            Ok((v, _)) => Ok(Some(v)),
            Err(e) => Err(e),
        }
    }

    fn from_chars(s: &[char], version: Version) -> (r: Result<Option<Editor>, Error<ParseError>>) {
        let ls = lines_of(s);
        let mut acc = Editor::new();
        let mut seen: Vec<usize> = Vec::new();
        let mut i: usize = 0;
        assert(vv(ls@).take(0) =~= Seq::<Seq<char>>::empty());
        assert(seen@ =~= Seq::<usize>::empty());
        while i < ls.len()
            invariant
                i <= ls.len(),
                vv(ls@) == lines(s@),
                lines_parse(vv(ls@).take(i as int), version) == Ok::<(EditorView, Seq<usize>), Error<ParseError>>((acc@, seen@)),
            decreases ls.len() - i,
        {
            let ghost pre = vv(ls@).take(i as int);
            assert(vv(ls@).take(i + 1).drop_last() == pre);
            assert(vv(ls@).take(i + 1).last() == ls@[i as int]@);
            let ghost acc0 = acc@;
            if !is_blank(ls[i].as_slice()) {
                let res: Result<usize, ParseError> = match colon_line_exec(ls[i].as_slice()) {
                    None => Err(ParseError::InvalidColonSet),
                    Some((name, sp, value)) => match key_index_exec(name.as_slice()) {
                        None => Err(ParseError::InvalidKey),
                        Some(k) => if vec_contains(&seen, k) {
                            Err(ParseError::DuplicateField)
                        } else {
                            match apply_field_exec(&mut acc, k, sp, value.as_slice(), version) {
                                Ok(()) => Ok(k),
                                Err(e) => Err(e),
                            }
                        },
                    },
                };
                match res {
                    Ok(k) => {
                        seen.push(k);
                    },
                    Err(err) => {
                        let e = Error { line_index: i, error: err };
                        proof {
                            assert(lines_parse(vv(ls@).take(i + 1), version) == Err::<(EditorView, Seq<usize>), Error<ParseError>>(e));
                            lemma_lines_parse_err(vv(ls@), i + 1, version);
                        }
                        return Err(e);
                    },
                }
            }
            i = i + 1;
        }
        assert(vv(ls@).take(ls@.len() as int) == vv(ls@));
        Ok(Some(acc))
    }
}

impl VersionedToString for Editor {
    open spec fn text_of(v: EditorView, version: Version) -> Option<Seq<char>> {
        Some(join(field_lines(v, version), seq!['\n']))
    }

    fn to_chars(&self, version: Version) -> (r: Option<Vec<char>>) {
        let mut lines: Vec<Vec<char>> = Vec::new();
        assert(vv(lines@) =~= Seq::<Seq<char>>::empty());
        push_field_line::<Bookmarks>(&mut lines, "Bookmarks", &self.bookmarks, self.spacing.bookmarks, 1, version);
        assert(vv(lines@) =~= line_of("Bookmarks"@, self.spacing.bookmarks, 1, ov_text::<Bookmarks>(ov(self.bookmarks), version)));
        push_field_line::<Decimal>(&mut lines, "DistanceSpacing", &self.distance_spacing, self.spacing.distance_spacing, 1, version);
        push_field_line::<Decimal>(&mut lines, "BeatDivisor", &self.beat_divisor, self.spacing.beat_divisor, 1, version);
        push_field_line::<Integer>(&mut lines, "GridSize", &self.grid_size, self.spacing.grid_size, 1, version);
        push_field_line::<Decimal>(&mut lines, "TimelineZoom", &self.timeline_zoom, self.spacing.timeline_zoom, 1, version);
        let s = join_chars(&lines, "\n");
        proof {
            reveal_strlit("\n");
            assert("\n"@ =~= seq!['\n']);
        }
        Some(s)
    }
}

} // verus!
