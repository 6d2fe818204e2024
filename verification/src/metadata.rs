//! The `[Metadata]` section: information that identifies the beatmap, as `key:value` lines.
use vstd::prelude::*;

use crate::section::Tags;
use crate::text::ParseIntError;
use crate::types::Integer;

use crate::section::{
    colon_line, colon_line_exec, line_of, ov, ov_text, push_field_line, vec_contains,
};
use crate::text::{eq_str, join, join_chars, lines, lines_of, is_blank, trim, vv};
use crate::types::{Error, Version, VersionedFromStr, VersionedToString};

verus! {
/// Error reading the `[Metadata]` section.
#[derive(Clone, Copy, Debug, PartialEq, Eq, Hash)]
pub enum ParseError {
    /// The field was already given.
    DuplicateField,
    /// A field failed to read as an integer.
    ParseIntError(ParseIntError),
    /// A line is not in the `key: value` format.
    InvalidColonSet,
    /// The key is not a field of the section.
    InvalidKey,
}

/// Number of spaces after the colon of each field, as read.
#[derive(Clone, Copy, Debug, Default, PartialEq, Eq, Hash)]
pub struct SectionSpacing {
    pub title: Option<usize>,
    pub title_unicode: Option<usize>,
    pub artist: Option<usize>,
    pub artist_unicode: Option<usize>,
    pub creator: Option<usize>,
    pub version: Option<usize>,
    pub source: Option<usize>,
    pub tags: Option<usize>,
    pub beatmap_id: Option<usize>,
    pub beatmap_set_id: Option<usize>,
}

/// Information that identifies the beatmap.
#[derive(Clone, Debug, PartialEq, Eq, Hash)]
pub struct Metadata {
    /// Spaces after the colon of each field, as read; written back the same way.
    pub spacing: SectionSpacing,
    /// The `Title` field.
    pub title: Option<String>,
    /// The `TitleUnicode` field.
    pub title_unicode: Option<String>,
    /// The `Artist` field.
    pub artist: Option<String>,
    /// The `ArtistUnicode` field.
    pub artist_unicode: Option<String>,
    /// The `Creator` field.
    pub creator: Option<String>,
    /// The `Version` field.
    pub version: Option<String>,
    /// The `Source` field.
    pub source: Option<String>,
    /// The `Tags` field.
    pub tags: Option<Tags>,
    /// The `BeatmapID` field.
    pub beatmap_id: Option<Integer>,
    /// The `BeatmapSetID` field.
    pub beatmap_set_id: Option<Integer>,
}

/// The view of the section.
pub struct MetadataView {
    pub spacing: SectionSpacing,
    pub title: Option<Seq<char>>,
    pub title_unicode: Option<Seq<char>>,
    pub artist: Option<Seq<char>>,
    pub artist_unicode: Option<Seq<char>>,
    pub creator: Option<Seq<char>>,
    pub version: Option<Seq<char>>,
    pub source: Option<Seq<char>>,
    pub tags: Option<Seq<Seq<char>>>,
    pub beatmap_id: Option<i32>,
    pub beatmap_set_id: Option<i32>,
}

impl View for Metadata {
    type V = MetadataView;

    open spec fn view(&self) -> MetadataView {
        MetadataView {
            spacing: self.spacing,
            title: ov(self.title),
            title_unicode: ov(self.title_unicode),
            artist: ov(self.artist),
            artist_unicode: ov(self.artist_unicode),
            creator: ov(self.creator),
            version: ov(self.version),
            source: ov(self.source),
            tags: ov(self.tags),
            beatmap_id: ov(self.beatmap_id),
            beatmap_set_id: ov(self.beatmap_set_id),
        }
    }
}

/// The section with no fields.
pub open spec fn empty_view() -> MetadataView {
    MetadataView {
        spacing: SectionSpacing {
            title: None,
            title_unicode: None,
            artist: None,
            artist_unicode: None,
            creator: None,
            version: None,
            source: None,
            tags: None,
            beatmap_id: None,
            beatmap_set_id: None,
        },
        title: None,
        title_unicode: None,
        artist: None,
        artist_unicode: None,
        creator: None,
        version: None,
        source: None,
        tags: None,
        beatmap_id: None,
        beatmap_set_id: None,
    }
}

/// Index of the field with the given key.
pub open spec fn key_index(name: Seq<char>) -> Option<nat> {
    if name == "Title"@ {
        Some(0)
    } else if name == "TitleUnicode"@ {
        Some(1)
    } else if name == "Artist"@ {
        Some(2)
    } else if name == "ArtistUnicode"@ {
        Some(3)
    } else if name == "Creator"@ {
        Some(4)
    } else if name == "Version"@ {
        Some(5)
    } else if name == "Source"@ {
        Some(6)
    } else if name == "Tags"@ {
        Some(7)
    } else if name == "BeatmapID"@ {
        Some(8)
    } else if name == "BeatmapSetID"@ {
        Some(9)
    } else {
        None
    }
}

fn key_index_exec(name: &[char]) -> (r: Option<usize>)
    ensures
        match (r, key_index(name@)) {
            (Some(a), Some(b)) => a == b,
            (None, None) => true,
            _ => false,
        },
{
    if eq_str(name, "Title") {
        Some(0)
    } else if eq_str(name, "TitleUnicode") {
        Some(1)
    } else if eq_str(name, "Artist") {
        Some(2)
    } else if eq_str(name, "ArtistUnicode") {
        Some(3)
    } else if eq_str(name, "Creator") {
        Some(4)
    } else if eq_str(name, "Version") {
        Some(5)
    } else if eq_str(name, "Source") {
        Some(6)
    } else if eq_str(name, "Tags") {
        Some(7)
    } else if eq_str(name, "BeatmapID") {
        Some(8)
    } else if eq_str(name, "BeatmapSetID") {
        Some(9)
    } else {
        None
    }
}

/// Sets field `k` from its value text, recording the spaces after the colon.
pub open spec fn apply_field(acc: MetadataView, k: nat, sp: nat, value: Seq<char>, version: Version) -> Result<MetadataView, ParseError> {
    if k == 0 {
        match <String as VersionedFromStr>::parse_text(value, version) {
            Ok(v) => Ok(MetadataView { title: v, spacing: SectionSpacing { title: Some(sp as usize), ..acc.spacing }, ..acc }),
            Err(e) => Err(ParseError::InvalidColonSet),
        }
    } else if k == 1 {
        match <String as VersionedFromStr>::parse_text(value, version) {
            Ok(v) => Ok(MetadataView { title_unicode: v, spacing: SectionSpacing { title_unicode: Some(sp as usize), ..acc.spacing }, ..acc }),
            Err(e) => Err(ParseError::InvalidColonSet),
        }
    } else if k == 2 {
        match <String as VersionedFromStr>::parse_text(value, version) {
            Ok(v) => Ok(MetadataView { artist: v, spacing: SectionSpacing { artist: Some(sp as usize), ..acc.spacing }, ..acc }),
            Err(e) => Err(ParseError::InvalidColonSet),
        }
    } else if k == 3 {
        match <String as VersionedFromStr>::parse_text(value, version) {
            Ok(v) => Ok(MetadataView { artist_unicode: v, spacing: SectionSpacing { artist_unicode: Some(sp as usize), ..acc.spacing }, ..acc }),
            Err(e) => Err(ParseError::InvalidColonSet),
        }
    } else if k == 4 {
        match <String as VersionedFromStr>::parse_text(value, version) {
            Ok(v) => Ok(MetadataView { creator: v, spacing: SectionSpacing { creator: Some(sp as usize), ..acc.spacing }, ..acc }),
            Err(e) => Err(ParseError::InvalidColonSet),
        }
    } else if k == 5 {
        match <String as VersionedFromStr>::parse_text(value, version) {
            Ok(v) => Ok(MetadataView { version: v, spacing: SectionSpacing { version: Some(sp as usize), ..acc.spacing }, ..acc }),
            Err(e) => Err(ParseError::InvalidColonSet),
        }
    } else if k == 6 {
        match <String as VersionedFromStr>::parse_text(value, version) {
            Ok(v) => Ok(MetadataView { source: v, spacing: SectionSpacing { source: Some(sp as usize), ..acc.spacing }, ..acc }),
            Err(e) => Err(ParseError::InvalidColonSet),
        }
    } else if k == 7 {
        match <Tags as VersionedFromStr>::parse_text(value, version) {
            Ok(v) => Ok(MetadataView { tags: v, spacing: SectionSpacing { tags: Some(sp as usize), ..acc.spacing }, ..acc }),
            Err(e) => Err(ParseError::InvalidColonSet),
        }
    } else if k == 8 {
        match <Integer as VersionedFromStr>::parse_text(value, version) {
            Ok(v) => Ok(MetadataView { beatmap_id: v, spacing: SectionSpacing { beatmap_id: Some(sp as usize), ..acc.spacing }, ..acc }),
            Err(e) => Err(ParseError::ParseIntError(e)),
        }
    } else if k == 9 {
        match <Integer as VersionedFromStr>::parse_text(value, version) {
            Ok(v) => Ok(MetadataView { beatmap_set_id: v, spacing: SectionSpacing { beatmap_set_id: Some(sp as usize), ..acc.spacing }, ..acc }),
            Err(e) => Err(ParseError::ParseIntError(e)),
        }
    } else {
        Ok(acc)
    }
}

fn apply_field_exec(acc: &mut Metadata, k: usize, sp: usize, value: &[char], version: Version) -> (r: Result<(), ParseError>)
    ensures
        match (r, apply_field(old(acc)@, k as nat, sp as nat, value@, version)) {
            (Ok(()), Ok(v)) => final(acc)@ == v,
            (Err(a), Err(b)) => a == b,
            _ => false,
        },
{
    if k == 0 {
        match <String as VersionedFromStr>::from_chars(value, version) {
            Ok(v) => {
                acc.title = v;
                acc.spacing.title = Some(sp);
                Ok(())
            },
            Err(e) => Err(ParseError::InvalidColonSet),
        }
    } else if k == 1 {
        match <String as VersionedFromStr>::from_chars(value, version) {
            Ok(v) => {
                acc.title_unicode = v;
                acc.spacing.title_unicode = Some(sp);
                Ok(())
            },
            Err(e) => Err(ParseError::InvalidColonSet),
        }
    } else if k == 2 {
        match <String as VersionedFromStr>::from_chars(value, version) {
            Ok(v) => {
                acc.artist = v;
                acc.spacing.artist = Some(sp);
                Ok(())
            },
            Err(e) => Err(ParseError::InvalidColonSet),
        }
    } else if k == 3 {
        match <String as VersionedFromStr>::from_chars(value, version) {
            Ok(v) => {
                acc.artist_unicode = v;
                acc.spacing.artist_unicode = Some(sp);
                Ok(())
            },
            Err(e) => Err(ParseError::InvalidColonSet),
        }
    } else if k == 4 {
        match <String as VersionedFromStr>::from_chars(value, version) {
            Ok(v) => {
                acc.creator = v;
                acc.spacing.creator = Some(sp);
                Ok(())
            },
            Err(e) => Err(ParseError::InvalidColonSet),
        }
    } else if k == 5 {
        match <String as VersionedFromStr>::from_chars(value, version) {
            Ok(v) => {
                acc.version = v;
                acc.spacing.version = Some(sp);
                Ok(())
            },
            Err(e) => Err(ParseError::InvalidColonSet),
        }
    } else if k == 6 {
        match <String as VersionedFromStr>::from_chars(value, version) {
            Ok(v) => {
                acc.source = v;
                acc.spacing.source = Some(sp);
                Ok(())
            },
            Err(e) => Err(ParseError::InvalidColonSet),
        }
    } else if k == 7 {
        match <Tags as VersionedFromStr>::from_chars(value, version) {
            Ok(v) => {
                acc.tags = v;
                acc.spacing.tags = Some(sp);
                Ok(())
            },
            Err(e) => Err(ParseError::InvalidColonSet),
        }
    } else if k == 8 {
        match <Integer as VersionedFromStr>::from_chars(value, version) {
            Ok(v) => {
                acc.beatmap_id = v;
                acc.spacing.beatmap_id = Some(sp);
                Ok(())
            },
            Err(e) => Err(ParseError::ParseIntError(e)),
        }
    } else if k == 9 {
        match <Integer as VersionedFromStr>::from_chars(value, version) {
            Ok(v) => {
                acc.beatmap_set_id = v;
                acc.spacing.beatmap_set_id = Some(sp);
                Ok(())
            },
            Err(e) => Err(ParseError::ParseIntError(e)),
        }
    } else {
        Ok(())
    }
}

/// Reads the lines in order: blank lines are skipped, every other line must be
/// a `key: value` line with a known key that was not seen before; an error
/// carries the index of its line.
pub open spec fn lines_parse(ls: Seq<Seq<char>>, version: Version) -> Result<(MetadataView, Seq<usize>), Error<ParseError>>
    decreases ls.len(),
{
    if ls.len() == 0 {
        Ok((empty_view(), Seq::empty()))
    } else {
        match lines_parse(ls.drop_last(), version) {
            Err(e) => Err(e),
            Ok((acc, seen)) => {
                let idx = (ls.len() - 1) as usize;
                let l = ls.last();
                if trim(l).len() == 0 {
                    Ok((acc, seen))
                } else {
                    match colon_line(l) {
                        None => Err(Error { line_index: idx, error: ParseError::InvalidColonSet }),
                        Some((name, sp, value)) => match key_index(name) {
                            None => Err(Error { line_index: idx, error: ParseError::InvalidKey }),
                            Some(k) => if seen.contains(k as usize) {
                                Err(Error { line_index: idx, error: ParseError::DuplicateField })
                            } else {
                                match apply_field(acc, k, sp, value, version) {
                                    Ok(a) => Ok((a, seen.push(k as usize))),
                                    Err(e) => Err(Error { line_index: idx, error: e }),
                                }
                            },
                        },
                    }
                }
            },
        }
    }
}

proof fn lemma_lines_parse_err(ls: Seq<Seq<char>>, k: int, version: Version)
    requires
        0 <= k <= ls.len(),
        lines_parse(ls.take(k), version) is Err,
    ensures
        lines_parse(ls, version) == lines_parse(ls.take(k), version),
    decreases ls.len() - k,
{
    if k < ls.len() {
        assert(ls.take(k + 1).drop_last() == ls.take(k));
        lemma_lines_parse_err(ls, k + 1, version);
    } else {
        assert(ls.take(k) == ls);
    }
}

/// The lines of the fields that are present and exist in `version`, in the
/// order of the fields.
pub open spec fn field_lines(v: MetadataView, version: Version) -> Seq<Seq<char>> {
    (((((((((line_of("Title"@, v.spacing.title, 0, ov_text::<String>(v.title, version)))
        + line_of("TitleUnicode"@, v.spacing.title_unicode, 0, ov_text::<String>(v.title_unicode, version)))
        + line_of("Artist"@, v.spacing.artist, 0, ov_text::<String>(v.artist, version)))
        + line_of("ArtistUnicode"@, v.spacing.artist_unicode, 0, ov_text::<String>(v.artist_unicode, version)))
        + line_of("Creator"@, v.spacing.creator, 0, ov_text::<String>(v.creator, version)))
        + line_of("Version"@, v.spacing.version, 0, ov_text::<String>(v.version, version)))
        + line_of("Source"@, v.spacing.source, 0, ov_text::<String>(v.source, version)))
        + line_of("Tags"@, v.spacing.tags, 0, ov_text::<Tags>(v.tags, version)))
        + line_of("BeatmapID"@, v.spacing.beatmap_id, 0, ov_text::<Integer>(v.beatmap_id, version)))
        + line_of("BeatmapSetID"@, v.spacing.beatmap_set_id, 0, ov_text::<Integer>(v.beatmap_set_id, version))
}

impl Metadata {
    /// The section with no fields.
    pub fn new() -> (r: Metadata)
        ensures
            r@ == empty_view(),
    {
        Metadata {
            spacing: SectionSpacing {
                title: None,
                title_unicode: None,
                artist: None,
                artist_unicode: None,
                creator: None,
                version: None,
                source: None,
                tags: None,
                beatmap_id: None,
                beatmap_set_id: None,
            },
            title: None,
            title_unicode: None,
            artist: None,
            artist_unicode: None,
            creator: None,
            version: None,
            source: None,
            tags: None,
            beatmap_id: None,
            beatmap_set_id: None,
        }
    }

    /// Forgets the spaces read after the colons; the default spacing is written instead.
    pub fn reset_spacing(&mut self)
        ensures
            final(self)@ == (MetadataView { spacing: SectionSpacing {
                title: None,
                title_unicode: None,
                artist: None,
                artist_unicode: None,
                creator: None,
                version: None,
                source: None,
                tags: None,
                beatmap_id: None,
                beatmap_set_id: None,
            }, ..old(self)@ }),
    {
        self.spacing.title = None;
        self.spacing.title_unicode = None;
        self.spacing.artist = None;
        self.spacing.artist_unicode = None;
        self.spacing.creator = None;
        self.spacing.version = None;
        self.spacing.source = None;
        self.spacing.tags = None;
        self.spacing.beatmap_id = None;
        self.spacing.beatmap_set_id = None;
    }
}

impl Default for Metadata {
    fn default() -> (r: Metadata)
        ensures
            r@ == empty_view(),
    {
        Metadata::new()
    }
}

impl VersionedFromStr for Metadata {
    type Err = Error<ParseError>;

    open spec fn parse_text(s: Seq<char>, version: Version) -> Result<Option<MetadataView>, Error<ParseError>> {
        match lines_parse(lines(s), version) {
            Ok((v, _)) => Ok(Some(v)),
            Err(e) => Err(e),
        }
    }

    fn from_chars(s: &[char], version: Version) -> (r: Result<Option<Metadata>, Error<ParseError>>) {
        let ls = lines_of(s);
        let mut acc = Metadata::new();
        let mut seen: Vec<usize> = Vec::new();
        let mut i: usize = 0;
        assert(vv(ls@).take(0) =~= Seq::<Seq<char>>::empty());
        assert(seen@ =~= Seq::<usize>::empty());
        while i < ls.len()
            invariant
                i <= ls.len(),
                vv(ls@) == lines(s@),
                lines_parse(vv(ls@).take(i as int), version) == Ok::<(MetadataView, Seq<usize>), Error<ParseError>>((acc@, seen@)),
            decreases ls.len() - i,
        {
            let ghost pre = vv(ls@).take(i as int);
            assert(vv(ls@).take(i + 1).drop_last() == pre);
            assert(vv(ls@).take(i + 1).last() == ls@[i as int]@);
            let ghost acc0 = acc@;
            if !is_blank(ls[i].as_slice()) {
                let res: Result<usize, ParseError> = match colon_line_exec(ls[i].as_slice()) {
                    None => Err(ParseError::InvalidColonSet),
                    Some((name, sp, value)) => match key_index_exec(name.as_slice()) {
                        None => Err(ParseError::InvalidKey),
                        Some(k) => if vec_contains(&seen, k) {
                            Err(ParseError::DuplicateField)
                        } else {
                            match apply_field_exec(&mut acc, k, sp, value.as_slice(), version) {
                                Ok(()) => Ok(k),
                                Err(e) => Err(e),
                            }
                        },
                    },
                };
                match res {
                    Ok(k) => {
                        seen.push(k);
                    },
                    Err(err) => {
                        let e = Error { line_index: i, error: err };
                        proof {
                            assert(lines_parse(vv(ls@).take(i + 1), version) == Err::<(MetadataView, Seq<usize>), Error<ParseError>>(e));
                            lemma_lines_parse_err(vv(ls@), i + 1, version);
                        }
                        return Err(e);
                    },
                }
            }
            i = i + 1;
        }
        assert(vv(ls@).take(ls@.len() as int) == vv(ls@));
        Ok(Some(acc))
    }
}

impl VersionedToString for Metadata {
    open spec fn text_of(v: MetadataView, version: Version) -> Option<Seq<char>> {
        Some(join(field_lines(v, version), seq!['\n']))
    }

    fn to_chars(&self, version: Version) -> (r: Option<Vec<char>>) {
        let mut lines: Vec<Vec<char>> = Vec::new();
        assert(vv(lines@) =~= Seq::<Seq<char>>::empty());
        push_field_line::<String>(&mut lines, "Title", &self.title, self.spacing.title, 0, version);
        assert(vv(lines@) =~= line_of("Title"@, self.spacing.title, 0, ov_text::<String>(ov(self.title), version)));
        push_field_line::<String>(&mut lines, "TitleUnicode", &self.title_unicode, self.spacing.title_unicode, 0, version);
        push_field_line::<String>(&mut lines, "Artist", &self.artist, self.spacing.artist, 0, version);
        push_field_line::<String>(&mut lines, "ArtistUnicode", &self.artist_unicode, self.spacing.artist_unicode, 0, version);
        push_field_line::<String>(&mut lines, "Creator", &self.creator, self.spacing.creator, 0, version);
        push_field_line::<String>(&mut lines, "Version", &self.version, self.spacing.version, 0, version);
        push_field_line::<String>(&mut lines, "Source", &self.source, self.spacing.source, 0, version);
        push_field_line::<Tags>(&mut lines, "Tags", &self.tags, self.spacing.tags, 0, version);
        push_field_line::<Integer>(&mut lines, "BeatmapID", &self.beatmap_id, self.spacing.beatmap_id, 0, version);
        push_field_line::<Integer>(&mut lines, "BeatmapSetID", &self.beatmap_set_id, self.spacing.beatmap_set_id, 0, version);
        let s = join_chars(&lines, "\n");
        proof {
            reveal_strlit("\n");
            assert("\n"@ =~= seq!['\n']);
        }
        Some(s)
    }
}

} // verus!
