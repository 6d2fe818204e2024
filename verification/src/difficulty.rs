//! The `[Difficulty]` section: difficulty settings, as `key:value` lines.
use vstd::prelude::*;

use crate::decimal::Decimal;

use crate::section::{
    colon_line, colon_line_exec, line_of, ov, ov_text, push_field_line, vec_contains,
};
use crate::text::{eq_str, join, join_chars, lines, lines_of, is_blank, trim, vv};
use crate::types::{Error, Version, VersionedFromStr, VersionedToString};

verus! {
/// Error reading the `[Difficulty]` section.
#[derive(Clone, Copy, Debug, PartialEq, Eq, Hash)]
pub enum ParseError {
    /// A line is not in the `key:value` format.
    InvalidColonSet,
    /// The key is not a field of the section.
    InvalidKey,
    /// The field was already given.
    DuplicateField,
    /// A field failed to read as a decimal number.
    ParseDecimalError,
}

/// Number of spaces after the colon of each field, as read.
#[derive(Clone, Copy, Debug, Default, PartialEq, Eq, Hash)]
pub struct SectionSpacing {
    pub hp_drain_rate: Option<usize>,
    pub circle_size: Option<usize>,
    pub overall_difficulty: Option<usize>,
    pub approach_rate: Option<usize>,
    pub slider_multiplier: Option<usize>,
    pub slider_tickrate: Option<usize>,
}

/// Difficulty settings.
#[derive(Clone, Debug, PartialEq, Eq, Hash)]
pub struct Difficulty {
    /// Spaces after the colon of each field, as read; written back the same way.
    pub spacing: SectionSpacing,
    /// The `HPDrainRate` field.
    pub hp_drain_rate: Option<Decimal>,
    /// The `CircleSize` field.
    pub circle_size: Option<Decimal>,
    /// The `OverallDifficulty` field.
    pub overall_difficulty: Option<Decimal>,
    /// The `ApproachRate` field.
    pub approach_rate: Option<Decimal>,
    /// The `SliderMultiplier` field.
    pub slider_multiplier: Option<Decimal>,
    /// The `SliderTickRate` field.
    pub slider_tickrate: Option<Decimal>,
}

/// The view of the section.
pub struct DifficultyView {
    pub spacing: SectionSpacing,
    pub hp_drain_rate: Option<Decimal>,
    pub circle_size: Option<Decimal>,
    pub overall_difficulty: Option<Decimal>,
    pub approach_rate: Option<Decimal>,
    pub slider_multiplier: Option<Decimal>,
    pub slider_tickrate: Option<Decimal>,
}

impl View for Difficulty {
    type V = DifficultyView;

    open spec fn view(&self) -> DifficultyView {
        DifficultyView {
            spacing: self.spacing,
            hp_drain_rate: ov(self.hp_drain_rate),
            circle_size: ov(self.circle_size),
            overall_difficulty: ov(self.overall_difficulty),
            approach_rate: ov(self.approach_rate),
            slider_multiplier: ov(self.slider_multiplier),
            slider_tickrate: ov(self.slider_tickrate),
        }
    }
}

/// The section with no fields.
pub open spec fn empty_view() -> DifficultyView {
    DifficultyView {
        spacing: SectionSpacing {
            hp_drain_rate: None,
            circle_size: None,
            overall_difficulty: None,
            approach_rate: None,
            slider_multiplier: None,
            slider_tickrate: None,
        },
        hp_drain_rate: None,
        circle_size: None,
        overall_difficulty: None,
        approach_rate: None,
        slider_multiplier: None,
        slider_tickrate: None,
    }
}

/// Index of the field with the given key.
pub open spec fn key_index(name: Seq<char>) -> Option<nat> {
    if name == "HPDrainRate"@ {
        Some(0)
    } else if name == "CircleSize"@ {
        Some(1)
    } else if name == "OverallDifficulty"@ {
        Some(2)
    } else if name == "ApproachRate"@ {
        Some(3)
    } else if name == "SliderMultiplier"@ {
        Some(4)
    } else if name == "SliderTickRate"@ {
        Some(5)
    } else {
        None
    }
}

fn key_index_exec(name: &[char]) -> (r: Option<usize>)
    ensures
        match (r, key_index(name@)) {
            (Some(a), Some(b)) => a == b,
            (None, None) => true,
            _ => false,
        },
{
    if eq_str(name, "HPDrainRate") {
        Some(0)
    } else if eq_str(name, "CircleSize") {
        Some(1)
    } else if eq_str(name, "OverallDifficulty") {
        Some(2)
    } else if eq_str(name, "ApproachRate") {
        Some(3)
    } else if eq_str(name, "SliderMultiplier") {
        Some(4)
    } else if eq_str(name, "SliderTickRate") {
        Some(5)
    } else {
        None
    }
}

/// Sets field `k` from its value text, recording the spaces after the colon.
pub open spec fn apply_field(acc: DifficultyView, k: nat, sp: nat, value: Seq<char>, version: Version) -> Result<DifficultyView, ParseError> {
    if k == 0 {
        match <Decimal as VersionedFromStr>::parse_text(value, version) {
            Ok(v) => Ok(DifficultyView { hp_drain_rate: v, spacing: SectionSpacing { hp_drain_rate: Some(sp as usize), ..acc.spacing }, ..acc }),
            Err(e) => Err(ParseError::ParseDecimalError),
        }
    } else if k == 1 {
        match <Decimal as VersionedFromStr>::parse_text(value, version) {
            Ok(v) => Ok(DifficultyView { circle_size: v, spacing: SectionSpacing { circle_size: Some(sp as usize), ..acc.spacing }, ..acc }),
            Err(e) => Err(ParseError::ParseDecimalError),
        }
    } else if k == 2 {
        match <Decimal as VersionedFromStr>::parse_text(value, version) {
            Ok(v) => Ok(DifficultyView { overall_difficulty: v, spacing: SectionSpacing { overall_difficulty: Some(sp as usize), ..acc.spacing }, ..acc }),
            Err(e) => Err(ParseError::ParseDecimalError),
        }
    } else if k == 3 {
        match <Decimal as VersionedFromStr>::parse_text(value, version) {
            Ok(v) => Ok(DifficultyView { approach_rate: v, spacing: SectionSpacing { approach_rate: Some(sp as usize), ..acc.spacing }, ..acc }),
            Err(e) => Err(ParseError::ParseDecimalError),
        }
    } else if k == 4 {
        match <Decimal as VersionedFromStr>::parse_text(value, version) {
            Ok(v) => Ok(DifficultyView { slider_multiplier: v, spacing: SectionSpacing { slider_multiplier: Some(sp as usize), ..acc.spacing }, ..acc }),
            Err(e) => Err(ParseError::ParseDecimalError),
        }
    } else if k == 5 {
        match <Decimal as VersionedFromStr>::parse_text(value, version) {
            Ok(v) => Ok(DifficultyView { slider_tickrate: v, spacing: SectionSpacing { slider_tickrate: Some(sp as usize), ..acc.spacing }, ..acc }),
            Err(e) => Err(ParseError::ParseDecimalError),
        }
    } else {
        Ok(acc)
    }
}

fn apply_field_exec(acc: &mut Difficulty, k: usize, sp: usize, value: &[char], version: Version) -> (r: Result<(), ParseError>)
    ensures
        match (r, apply_field(old(acc)@, k as nat, sp as nat, value@, version)) {
            (Ok(()), Ok(v)) => final(acc)@ == v,
            (Err(a), Err(b)) => a == b,
            _ => false,
        },
{
    if k == 0 {
        match <Decimal as VersionedFromStr>::from_chars(value, version) {
            Ok(v) => {
                acc.hp_drain_rate = v;
                acc.spacing.hp_drain_rate = Some(sp);
                Ok(())
            },
            Err(e) => Err(ParseError::ParseDecimalError),
        }
    } else if k == 1 {
        match <Decimal as VersionedFromStr>::from_chars(value, version) {
            Ok(v) => {
                acc.circle_size = v;
                acc.spacing.circle_size = Some(sp);
                Ok(())
            },
            Err(e) => Err(ParseError::ParseDecimalError),
        }
    } else if k == 2 {
        match <Decimal as VersionedFromStr>::from_chars(value, version) {
            Ok(v) => {
                acc.overall_difficulty = v;
                acc.spacing.overall_difficulty = Some(sp);
                Ok(())
            },
            Err(e) => Err(ParseError::ParseDecimalError),
        }
    } else if k == 3 {
        match <Decimal as VersionedFromStr>::from_chars(value, version) {
            Ok(v) => {
                acc.approach_rate = v;
                acc.spacing.approach_rate = Some(sp);
                Ok(())
            },
            Err(e) => Err(ParseError::ParseDecimalError),
        }
    } else if k == 4 {
        match <Decimal as VersionedFromStr>::from_chars(value, version) {
            Ok(v) => {
                acc.slider_multiplier = v;
                acc.spacing.slider_multiplier = Some(sp);
                Ok(())
            },
            Err(e) => Err(ParseError::ParseDecimalError),
        }
    } else if k == 5 {
        match <Decimal as VersionedFromStr>::from_chars(value, version) {
            Ok(v) => {
                acc.slider_tickrate = v;
                acc.spacing.slider_tickrate = Some(sp);
                Ok(())
            },
            Err(e) => Err(ParseError::ParseDecimalError),
        }
    } else {
        Ok(())
    }
}

/// Reads the lines in order: blank lines are skipped, every other line must be
/// a `key: value` line with a known key that was not seen before; an error
/// carries the index of its line.
pub open spec fn lines_parse(ls: Seq<Seq<char>>, version: Version) -> Result<(DifficultyView, Seq<usize>), Error<ParseError>>
    decreases ls.len(),
{
    if ls.len() == 0 {
        Ok((empty_view(), Seq::empty()))
    } else {
        match lines_parse(ls.drop_last(), version) {
            Err(e) => Err(e),
            Ok((acc, seen)) => {
                let idx = (ls.len() - 1) as usize;
                let l = ls.last();
                if trim(l).len() == 0 {
                    Ok((acc, seen))
                } else {
                    match colon_line(l) {
                        None => Err(Error { line_index: idx, error: ParseError::InvalidColonSet }),
                        Some((name, sp, value)) => match key_index(name) {
                            None => Err(Error { line_index: idx, error: ParseError::InvalidKey }),
                            Some(k) => if seen.contains(k as usize) {
                                Err(Error { line_index: idx, error: ParseError::DuplicateField })
                            } else {
                                match apply_field(acc, k, sp, value, version) {
                                    Ok(a) => Ok((a, seen.push(k as usize))),
                                    Err(e) => Err(Error { line_index: idx, error: e }),
                                }
                            },
                        },
                    }
                }
            },
        }
    }
}

proof fn lemma_lines_parse_err(ls: Seq<Seq<char>>, k: int, version: Version)
    requires
        0 <= k <= ls.len(),
        lines_parse(ls.take(k), version) is Err,
    ensures
        lines_parse(ls, version) == lines_parse(ls.take(k), version),
    decreases ls.len() - k,
{
    if k < ls.len() {
        assert(ls.take(k + 1).drop_last() == ls.take(k));
        lemma_lines_parse_err(ls, k + 1, version);
    } else {
        assert(ls.take(k) == ls);
    }
}

/// The lines of the fields that are present and exist in `version`, in the
/// order of the fields.
pub open spec fn field_lines(v: DifficultyView, version: Version) -> Seq<Seq<char>> {
    (((((line_of("HPDrainRate"@, v.spacing.hp_drain_rate, 0, ov_text::<Decimal>(v.hp_drain_rate, version)))
        + line_of("CircleSize"@, v.spacing.circle_size, 0, ov_text::<Decimal>(v.circle_size, version)))
        + line_of("OverallDifficulty"@, v.spacing.overall_difficulty, 0, ov_text::<Decimal>(v.overall_difficulty, version)))
        + line_of("ApproachRate"@, v.spacing.approach_rate, 0, ov_text::<Decimal>(v.approach_rate, version)))
        + line_of("SliderMultiplier"@, v.spacing.slider_multiplier, 0, ov_text::<Decimal>(v.slider_multiplier, version)))
        + line_of("SliderTickRate"@, v.spacing.slider_tickrate, 0, ov_text::<Decimal>(v.slider_tickrate, version))
}

impl Difficulty {
    /// The section with no fields.
    pub fn new() -> (r: Difficulty)
        ensures
            r@ == empty_view(),
    {
        Difficulty {
            spacing: SectionSpacing {
                hp_drain_rate: None,
                circle_size: None,
                overall_difficulty: None,
                approach_rate: None,
                slider_multiplier: None,
                slider_tickrate: None,
            },
            hp_drain_rate: None,
            circle_size: None,
            overall_difficulty: None,
            approach_rate: None,
            slider_multiplier: None,
            slider_tickrate: None,
        }
    }

    /// Forgets the spaces read after the colons; the default spacing is written instead.
    pub fn reset_spacing(&mut self)
        ensures
            final(self)@ == (DifficultyView { spacing: SectionSpacing {
                hp_drain_rate: None,
                circle_size: None,
                overall_difficulty: None,
                approach_rate: None,
                slider_multiplier: None,
                slider_tickrate: None,
            }, ..old(self)@ }),
    {
        self.spacing.hp_drain_rate = None;
        self.spacing.circle_size = None;
        self.spacing.overall_difficulty = None;
        self.spacing.approach_rate = None;
        self.spacing.slider_multiplier = None;
        self.spacing.slider_tickrate = None;
    }
}

impl Default for Difficulty {
    fn default() -> (r: Difficulty)
        ensures
            r@ == empty_view(),
    {
        Difficulty::new()
    }
}

impl VersionedFromStr for Difficulty {
    type Err = Error<ParseError>;

    open spec fn parse_text(s: Seq<char>, version: Version) -> Result<Option<DifficultyView>, Error<ParseError>> {
        match lines_parse(lines(s), version) {
            Ok((v, _)) => Ok(Some(v)),
            Err(e) => Err(e),
        }
    }

    fn from_chars(s: &[char], version: Version) -> (r: Result<Option<Difficulty>, Error<ParseError>>) {
        let ls = lines_of(s);
        let mut acc = Difficulty::new();
        let mut seen: Vec<usize> = Vec::new();
        let mut i: usize = 0;
        assert(vv(ls@).take(0) =~= Seq::<Seq<char>>::empty());
        assert(seen@ =~= Seq::<usize>::empty());
        while i < ls.len()
            invariant
                i <= ls.len(),
                vv(ls@) == lines(s@),
                lines_parse(vv(ls@).take(i as int), version) == Ok::<(DifficultyView, Seq<usize>), Error<ParseError>>((acc@, seen@)),
            decreases ls.len() - i,
        {
            let ghost pre = vv(ls@).take(i as int);
            assert(vv(ls@).take(i + 1).drop_last() == pre);
            assert(vv(ls@).take(i + 1).last() == ls@[i as int]@);
            let ghost acc0 = acc@;
            if !is_blank(ls[i].as_slice()) {
                let res: Result<usize, ParseError> = match colon_line_exec(ls[i].as_slice()) {
                    None => Err(ParseError::InvalidColonSet),
                    Some((name, sp, value)) => match key_index_exec(name.as_slice()) {
                        None => Err(ParseError::InvalidKey),
                        Some(k) => if vec_contains(&seen, k) {
                            Err(ParseError::DuplicateField)
                        } else {
                            match apply_field_exec(&mut acc, k, sp, value.as_slice(), version) {
                                Ok(()) => Ok(k),
                                Err(e) => Err(e),
                            }
                        },
                    },
                };
                match res {
                    Ok(k) => {
                        seen.push(k);
                    },
                    Err(err) => {
                        let e = Error { line_index: i, error: err };
                        proof {
                            assert(lines_parse(vv(ls@).take(i + 1), version) == Err::<(DifficultyView, Seq<usize>), Error<ParseError>>(e));
                            lemma_lines_parse_err(vv(ls@), i + 1, version);
                        }
                        return Err(e);
                    },
                }
            }
            i = i + 1;
        }
        assert(vv(ls@).take(ls@.len() as int) == vv(ls@));
        Ok(Some(acc))
    }
}

impl VersionedToString for Difficulty {
    open spec fn text_of(v: DifficultyView, version: Version) -> Option<Seq<char>> {
        Some(join(field_lines(v, version), seq!['\n']))
    }

    fn to_chars(&self, version: Version) -> (r: Option<Vec<char>>) {
        let mut lines: Vec<Vec<char>> = Vec::new();
        assert(vv(lines@) =~= Seq::<Seq<char>>::empty());
        push_field_line::<Decimal>(&mut lines, "HPDrainRate", &self.hp_drain_rate, self.spacing.hp_drain_rate, 0, version);
        assert(vv(lines@) =~= line_of("HPDrainRate"@, self.spacing.hp_drain_rate, 0, ov_text::<Decimal>(ov(self.hp_drain_rate), version)));
        push_field_line::<Decimal>(&mut lines, "CircleSize", &self.circle_size, self.spacing.circle_size, 0, version);
        push_field_line::<Decimal>(&mut lines, "OverallDifficulty", &self.overall_difficulty, self.spacing.overall_difficulty, 0, version);
        push_field_line::<Decimal>(&mut lines, "ApproachRate", &self.approach_rate, self.spacing.approach_rate, 0, version);
        push_field_line::<Decimal>(&mut lines, "SliderMultiplier", &self.slider_multiplier, self.spacing.slider_multiplier, 0, version);
        push_field_line::<Decimal>(&mut lines, "SliderTickRate", &self.slider_tickrate, self.spacing.slider_tickrate, 0, version);
        let s = join_chars(&lines, "\n");
        proof {
            reveal_strlit("\n");
            assert("\n"@ =~= seq!['\n']);
        }
        Some(s)
    }
}

} // verus!
