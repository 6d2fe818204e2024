//! The `[General]` section: general information about the beatmap, as `key: value` lines.
use vstd::prelude::*;

pub mod types;

use crate::decimal::Decimal;
use crate::helper::ParseZeroOneBoolError;
use crate::section::AudioHash;
use crate::text::ParseIntError;
use crate::types::Integer;

use self::types::{
    Countdown, Mode, OverlayPosition, ParseCountdownSpeedError, ParseGameModeError,
    ParseOverlayPositionError, ParseSampleSetError, SampleSet,
};

use crate::section::{
    colon_line, colon_line_exec, line_of, ov, ov_text, push_field_line, vec_contains,
};
use crate::text::{eq_str, join, join_chars, lines, lines_of, is_blank, trim, vv};
use crate::types::{Error, Version, VersionedFromStr, VersionedToString};

verus! {
/// Error reading the `[General]` section.
#[derive(Clone, Copy, Debug, PartialEq, Eq, Hash)]
pub enum ParseError {
    /// A field failed to read as an integer.
    ParseIntError(ParseIntError),
    /// A field failed to read as a decimal number.
    ParseDecimalError,
    /// A field failed to read as a `0`/`1` boolean.
    ParseZeroOneBoolError(ParseZeroOneBoolError),
    /// The countdown speed failed to read.
    ParseCountdownSpeedError(ParseCountdownSpeedError),
    /// The game mode failed to read.
    ParseGameModeError(ParseGameModeError),
    /// The sample set failed to read.
    ParseSampleSetError(ParseSampleSetError),
    /// The overlay position failed to read.
    ParseOverlayPositionError(ParseOverlayPositionError),
    /// A line is not in the `key: value` format.
    InvalidColonSet,
    /// The key is not a field of the section.
    InvalidKey,
    /// The field was already given.
    DuplicateField,
    /// The field does not exist in the version.
    InvalidVersion,
}

/// Number of spaces after the colon of each field, as read.
#[derive(Clone, Copy, Debug, Default, PartialEq, Eq, Hash)]
pub struct SectionSpacing {
    pub audio_filename: Option<usize>,
    pub audio_lead_in: Option<usize>,
    pub audio_hash: Option<usize>,
    pub preview_time: Option<usize>,
    pub countdown: Option<usize>,
    pub sample_set: Option<usize>,
    pub stack_leniency: Option<usize>,
    pub mode: Option<usize>,
    pub letterbox_in_breaks: Option<usize>,
    pub story_fire_in_front: Option<usize>,
    pub use_skin_sprites: Option<usize>,
    pub always_show_playfield: Option<usize>,
    pub overlay_position: Option<usize>,
    pub skin_preference: Option<usize>,
    pub epilepsy_warning: Option<usize>,
    pub countdown_offset: Option<usize>,
    pub special_style: Option<usize>,
    pub widescreen_storyboard: Option<usize>,
    pub samples_match_playback_rate: Option<usize>,
}

/// General information about the beatmap.
#[derive(Clone, Debug, PartialEq, Eq, Hash)]
pub struct General {
    /// Spaces after the colon of each field, as read; written back the same way.
    pub spacing: SectionSpacing,
    /// The `AudioFilename` field.
    pub audio_filename: Option<String>,
    /// The `AudioLeadIn` field.
    pub audio_lead_in: Option<Integer>,
    /// The `AudioHash` field.
    pub audio_hash: Option<AudioHash>,
    /// The `PreviewTime` field.
    pub preview_time: Option<Integer>,
    /// The `Countdown` field.
    pub countdown: Option<Countdown>,
    /// The `SampleSet` field.
    pub sample_set: Option<SampleSet>,
    /// The `StackLeniency` field.
    pub stack_leniency: Option<Decimal>,
    /// The `Mode` field.
    pub mode: Option<Mode>,
    /// The `LetterboxInBreaks` field.
    pub letterbox_in_breaks: Option<bool>,
    /// The `StoryFireInFront` field.
    pub story_fire_in_front: Option<bool>,
    /// The `UseSkinSprites` field.
    pub use_skin_sprites: Option<bool>,
    /// The `AlwaysShowPlayfield` field.
    pub always_show_playfield: Option<bool>,
    /// The `OverlayPosition` field.
    pub overlay_position: Option<OverlayPosition>,
    /// The `SkinPreference` field.
    pub skin_preference: Option<String>,
    /// The `EpilepsyWarning` field.
    pub epilepsy_warning: Option<bool>,
    /// The `CountdownOffset` field.
    pub countdown_offset: Option<Integer>,
    /// The `SpecialStyle` field.
    pub special_style: Option<bool>,
    /// The `WidescreenStoryboard` field.
    pub widescreen_storyboard: Option<bool>,
    /// The `SamplesMatchPlaybackRate` field.
    pub samples_match_playback_rate: Option<bool>,
}

/// The view of the section.
pub struct GeneralView {
    pub spacing: SectionSpacing,
    pub audio_filename: Option<Seq<char>>,
    pub audio_lead_in: Option<i32>,
    pub audio_hash: Option<Seq<char>>,
    pub preview_time: Option<i32>,
    pub countdown: Option<Countdown>,
    pub sample_set: Option<SampleSet>,
    pub stack_leniency: Option<Decimal>,
    pub mode: Option<Mode>,
    pub letterbox_in_breaks: Option<bool>,
    pub story_fire_in_front: Option<bool>,
    pub use_skin_sprites: Option<bool>,
    pub always_show_playfield: Option<bool>,
    pub overlay_position: Option<OverlayPosition>,
    pub skin_preference: Option<Seq<char>>,
    pub epilepsy_warning: Option<bool>,
    pub countdown_offset: Option<i32>,
    pub special_style: Option<bool>,
    pub widescreen_storyboard: Option<bool>,
    pub samples_match_playback_rate: Option<bool>,
}

impl View for General {
    type V = GeneralView;

    open spec fn view(&self) -> GeneralView {
        GeneralView {
            spacing: self.spacing,
            audio_filename: ov(self.audio_filename),
            audio_lead_in: ov(self.audio_lead_in),
            audio_hash: ov(self.audio_hash),
            preview_time: ov(self.preview_time),
            countdown: ov(self.countdown),
            sample_set: ov(self.sample_set),
            stack_leniency: ov(self.stack_leniency),
            mode: ov(self.mode),
            letterbox_in_breaks: ov(self.letterbox_in_breaks),
            story_fire_in_front: ov(self.story_fire_in_front),
            use_skin_sprites: ov(self.use_skin_sprites),
            always_show_playfield: ov(self.always_show_playfield),
            overlay_position: ov(self.overlay_position),
            skin_preference: ov(self.skin_preference),
            epilepsy_warning: ov(self.epilepsy_warning),
            countdown_offset: ov(self.countdown_offset),
            special_style: ov(self.special_style),
            widescreen_storyboard: ov(self.widescreen_storyboard),
            samples_match_playback_rate: ov(self.samples_match_playback_rate),
        }
    }
}

/// The section with no fields.
pub open spec fn empty_view() -> GeneralView {
    GeneralView {
        spacing: SectionSpacing {
            audio_filename: None,
            audio_lead_in: None,
            audio_hash: None,
            preview_time: None,
            countdown: None,
            sample_set: None,
            stack_leniency: None,
            mode: None,
            letterbox_in_breaks: None,
            story_fire_in_front: None,
            use_skin_sprites: None,
            always_show_playfield: None,
            overlay_position: None,
            skin_preference: None,
            epilepsy_warning: None,
            countdown_offset: None,
            special_style: None,
            widescreen_storyboard: None,
            samples_match_playback_rate: None,
        },
        audio_filename: None,
        audio_lead_in: None,
        audio_hash: None,
        preview_time: None,
        countdown: None,
        sample_set: None,
        stack_leniency: None,
        mode: None,
        letterbox_in_breaks: None,
        story_fire_in_front: None,
        use_skin_sprites: None,
        always_show_playfield: None,
        overlay_position: None,
        skin_preference: None,
        epilepsy_warning: None,
        countdown_offset: None,
        special_style: None,
        widescreen_storyboard: None,
        samples_match_playback_rate: None,
    }
}

/// Index of the field with the given key.
pub open spec fn key_index(name: Seq<char>) -> Option<nat> {
    if name == "AudioFilename"@ {
        Some(0)
    } else if name == "AudioLeadIn"@ {
        Some(1)
    } else if name == "AudioHash"@ {
        Some(2)
    } else if name == "PreviewTime"@ {
        Some(3)
    } else if name == "Countdown"@ {
        Some(4)
    } else if name == "SampleSet"@ {
        Some(5)
    } else if name == "StackLeniency"@ {
        Some(6)
    } else if name == "Mode"@ {
        Some(7)
    } else if name == "LetterboxInBreaks"@ {
        Some(8)
    } else if name == "StoryFireInFront"@ {
        Some(9)
    } else if name == "UseSkinSprites"@ {
        Some(10)
    } else if name == "AlwaysShowPlayfield"@ {
        Some(11)
    } else if name == "OverlayPosition"@ {
        Some(12)
    } else if name == "SkinPreference"@ {
        Some(13)
    } else if name == "EpilepsyWarning"@ {
        Some(14)
    } else if name == "CountdownOffset"@ {
        Some(15)
    } else if name == "SpecialStyle"@ {
        Some(16)
    } else if name == "WidescreenStoryboard"@ {
        Some(17)
    } else if name == "SamplesMatchPlaybackRate"@ {
        Some(18)
    } else {
        None
    }
}

fn key_index_exec(name: &[char]) -> (r: Option<usize>)
    ensures
        match (r, key_index(name@)) {
            (Some(a), Some(b)) => a == b,
            (None, None) => true,
            _ => false,
        },
{
    if eq_str(name, "AudioFilename") {
        Some(0)
    } else if eq_str(name, "AudioLeadIn") {
        Some(1)
    } else if eq_str(name, "AudioHash") {
        Some(2)
    } else if eq_str(name, "PreviewTime") {
        Some(3)
    } else if eq_str(name, "Countdown") {
        Some(4)
    } else if eq_str(name, "SampleSet") {
        Some(5)
    } else if eq_str(name, "StackLeniency") {
        Some(6)
    } else if eq_str(name, "Mode") {
        Some(7)
    } else if eq_str(name, "LetterboxInBreaks") {
        Some(8)
    } else if eq_str(name, "StoryFireInFront") {
        Some(9)
    } else if eq_str(name, "UseSkinSprites") {
        Some(10)
    } else if eq_str(name, "AlwaysShowPlayfield") {
        Some(11)
    } else if eq_str(name, "OverlayPosition") {
        Some(12)
    } else if eq_str(name, "SkinPreference") {
        Some(13)
    } else if eq_str(name, "EpilepsyWarning") {
        Some(14)
    } else if eq_str(name, "CountdownOffset") {
        Some(15)
    } else if eq_str(name, "SpecialStyle") {
        Some(16)
    } else if eq_str(name, "WidescreenStoryboard") {
        Some(17)
    } else if eq_str(name, "SamplesMatchPlaybackRate") {
        Some(18)
    } else {
        None
    }
}

/// Sets field `k` from its value text, recording the spaces after the colon.
pub open spec fn apply_field(acc: GeneralView, k: nat, sp: nat, value: Seq<char>, version: Version) -> Result<GeneralView, ParseError> {
    if k == 0 {
        match <String as VersionedFromStr>::parse_text(value, version) {
            Ok(v) => Ok(GeneralView { audio_filename: v, spacing: SectionSpacing { audio_filename: Some(sp as usize), ..acc.spacing }, ..acc }),
            Err(e) => Err(ParseError::InvalidColonSet),
        }
    } else if k == 1 {
        match <Integer as VersionedFromStr>::parse_text(value, version) {
            Ok(v) => Ok(GeneralView { audio_lead_in: v, spacing: SectionSpacing { audio_lead_in: Some(sp as usize), ..acc.spacing }, ..acc }),
            Err(e) => Err(ParseError::ParseIntError(e)),
        }
    } else if k == 2 {
        match <AudioHash as VersionedFromStr>::parse_text(value, version) {
            Ok(v) => Ok(GeneralView { audio_hash: v, spacing: SectionSpacing { audio_hash: Some(sp as usize), ..acc.spacing }, ..acc }),
            Err(e) => Err(ParseError::InvalidColonSet),
        }
    } else if k == 3 {
        match <Integer as VersionedFromStr>::parse_text(value, version) {
            Ok(v) => Ok(GeneralView { preview_time: v, spacing: SectionSpacing { preview_time: Some(sp as usize), ..acc.spacing }, ..acc }),
            Err(e) => Err(ParseError::ParseIntError(e)),
        }
    } else if k == 4 {
        match <Countdown as VersionedFromStr>::parse_text(value, version) {
            Ok(v) => Ok(GeneralView { countdown: v, spacing: SectionSpacing { countdown: Some(sp as usize), ..acc.spacing }, ..acc }),
            Err(e) => Err(ParseError::ParseCountdownSpeedError(e)),
        }
    } else if k == 5 {
        match <SampleSet as VersionedFromStr>::parse_text(value, version) {
            Ok(v) => Ok(GeneralView { sample_set: v, spacing: SectionSpacing { sample_set: Some(sp as usize), ..acc.spacing }, ..acc }),
            Err(e) => Err(ParseError::ParseSampleSetError(e)),
        }
    } else if k == 6 {
        match <Decimal as VersionedFromStr>::parse_text(value, version) {
            Ok(v) => Ok(GeneralView { stack_leniency: v, spacing: SectionSpacing { stack_leniency: Some(sp as usize), ..acc.spacing }, ..acc }),
            Err(e) => Err(ParseError::ParseDecimalError),
        }
    } else if k == 7 {
        match <Mode as VersionedFromStr>::parse_text(value, version) {
            Ok(v) => Ok(GeneralView { mode: v, spacing: SectionSpacing { mode: Some(sp as usize), ..acc.spacing }, ..acc }),
            Err(e) => Err(ParseError::ParseGameModeError(e)),
        }
    } else if k == 8 {
        match <bool as VersionedFromStr>::parse_text(value, version) {
            Ok(v) => Ok(GeneralView { letterbox_in_breaks: v, spacing: SectionSpacing { letterbox_in_breaks: Some(sp as usize), ..acc.spacing }, ..acc }),
            Err(e) => Err(ParseError::ParseZeroOneBoolError(e)),
        }
    } else if k == 9 {
        match <bool as VersionedFromStr>::parse_text(value, version) {
            Ok(v) => Ok(GeneralView { story_fire_in_front: v, spacing: SectionSpacing { story_fire_in_front: Some(sp as usize), ..acc.spacing }, ..acc }),
            Err(e) => Err(ParseError::ParseZeroOneBoolError(e)),
        }
    } else if k == 10 {
        match <bool as VersionedFromStr>::parse_text(value, version) {
            Ok(v) => Ok(GeneralView { use_skin_sprites: v, spacing: SectionSpacing { use_skin_sprites: Some(sp as usize), ..acc.spacing }, ..acc }),
            Err(e) => Err(ParseError::ParseZeroOneBoolError(e)),
        }
    } else if k == 11 {
        match <bool as VersionedFromStr>::parse_text(value, version) {
            Ok(v) => Ok(GeneralView { always_show_playfield: v, spacing: SectionSpacing { always_show_playfield: Some(sp as usize), ..acc.spacing }, ..acc }),
            Err(e) => Err(ParseError::ParseZeroOneBoolError(e)),
        }
    } else if k == 12 {
        match <OverlayPosition as VersionedFromStr>::parse_text(value, version) {
            Ok(v) => Ok(GeneralView { overlay_position: v, spacing: SectionSpacing { overlay_position: Some(sp as usize), ..acc.spacing }, ..acc }),
            Err(e) => Err(ParseError::ParseOverlayPositionError(e)),
        }
    } else if k == 13 {
        match <String as VersionedFromStr>::parse_text(value, version) {
            Ok(v) => Ok(GeneralView { skin_preference: v, spacing: SectionSpacing { skin_preference: Some(sp as usize), ..acc.spacing }, ..acc }),
            Err(e) => Err(ParseError::InvalidColonSet),
        }
    } else if k == 14 {
        match <bool as VersionedFromStr>::parse_text(value, version) {
            Ok(v) => Ok(GeneralView { epilepsy_warning: v, spacing: SectionSpacing { epilepsy_warning: Some(sp as usize), ..acc.spacing }, ..acc }),
            Err(e) => Err(ParseError::ParseZeroOneBoolError(e)),
        }
    } else if k == 15 {
        match <Integer as VersionedFromStr>::parse_text(value, version) {
            Ok(v) => Ok(GeneralView { countdown_offset: v, spacing: SectionSpacing { countdown_offset: Some(sp as usize), ..acc.spacing }, ..acc }),
            Err(e) => Err(ParseError::ParseIntError(e)),
        }
    } else if k == 16 {
        match <bool as VersionedFromStr>::parse_text(value, version) {
            Ok(v) => Ok(GeneralView { special_style: v, spacing: SectionSpacing { special_style: Some(sp as usize), ..acc.spacing }, ..acc }),
            Err(e) => Err(ParseError::ParseZeroOneBoolError(e)),
        }
    } else if k == 17 {
        match <bool as VersionedFromStr>::parse_text(value, version) {
            Ok(v) => Ok(GeneralView { widescreen_storyboard: v, spacing: SectionSpacing { widescreen_storyboard: Some(sp as usize), ..acc.spacing }, ..acc }),
            Err(e) => Err(ParseError::ParseZeroOneBoolError(e)),
        }
    } else if k == 18 {
        match <bool as VersionedFromStr>::parse_text(value, version) {
            Ok(v) => Ok(GeneralView { samples_match_playback_rate: v, spacing: SectionSpacing { samples_match_playback_rate: Some(sp as usize), ..acc.spacing }, ..acc }),
            Err(e) => Err(ParseError::ParseZeroOneBoolError(e)),
        }
    } else {
        Ok(acc)
    }
}

fn apply_field_exec(acc: &mut General, k: usize, sp: usize, value: &[char], version: Version) -> (r: Result<(), ParseError>)
    ensures
        match (r, apply_field(old(acc)@, k as nat, sp as nat, value@, version)) {
            (Ok(()), Ok(v)) => final(acc)@ == v,
            (Err(a), Err(b)) => a == b,
            _ => false,
        },
{
    if k == 0 {
        match <String as VersionedFromStr>::from_chars(value, version) {
            Ok(v) => {
                acc.audio_filename = v;
                acc.spacing.audio_filename = Some(sp);
                Ok(())
            },
            Err(e) => Err(ParseError::InvalidColonSet),
        }
    } else if k == 1 {
        match <Integer as VersionedFromStr>::from_chars(value, version) {
            Ok(v) => {
                acc.audio_lead_in = v;
                acc.spacing.audio_lead_in = Some(sp);
                Ok(())
            },
            Err(e) => Err(ParseError::ParseIntError(e)),
        }
    } else if k == 2 {
        match <AudioHash as VersionedFromStr>::from_chars(value, version) {
            Ok(v) => {
                acc.audio_hash = v;
                acc.spacing.audio_hash = Some(sp);
                Ok(())
            },
            Err(e) => Err(ParseError::InvalidColonSet),
        }
    } else if k == 3 {
        match <Integer as VersionedFromStr>::from_chars(value, version) {
            Ok(v) => {
                acc.preview_time = v;
                acc.spacing.preview_time = Some(sp);
                Ok(())
            },
            Err(e) => Err(ParseError::ParseIntError(e)),
        }
    } else if k == 4 {
        match <Countdown as VersionedFromStr>::from_chars(value, version) {
            Ok(v) => {
                acc.countdown = v;
                acc.spacing.countdown = Some(sp);
                Ok(())
            },
            Err(e) => Err(ParseError::ParseCountdownSpeedError(e)),
        }
    } else if k == 5 {
        match <SampleSet as VersionedFromStr>::from_chars(value, version) {
            Ok(v) => {
                acc.sample_set = v;
                acc.spacing.sample_set = Some(sp);
                Ok(())
            },
            Err(e) => Err(ParseError::ParseSampleSetError(e)),
        }
    } else if k == 6 {
        match <Decimal as VersionedFromStr>::from_chars(value, version) {
            Ok(v) => {
                acc.stack_leniency = v;
                acc.spacing.stack_leniency = Some(sp);
                Ok(())
            },
            Err(e) => Err(ParseError::ParseDecimalError),
        }
    } else if k == 7 {
        match <Mode as VersionedFromStr>::from_chars(value, version) {
            Ok(v) => {
                acc.mode = v;
                acc.spacing.mode = Some(sp);
                Ok(())
            },
            Err(e) => Err(ParseError::ParseGameModeError(e)),
        }
    } else if k == 8 {
        match <bool as VersionedFromStr>::from_chars(value, version) {
            Ok(v) => {
                acc.letterbox_in_breaks = v;
                acc.spacing.letterbox_in_breaks = Some(sp);
                Ok(())
            },
            Err(e) => Err(ParseError::ParseZeroOneBoolError(e)),
        }
    } else if k == 9 {
        match <bool as VersionedFromStr>::from_chars(value, version) {
            Ok(v) => {
                acc.story_fire_in_front = v;
                acc.spacing.story_fire_in_front = Some(sp);
                Ok(())
            },
            Err(e) => Err(ParseError::ParseZeroOneBoolError(e)),
        }
    } else if k == 10 {
        match <bool as VersionedFromStr>::from_chars(value, version) {
            Ok(v) => {
                acc.use_skin_sprites = v;
                acc.spacing.use_skin_sprites = Some(sp);
                Ok(())
            },
            Err(e) => Err(ParseError::ParseZeroOneBoolError(e)),
        }
    } else if k == 11 {
        match <bool as VersionedFromStr>::from_chars(value, version) {
            Ok(v) => {
                acc.always_show_playfield = v;
                acc.spacing.always_show_playfield = Some(sp);
                Ok(())
            },
            Err(e) => Err(ParseError::ParseZeroOneBoolError(e)),
        }
    } else if k == 12 {
        match <OverlayPosition as VersionedFromStr>::from_chars(value, version) {
            Ok(v) => {
                acc.overlay_position = v;
                acc.spacing.overlay_position = Some(sp);
                Ok(())
            },
            Err(e) => Err(ParseError::ParseOverlayPositionError(e)),
        }
    } else if k == 13 {
        match <String as VersionedFromStr>::from_chars(value, version) {
            Ok(v) => {
                acc.skin_preference = v;
                acc.spacing.skin_preference = Some(sp);
                Ok(())
            },
            Err(e) => Err(ParseError::InvalidColonSet),
        }
    } else if k == 14 {
        match <bool as VersionedFromStr>::from_chars(value, version) {
            Ok(v) => {
                acc.epilepsy_warning = v;
                acc.spacing.epilepsy_warning = Some(sp);
                Ok(())
            },
            Err(e) => Err(ParseError::ParseZeroOneBoolError(e)),
        }
    } else if k == 15 {
        match <Integer as VersionedFromStr>::from_chars(value, version) {
            Ok(v) => {
                acc.countdown_offset = v;
                acc.spacing.countdown_offset = Some(sp);
                Ok(())
            },
            Err(e) => Err(ParseError::ParseIntError(e)),
        }
    } else if k == 16 {
        match <bool as VersionedFromStr>::from_chars(value, version) {
            Ok(v) => {
                acc.special_style = v;
                acc.spacing.special_style = Some(sp);
                Ok(())
            },
            Err(e) => Err(ParseError::ParseZeroOneBoolError(e)),
        }
    } else if k == 17 {
        match <bool as VersionedFromStr>::from_chars(value, version) {
            Ok(v) => {
                acc.widescreen_storyboard = v;
                acc.spacing.widescreen_storyboard = Some(sp);
                Ok(())
            },
            Err(e) => Err(ParseError::ParseZeroOneBoolError(e)),
        }
    } else if k == 18 {
        match <bool as VersionedFromStr>::from_chars(value, version) {
            Ok(v) => {
                acc.samples_match_playback_rate = v;
                acc.spacing.samples_match_playback_rate = Some(sp);
                Ok(())
            },
            Err(e) => Err(ParseError::ParseZeroOneBoolError(e)),
        }
    } else {
        Ok(())
    }
}

/// Reads the lines in order: blank lines are skipped, every other line must be
/// a `key: value` line with a known key that was not seen before; an error
/// carries the index of its line.
pub open spec fn lines_parse(ls: Seq<Seq<char>>, version: Version) -> Result<(GeneralView, Seq<usize>), Error<ParseError>>
    decreases ls.len(),
{
    if ls.len() == 0 {
        Ok((empty_view(), Seq::empty()))
    } else {
        match lines_parse(ls.drop_last(), version) {
            Err(e) => Err(e),
            Ok((acc, seen)) => {
                let idx = (ls.len() - 1) as usize;
                let l = ls.last();
                if trim(l).len() == 0 {
                    Ok((acc, seen))
                } else {
                    match colon_line(l) {
                        None => Err(Error { line_index: idx, error: ParseError::InvalidColonSet }),
                        Some((name, sp, value)) => match key_index(name) {
                            None => Err(Error { line_index: idx, error: ParseError::InvalidKey }),
                            Some(k) => if seen.contains(k as usize) {
                                Err(Error { line_index: idx, error: ParseError::DuplicateField })
                            } else {
                                match apply_field(acc, k, sp, value, version) {
                                    Ok(a) => Ok((a, seen.push(k as usize))),
                                    Err(e) => Err(Error { line_index: idx, error: e }),
                                }
                            },
                        },
                    }
                }
            },
        }
    }
}

proof fn lemma_lines_parse_err(ls: Seq<Seq<char>>, k: int, version: Version)
    requires
        0 <= k <= ls.len(),
        lines_parse(ls.take(k), version) is Err,
    ensures
        lines_parse(ls, version) == lines_parse(ls.take(k), version),
    decreases ls.len() - k,
{
    if k < ls.len() {
        assert(ls.take(k + 1).drop_last() == ls.take(k));
        lemma_lines_parse_err(ls, k + 1, version);
    } else {
        assert(ls.take(k) == ls);
    }
}

/// The lines of the fields that are present and exist in `version`, in the
/// order of the fields.
pub open spec fn field_lines(v: GeneralView, version: Version) -> Seq<Seq<char>> {
    ((((((((((((((((((line_of("AudioFilename"@, v.spacing.audio_filename, 1, ov_text::<String>(v.audio_filename, version)))
        + line_of("AudioLeadIn"@, v.spacing.audio_lead_in, 1, ov_text::<Integer>(v.audio_lead_in, version)))
        + line_of("AudioHash"@, v.spacing.audio_hash, 1, ov_text::<AudioHash>(v.audio_hash, version)))
        + line_of("PreviewTime"@, v.spacing.preview_time, 1, ov_text::<Integer>(v.preview_time, version)))
        + line_of("Countdown"@, v.spacing.countdown, 1, ov_text::<Countdown>(v.countdown, version)))
        + line_of("SampleSet"@, v.spacing.sample_set, 1, ov_text::<SampleSet>(v.sample_set, version)))
        + line_of("StackLeniency"@, v.spacing.stack_leniency, 1, ov_text::<Decimal>(v.stack_leniency, version)))
        + line_of("Mode"@, v.spacing.mode, 1, ov_text::<Mode>(v.mode, version)))
        + line_of("LetterboxInBreaks"@, v.spacing.letterbox_in_breaks, 1, ov_text::<bool>(v.letterbox_in_breaks, version)))
        + line_of("StoryFireInFront"@, v.spacing.story_fire_in_front, 1, ov_text::<bool>(v.story_fire_in_front, version)))
        + line_of("UseSkinSprites"@, v.spacing.use_skin_sprites, 1, ov_text::<bool>(v.use_skin_sprites, version)))
        + line_of("AlwaysShowPlayfield"@, v.spacing.always_show_playfield, 1, ov_text::<bool>(v.always_show_playfield, version)))
        + line_of("OverlayPosition"@, v.spacing.overlay_position, 1, ov_text::<OverlayPosition>(v.overlay_position, version)))
        + line_of("SkinPreference"@, v.spacing.skin_preference, 1, ov_text::<String>(v.skin_preference, version)))
        + line_of("EpilepsyWarning"@, v.spacing.epilepsy_warning, 1, ov_text::<bool>(v.epilepsy_warning, version)))
        + line_of("CountdownOffset"@, v.spacing.countdown_offset, 1, ov_text::<Integer>(v.countdown_offset, version)))
        + line_of("SpecialStyle"@, v.spacing.special_style, 1, ov_text::<bool>(v.special_style, version)))
        + line_of("WidescreenStoryboard"@, v.spacing.widescreen_storyboard, 1, ov_text::<bool>(v.widescreen_storyboard, version)))
        + line_of("SamplesMatchPlaybackRate"@, v.spacing.samples_match_playback_rate, 1, ov_text::<bool>(v.samples_match_playback_rate, version))
}

impl General {
    /// The section with no fields.
    pub fn new() -> (r: General)
        ensures
            r@ == empty_view(),
    {
        General {
            spacing: SectionSpacing {
                audio_filename: None,
                audio_lead_in: None,
                audio_hash: None,
                preview_time: None,
                countdown: None,
                sample_set: None,
                stack_leniency: None,
                mode: None,
                letterbox_in_breaks: None,
                story_fire_in_front: None,
                use_skin_sprites: None,
                always_show_playfield: None,
                overlay_position: None,
                skin_preference: None,
                epilepsy_warning: None,
                countdown_offset: None,
                special_style: None,
                widescreen_storyboard: None,
                samples_match_playback_rate: None,
            },
            audio_filename: None,
            audio_lead_in: None,
            audio_hash: None,
            preview_time: None,
            countdown: None,
            sample_set: None,
            stack_leniency: None,
            mode: None,
            letterbox_in_breaks: None,
            story_fire_in_front: None,
            use_skin_sprites: None,
            always_show_playfield: None,
            overlay_position: None,
            skin_preference: None,
            epilepsy_warning: None,
            countdown_offset: None,
            special_style: None,
            widescreen_storyboard: None,
            samples_match_playback_rate: None,
        }
    }

    /// Forgets the spaces read after the colons; the default spacing is written instead.
    pub fn reset_spacing(&mut self)
        ensures
            final(self)@ == (GeneralView { spacing: SectionSpacing {
                audio_filename: None,
                audio_lead_in: None,
                audio_hash: None,
                preview_time: None,
                countdown: None,
                sample_set: None,
                stack_leniency: None,
                mode: None,
                letterbox_in_breaks: None,
                story_fire_in_front: None,
                use_skin_sprites: None,
                always_show_playfield: None,
                overlay_position: None,
                skin_preference: None,
                epilepsy_warning: None,
                countdown_offset: None,
                special_style: None,
                widescreen_storyboard: None,
                samples_match_playback_rate: None,
            }, ..old(self)@ }),
    {
        self.spacing.audio_filename = None;
        self.spacing.audio_lead_in = None;
        self.spacing.audio_hash = None;
        self.spacing.preview_time = None;
        self.spacing.countdown = None;
        self.spacing.sample_set = None;
        self.spacing.stack_leniency = None;
        self.spacing.mode = None;
        self.spacing.letterbox_in_breaks = None;
        self.spacing.story_fire_in_front = None;
        self.spacing.use_skin_sprites = None;
        self.spacing.always_show_playfield = None;
        self.spacing.overlay_position = None;
        self.spacing.skin_preference = None;
        self.spacing.epilepsy_warning = None;
        self.spacing.countdown_offset = None;
        self.spacing.special_style = None;
        self.spacing.widescreen_storyboard = None;
        self.spacing.samples_match_playback_rate = None;
    }
}

impl Default for General {
    fn default() -> (r: General)
        ensures
            r@ == empty_view(),
    {
        General::new()
    }
}

impl VersionedFromStr for General {
    type Err = Error<ParseError>;

    open spec fn parse_text(s: Seq<char>, version: Version) -> Result<Option<GeneralView>, Error<ParseError>> {
        match lines_parse(lines(s), version) {
            Ok((v, _)) => Ok(Some(v)),
            Err(e) => Err(e),
        }
    }

    fn from_chars(s: &[char], version: Version) -> (r: Result<Option<General>, Error<ParseError>>) {
        let ls = lines_of(s);
        let mut acc = General::new();
        let mut seen: Vec<usize> = Vec::new();
        let mut i: usize = 0;
        assert(vv(ls@).take(0) =~= Seq::<Seq<char>>::empty());
        assert(seen@ =~= Seq::<usize>::empty());
        while i < ls.len()
            invariant
                i <= ls.len(),
                vv(ls@) == lines(s@),
                lines_parse(vv(ls@).take(i as int), version) == Ok::<(GeneralView, Seq<usize>), Error<ParseError>>((acc@, seen@)),
            decreases ls.len() - i,
        {
            let ghost pre = vv(ls@).take(i as int);
            assert(vv(ls@).take(i + 1).drop_last() == pre);
            assert(vv(ls@).take(i + 1).last() == ls@[i as int]@);
            let ghost acc0 = acc@;
            if !is_blank(ls[i].as_slice()) {
                let res: Result<usize, ParseError> = match colon_line_exec(ls[i].as_slice()) {
                    None => Err(ParseError::InvalidColonSet),
                    Some((name, sp, value)) => match key_index_exec(name.as_slice()) {
                        None => Err(ParseError::InvalidKey),
                        Some(k) => if vec_contains(&seen, k) {
                            Err(ParseError::DuplicateField)
                        } else {
                            match apply_field_exec(&mut acc, k, sp, value.as_slice(), version) {
                                Ok(()) => Ok(k),
                                Err(e) => Err(e),
                            }
                        },
                    },
                };
                match res {
                    Ok(k) => {
                        seen.push(k);
                    },
                    Err(err) => {
                        let e = Error { line_index: i, error: err };
                        proof {
                            assert(lines_parse(vv(ls@).take(i + 1), version) == Err::<(GeneralView, Seq<usize>), Error<ParseError>>(e));
                            lemma_lines_parse_err(vv(ls@), i + 1, version);
                        }
                        return Err(e);
                    },
                }
            }
            i = i + 1;
        }
        assert(vv(ls@).take(ls@.len() as int) == vv(ls@));
        Ok(Some(acc))
    }
}

impl VersionedToString for General {
    open spec fn text_of(v: GeneralView, version: Version) -> Option<Seq<char>> {
        Some(join(field_lines(v, version), seq!['\n']))
    }

    fn to_chars(&self, version: Version) -> (r: Option<Vec<char>>) {
        let mut lines: Vec<Vec<char>> = Vec::new();
        assert(vv(lines@) =~= Seq::<Seq<char>>::empty());
        push_field_line::<String>(&mut lines, "AudioFilename", &self.audio_filename, self.spacing.audio_filename, 1, version);
        assert(vv(lines@) =~= line_of("AudioFilename"@, self.spacing.audio_filename, 1, ov_text::<String>(ov(self.audio_filename), version)));
        push_field_line::<Integer>(&mut lines, "AudioLeadIn", &self.audio_lead_in, self.spacing.audio_lead_in, 1, version);
        push_field_line::<AudioHash>(&mut lines, "AudioHash", &self.audio_hash, self.spacing.audio_hash, 1, version);
        push_field_line::<Integer>(&mut lines, "PreviewTime", &self.preview_time, self.spacing.preview_time, 1, version);
        push_field_line::<Countdown>(&mut lines, "Countdown", &self.countdown, self.spacing.countdown, 1, version);
        push_field_line::<SampleSet>(&mut lines, "SampleSet", &self.sample_set, self.spacing.sample_set, 1, version);
        push_field_line::<Decimal>(&mut lines, "StackLeniency", &self.stack_leniency, self.spacing.stack_leniency, 1, version);
        push_field_line::<Mode>(&mut lines, "Mode", &self.mode, self.spacing.mode, 1, version);
        push_field_line::<bool>(&mut lines, "LetterboxInBreaks", &self.letterbox_in_breaks, self.spacing.letterbox_in_breaks, 1, version);
        push_field_line::<bool>(&mut lines, "StoryFireInFront", &self.story_fire_in_front, self.spacing.story_fire_in_front, 1, version);
        push_field_line::<bool>(&mut lines, "UseSkinSprites", &self.use_skin_sprites, self.spacing.use_skin_sprites, 1, version);
        push_field_line::<bool>(&mut lines, "AlwaysShowPlayfield", &self.always_show_playfield, self.spacing.always_show_playfield, 1, version);
        push_field_line::<OverlayPosition>(&mut lines, "OverlayPosition", &self.overlay_position, self.spacing.overlay_position, 1, version);
        push_field_line::<String>(&mut lines, "SkinPreference", &self.skin_preference, self.spacing.skin_preference, 1, version);
        push_field_line::<bool>(&mut lines, "EpilepsyWarning", &self.epilepsy_warning, self.spacing.epilepsy_warning, 1, version);
        push_field_line::<Integer>(&mut lines, "CountdownOffset", &self.countdown_offset, self.spacing.countdown_offset, 1, version);
        push_field_line::<bool>(&mut lines, "SpecialStyle", &self.special_style, self.spacing.special_style, 1, version);
        push_field_line::<bool>(&mut lines, "WidescreenStoryboard", &self.widescreen_storyboard, self.spacing.widescreen_storyboard, 1, version);
        push_field_line::<bool>(&mut lines, "SamplesMatchPlaybackRate", &self.samples_match_playback_rate, self.spacing.samples_match_playback_rate, 1, version);
        let s = join_chars(&lines, "\n");
        proof {
            reveal_strlit("\n");
            assert("\n"@ =~= seq!['\n']);
        }
        Some(s)
    }
}

} // verus!
