//! The enumerations of the `[General]` section.
use vstd::prelude::*;

use crate::text::{eq_str, int_text, parse_int_spec, parse_usize, push_int, push_str, ParseIntError};
use crate::types::{Version, VersionedFromStr, VersionedToString};

verus! {

/// Error reading a game mode.
#[derive(Clone, Copy, Debug, PartialEq, Eq, Hash)]
pub enum ParseGameModeError {
    /// The number is not a known game mode.
    UnknownVariant,
    /// The text is not a number.
    ParseError(ParseIntError),
}

/// Error reading a countdown speed.
#[derive(Clone, Copy, Debug, PartialEq, Eq, Hash)]
pub enum ParseCountdownSpeedError {
    /// The number is not a known countdown speed.
    UnknownVariant,
    /// The text is not a number.
    ParseError(ParseIntError),
}

/// Error reading an overlay position.
#[derive(Clone, Copy, Debug, PartialEq, Eq, Hash)]
pub enum ParseOverlayPositionError {
    /// The name is not a known overlay position.
    UnknownVariant,
}

/// Error reading a sample set.
#[derive(Clone, Copy, Debug, PartialEq, Eq, Hash)]
pub enum ParseSampleSetError {
    /// The name is not a known sample set.
    UnknownVariant,
}

/// Speed of the countdown before the first hitobject; versions 3 and 4 have none.
#[derive(PartialEq, Eq, Debug, Clone, Copy, Hash)]
pub enum Countdown {
    /// No countdown.
    NoCountdown,
    /// Normal speed.
    Normal,
    /// Half speed.
    Half,
    /// Double speed.
    Double,
}

impl View for Countdown {
    type V = Countdown;

    open spec fn view(&self) -> Countdown {
        *self
    }
}

impl Countdown {
    /// The number of the speed.
    pub open spec fn number(self) -> nat {
        match self {
            Countdown::NoCountdown => 0,
            Countdown::Normal => 1,
            Countdown::Half => 2,
            Countdown::Double => 3,
        }
    }

    fn number_exec(&self) -> (r: u8)
        ensures
            r == self.number(),
    {
        match self {
            Countdown::NoCountdown => 0,
            Countdown::Normal => 1,
            Countdown::Half => 2,
            Countdown::Double => 3,
        }
    }

    /// The speed of the given number.
    pub open spec fn from_number(n: int) -> Option<Countdown> {
        if n == 0 {
            Some(Countdown::NoCountdown)
        } else if n == 1 {
            Some(Countdown::Normal)
        } else if n == 2 {
            Some(Countdown::Half)
        } else if n == 3 {
            Some(Countdown::Double)
        } else {
            None
        }
    }

    /// The default speed in `version`: normal, where the field exists.
    pub fn default(version: Version) -> (r: Option<Countdown>)
        ensures
            r == (if 3 <= version <= 4 {
                None
            } else {
                Some(Countdown::Normal)
            }),
    {
        if 3 <= version && version <= 4 {
            None
        } else {
            Some(Countdown::Normal)
        }
    }
}

impl VersionedFromStr for Countdown {
    type Err = ParseCountdownSpeedError;

    open spec fn parse_text(s: Seq<char>, version: Version) -> Result<Option<Countdown>, ParseCountdownSpeedError> {
        if 3 <= version <= 4 {
            Ok(None)
        } else {
            match parse_int_spec(s, 0, u32::MAX as int) {
                Err(k) => Err(ParseCountdownSpeedError::ParseError(ParseIntError { kind: k })),
                Ok(n) => match Countdown::from_number(n) {
                    Some(c) => Ok(Some(c)),
                    None => Err(ParseCountdownSpeedError::UnknownVariant),
                },
            }
        }
    }

    fn from_chars(s: &[char], version: Version) -> (r: Result<Option<Countdown>, ParseCountdownSpeedError>) {
        if 3 <= version && version <= 4 {
            return Ok(None);
        }
        match parse_usize(s) {
            Err(e) => Err(ParseCountdownSpeedError::ParseError(e)),
            Ok(0) => Ok(Some(Countdown::NoCountdown)),
            Ok(1) => Ok(Some(Countdown::Normal)),
            Ok(2) => Ok(Some(Countdown::Half)),
            Ok(3) => Ok(Some(Countdown::Double)),
            Ok(_) => Err(ParseCountdownSpeedError::UnknownVariant),
        }
    }
}

impl VersionedToString for Countdown {
    open spec fn text_of(v: Countdown, version: Version) -> Option<Seq<char>> {
        if 3 <= version <= 4 {
            None
        } else {
            Some(int_text(v.number() as int))
        }
    }

    fn to_chars(&self, version: Version) -> (r: Option<Vec<char>>) {
        if 3 <= version && version <= 4 {
            return None;
        }
        let mut out: Vec<char> = Vec::new();
        push_int(&mut out, self.number_exec() as i64);
        assert(out@ =~= int_text(self.number() as int));
        Some(out)
    }
}

/// Sample set used where timing points do not set one.
#[derive(PartialEq, Eq, Debug, Clone, Copy, Hash)]
pub enum SampleSet {
    /// The `Normal` sample set.
    Normal,
    /// The `Soft` sample set.
    Soft,
    /// The `Drum` sample set.
    Drum,
    /// The `None` sample set of versions before 14; read as `Normal` from version 14.
    NoSampleSet,
}

impl View for SampleSet {
    type V = SampleSet;

    open spec fn view(&self) -> SampleSet {
        *self
    }
}

impl SampleSet {
    /// The name of the sample set.
    pub open spec fn name(self) -> Seq<char> {
        match self {
            SampleSet::Normal => "Normal"@,
            SampleSet::Soft => "Soft"@,
            SampleSet::Drum => "Drum"@,
            SampleSet::NoSampleSet => "None"@,
        }
    }

    /// The sample set of the given name.
    pub open spec fn from_name(s: Seq<char>) -> Option<SampleSet> {
        if s == "Normal"@ {
            Some(SampleSet::Normal)
        } else if s == "Soft"@ {
            Some(SampleSet::Soft)
        } else if s == "Drum"@ {
            Some(SampleSet::Drum)
        } else if s == "None"@ {
            Some(SampleSet::NoSampleSet)
        } else {
            None
        }
    }

    fn from_name_exec(s: &[char]) -> (r: Option<SampleSet>)
        ensures
            r == SampleSet::from_name(s@),
    {
        if eq_str(s, "Normal") {
            Some(SampleSet::Normal)
        } else if eq_str(s, "Soft") {
            Some(SampleSet::Soft)
        } else if eq_str(s, "Drum") {
            Some(SampleSet::Drum)
        } else if eq_str(s, "None") {
            Some(SampleSet::NoSampleSet)
        } else {
            None
        }
    }

    /// The default sample set in `version`: `Normal`, where the field exists.
    pub fn default(version: Version) -> (r: Option<SampleSet>)
        ensures
            r == (if version == 3 {
                None
            } else {
                Some(SampleSet::Normal)
            }),
    {
        if version == 3 {
            None
        } else {
            Some(SampleSet::Normal)
        }
    }
}

impl VersionedFromStr for SampleSet {
    type Err = ParseSampleSetError;

    open spec fn parse_text(s: Seq<char>, version: Version) -> Result<Option<SampleSet>, ParseSampleSetError> {
        if version == 3 {
            Ok(None)
        } else {
            match SampleSet::from_name(s) {
                None => Err(ParseSampleSetError::UnknownVariant),
                Some(v) => if 4 <= version <= 13 {
                    Ok(Some(v))
                } else if v == SampleSet::NoSampleSet {
                    Ok(Some(SampleSet::Normal))
                } else {
                    Ok(Some(v))
                },
            }
        }
    }

    fn from_chars(s: &[char], version: Version) -> (r: Result<Option<SampleSet>, ParseSampleSetError>) {
        if version == 3 {
            return Ok(None);
        }
        match SampleSet::from_name_exec(s) {
            None => Err(ParseSampleSetError::UnknownVariant),
            Some(v) => if 4 <= version && version <= 13 {
                Ok(Some(v))
            } else {
                match v {
                    SampleSet::NoSampleSet => Ok(Some(SampleSet::Normal)),
                    _ => Ok(Some(v)),
                }
            },
        }
    }
}

impl VersionedToString for SampleSet {
    open spec fn text_of(v: SampleSet, version: Version) -> Option<Seq<char>> {
        if version == 3 {
            None
        } else {
            Some(v.name())
        }
    }

    fn to_chars(&self, version: Version) -> (r: Option<Vec<char>>) {
        if version == 3 {
            return None;
        }
        let mut out: Vec<char> = Vec::new();
        match self {
            SampleSet::Normal => push_str(&mut out, "Normal"),
            SampleSet::Soft => push_str(&mut out, "Soft"),
            SampleSet::Drum => push_str(&mut out, "Drum"),
            SampleSet::NoSampleSet => push_str(&mut out, "None"),
        }
        assert(out@ =~= self.name());
        Some(out)
    }
}

/// Game mode of the beatmap.
#[derive(PartialEq, Eq, Debug, Clone, Copy, Hash)]
pub enum Mode {
    /// osu!
    Osu,
    /// osu!taiko
    Taiko,
    /// osu!catch
    Catch,
    /// osu!mania
    Mania,
}

impl View for Mode {
    type V = Mode;

    open spec fn view(&self) -> Mode {
        *self
    }
}

impl Mode {
    /// The number of the mode.
    pub open spec fn number(self) -> nat {
        match self {
            Mode::Osu => 0,
            Mode::Taiko => 1,
            Mode::Catch => 2,
            Mode::Mania => 3,
        }
    }

    fn number_exec(&self) -> (r: u8)
        ensures
            r == self.number(),
    {
        match self {
            Mode::Osu => 0,
            Mode::Taiko => 1,
            Mode::Catch => 2,
            Mode::Mania => 3,
        }
    }

    /// The mode of the given number.
    pub open spec fn from_number(n: int) -> Option<Mode> {
        if n == 0 {
            Some(Mode::Osu)
        } else if n == 1 {
            Some(Mode::Taiko)
        } else if n == 2 {
            Some(Mode::Catch)
        } else if n == 3 {
            Some(Mode::Mania)
        } else {
            None
        }
    }

    /// The default mode: osu!.
    pub fn default(version: Version) -> (r: Option<Mode>)
        ensures
            r == Some(Mode::Osu),
    {
        Some(Mode::Osu)
    }
}

impl VersionedFromStr for Mode {
    type Err = ParseGameModeError;

    /// Versions 3 to 13 know only osu! and osu!mania; the other modes read as absent there.
    open spec fn parse_text(s: Seq<char>, version: Version) -> Result<Option<Mode>, ParseGameModeError> {
        match parse_int_spec(s, 0, u32::MAX as int) {
            Err(k) => Err(ParseGameModeError::ParseError(ParseIntError { kind: k })),
            Ok(n) => match Mode::from_number(n) {
                None => Err(ParseGameModeError::UnknownVariant),
                Some(m) => if 3 <= version <= 13 && m != Mode::Osu && m != Mode::Mania {
                    Ok(None)
                } else {
                    Ok(Some(m))
                },
            },
        }
    }

    fn from_chars(s: &[char], version: Version) -> (r: Result<Option<Mode>, ParseGameModeError>) {
        let m = match parse_usize(s) {
            Err(e) => return Err(ParseGameModeError::ParseError(e)),
            Ok(0) => Mode::Osu,
            Ok(1) => Mode::Taiko,
            Ok(2) => Mode::Catch,
            Ok(3) => Mode::Mania,
            Ok(_) => return Err(ParseGameModeError::UnknownVariant),
        };
        let other = match m {
            Mode::Osu => false,
            Mode::Mania => false,
            _ => true,
        };
        if 3 <= version && version <= 13 && other {
            Ok(None)
        } else {
            Ok(Some(m))
        }
    }
}

impl VersionedToString for Mode {
    open spec fn text_of(v: Mode, version: Version) -> Option<Seq<char>> {
        Some(int_text(v.number() as int))
    }

    fn to_chars(&self, version: Version) -> (r: Option<Vec<char>>) {
        let mut out: Vec<char> = Vec::new();
        push_int(&mut out, self.number_exec() as i64);
        assert(out@ =~= int_text(self.number() as int));
        Some(out)
    }
}

/// Draw order of hit circle overlays compared to hit numbers; from version 14.
#[derive(PartialEq, Eq, Debug, Clone, Copy, Hash)]
pub enum OverlayPosition {
    /// Use the skin's setting.
    NoChange,
    /// Draw overlays under numbers.
    Below,
    /// Draw overlays on top of numbers.
    Above,
}

impl View for OverlayPosition {
    type V = OverlayPosition;

    open spec fn view(&self) -> OverlayPosition {
        *self
    }
}

impl OverlayPosition {
    /// The name of the position.
    pub open spec fn name(self) -> Seq<char> {
        match self {
            OverlayPosition::NoChange => "NoChange"@,
            OverlayPosition::Below => "Below"@,
            OverlayPosition::Above => "Above"@,
        }
    }

    /// The default position in `version`: no change, where the field exists.
    pub fn default(version: Version) -> (r: Option<OverlayPosition>)
        ensures
            r == (if 3 <= version <= 13 {
                None
            } else {
                Some(OverlayPosition::NoChange)
            }),
    {
        if 3 <= version && version <= 13 {
            None
        } else {
            Some(OverlayPosition::NoChange)
        }
    }
}

impl VersionedFromStr for OverlayPosition {
    type Err = ParseOverlayPositionError;

    open spec fn parse_text(s: Seq<char>, version: Version) -> Result<Option<OverlayPosition>, ParseOverlayPositionError> {
        if 3 <= version <= 13 {
            Ok(None)
        } else if s == "NoChange"@ {
            Ok(Some(OverlayPosition::NoChange))
        } else if s == "Below"@ {
            Ok(Some(OverlayPosition::Below))
        } else if s == "Above"@ {
            Ok(Some(OverlayPosition::Above))
        } else {
            Err(ParseOverlayPositionError::UnknownVariant)
        }
    }

    fn from_chars(s: &[char], version: Version) -> (r: Result<Option<OverlayPosition>, ParseOverlayPositionError>) {
        if 3 <= version && version <= 13 {
            Ok(None)
        } else if eq_str(s, "NoChange") {
            Ok(Some(OverlayPosition::NoChange))
        } else if eq_str(s, "Below") {
            Ok(Some(OverlayPosition::Below))
        } else if eq_str(s, "Above") {
            Ok(Some(OverlayPosition::Above))
        } else {
            Err(ParseOverlayPositionError::UnknownVariant)
        }
    }
}

impl VersionedToString for OverlayPosition {
    open spec fn text_of(v: OverlayPosition, version: Version) -> Option<Seq<char>> {
        if 3 <= version <= 13 {
            None
        } else {
            Some(v.name())
        }
    }

    fn to_chars(&self, version: Version) -> (r: Option<Vec<char>>) {
        if 3 <= version && version <= 13 {
            return None;
        }
        let mut out: Vec<char> = Vec::new();
        match self {
            OverlayPosition::NoChange => push_str(&mut out, "NoChange"),
            OverlayPosition::Below => push_str(&mut out, "Below"),
            OverlayPosition::Above => push_str(&mut out, "Above"),
        }
        assert(out@ =~= self.name());
        Some(out)
    }
}

} // verus!
