//! The `[TimingPoints]` section: timing and control points.
use vstd::prelude::*;

use crate::decimal::{parse_decimal_spec, product, quotient, Decimal};
use crate::helper::{bool_text, parse_zero_one_bool_chars, push_bool, zero_one_bool_spec};
use crate::text::{
    int_text, join, join_chars, lines, lines_of, parse_i32, parse_int_spec, parse_u8, parse_usize,
    push_int, push_nat, split, split_chars, vv, ParseIntError,
};
use crate::types::{Error, Integer, Version, VersionedFromStr, VersionedToString};

verus! {

/// Default sample set for hitobjects.
#[derive(Clone, Copy, Hash, PartialEq, Eq, Debug)]
pub enum SampleSet {
    /// The beatmap's default.
    BeatmapDefault,
    /// Normal.
    Normal,
    /// Soft.
    Soft,
    /// Drum.
    Drum,
}

/// Error reading a timing point's sample set.
#[derive(Clone, Copy, Debug, PartialEq, Eq, Hash)]
pub enum SampleSetParseError {
    /// The text is not a number.
    ValueParseError(ParseIntError),
    /// The number is not 0 to 3.
    UnknownSampleSet(usize),
}

impl SampleSet {
    /// The number of the sample set.
    pub open spec fn number(self) -> nat {
        match self {
            SampleSet::BeatmapDefault => 0,
            SampleSet::Normal => 1,
            SampleSet::Soft => 2,
            SampleSet::Drum => 3,
        }
    }

    fn number_exec(&self) -> (r: u8)
        ensures
            r == self.number(),
    {
        match self {
            SampleSet::BeatmapDefault => 0,
            SampleSet::Normal => 1,
            SampleSet::Soft => 2,
            SampleSet::Drum => 3,
        }
    }
}

/// What reading a timing point's sample set gives.
pub open spec fn sample_set_parse(s: Seq<char>) -> Result<SampleSet, SampleSetParseError> {
    match parse_int_spec(s, 0, u32::MAX as int) {
        Err(k) => Err(SampleSetParseError::ValueParseError(ParseIntError { kind: k })),
        Ok(n) => if n == 0 {
            Ok(SampleSet::BeatmapDefault)
        } else if n == 1 {
            Ok(SampleSet::Normal)
        } else if n == 2 {
            Ok(SampleSet::Soft)
        } else if n == 3 {
            Ok(SampleSet::Drum)
        } else {
            Err(SampleSetParseError::UnknownSampleSet(n as usize))
        },
    }
}

fn sample_set_parse_exec(s: &[char]) -> (r: Result<SampleSet, SampleSetParseError>)
    ensures
        r == sample_set_parse(s@),
{
    match parse_usize(s) {
        Err(e) => Err(SampleSetParseError::ValueParseError(e)),
        Ok(0) => Ok(SampleSet::BeatmapDefault),
        Ok(1) => Ok(SampleSet::Normal),
        Ok(2) => Ok(SampleSet::Soft),
        Ok(3) => Ok(SampleSet::Drum),
        Ok(n) => Err(SampleSetParseError::UnknownSampleSet(n)),
    }
}

/// Beats per minute of a beat duration in milliseconds, as `rust_decimal`
/// computes `1 / duration * 60000`; `None` where the duration is zero or a
/// step overflows.
pub open spec fn bpm_of(beat_duration_ms: Decimal) -> Option<Decimal> {
    match quotient(Decimal::make(1i128, 0), beat_duration_ms) {
        Some(q) => product(q, Decimal::make(60000i128, 0)),
        None => None,
    }
}

/// The beat duration in milliseconds of a number of beats per minute, as
/// `rust_decimal` computes `1 / (bpm / 60000)`; `None` where the bpm is zero
/// or a step overflows.
pub open spec fn beat_duration_of(bpm: Decimal) -> Option<Decimal> {
    match quotient(bpm, Decimal::make(60000i128, 0)) {
        Some(q) => quotient(Decimal::make(1i128, 0), q),
        None => None,
    }
}

/// The slider velocity multiplier of an inherited timing point's beat
/// length, as `rust_decimal` computes `1 / (beat_length / -100)`; `None`
/// where the beat length is zero or a step overflows.
pub open spec fn velocity_of(beat_length: Decimal) -> Option<Decimal> {
    match quotient(beat_length, Decimal::make(-100i128, 0)) {
        Some(q) => quotient(Decimal::make(1i128, 0), q),
        None => None,
    }
}

/// The beat length of an inherited timing point with a slider velocity
/// multiplier, as `rust_decimal` computes `1 / multiplier * -100`; `None`
/// where the multiplier is zero or a step overflows.
pub open spec fn inherited_beat_length(multiplier: Decimal) -> Option<Decimal> {
    match quotient(Decimal::make(1i128, 0), multiplier) {
        Some(q) => product(q, Decimal::make(-100i128, 0)),
        None => None,
    }
}

/// Extra effects of a timing point.
#[derive(Clone, Copy, Debug, Hash, PartialEq, Eq)]
pub struct Effects {
    /// Kiai time is on.
    pub kiai_time_enabled: bool,
    /// The first barline is not shown in osu!taiko and osu!mania.
    pub no_first_barline_in_taiko_mania: bool,
}

/// Error reading effects.
#[derive(Clone, Copy, Debug, PartialEq, Eq, Hash)]
pub struct EffectsParseError {
    /// Why the number failed to read.
    pub source: ParseIntError,
}

/// The effects of a number: kiai time is bit 0, the omitted first barline bit 3.
pub open spec fn effects_of(v: u8) -> Effects {
    Effects {
        kiai_time_enabled: (v & 1) == 1,
        no_first_barline_in_taiko_mania: ((v >> 3u8) & 1) == 1,
    }
}

/// The number written for effects: kiai time adds 1 and the omitted first
/// barline adds 8.
pub open spec fn effects_number(e: Effects) -> nat {
    (if e.kiai_time_enabled {
        1nat
    } else {
        0
    }) + (if e.no_first_barline_in_taiko_mania {
        8nat
    } else {
        0
    })
}

impl Effects {
    /// The effects of a number.
    pub fn from_u8(value: u8) -> (r: Effects)
        ensures
            r == effects_of(value),
    {
        let kiai_time_enabled = (value & 1) == 1;
        let no_first_barline_in_taiko_mania = ((value >> 3u8) & 1) == 1;
        Effects { kiai_time_enabled, no_first_barline_in_taiko_mania }
    }

    /// The number written for the effects.
    pub fn to_u8(&self) -> (r: u8)
        ensures
            r == effects_number(*self),
    {
        let mut bits: u8 = 0;
        if self.kiai_time_enabled {
            bits = bits + 1;
        }
        if self.no_first_barline_in_taiko_mania {
            bits = bits + 8;
        }
        bits
    }
}

/// Custom sample index for hitobjects.
#[derive(Debug, Clone, Copy, Hash, PartialEq, Eq)]
pub enum SampleIndex {
    /// osu!'s default hitsounds; written as 0.
    OsuDefaultHitsounds,
    /// A sample index; 0 is written for the default hitsounds instead.
    Index(usize),
}

/// Error reading a sample index: not an integer, or negative.
#[derive(Clone, Copy, Debug, PartialEq, Eq, Hash)]
pub struct SampleIndexParseError;

impl SampleIndex {
    /// The number written for the index.
    pub open spec fn number(self) -> nat {
        match self {
            SampleIndex::OsuDefaultHitsounds => 0,
            SampleIndex::Index(i) => i as nat,
        }
    }

    fn to_usize(&self) -> (r: usize)
        ensures
            r == self.number(),
    {
        match self {
            SampleIndex::OsuDefaultHitsounds => 0,
            SampleIndex::Index(i) => *i,
        }
    }
}

/// What reading a sample index gives.
pub open spec fn sample_index_parse(s: Seq<char>) -> Result<SampleIndex, SampleIndexParseError> {
    match parse_int_spec(s, i32::MIN as int, i32::MAX as int) {
        Err(_) => Err(SampleIndexParseError),
        Ok(n) => if n < 0 {
            Err(SampleIndexParseError)
        } else if n == 0 {
            Ok(SampleIndex::OsuDefaultHitsounds)
        } else {
            Ok(SampleIndex::Index(n as usize))
        },
    }
}

fn sample_index_parse_exec(s: &[char]) -> (r: Result<SampleIndex, SampleIndexParseError>)
    ensures
        r == sample_index_parse(s@),
{
    match parse_i32(s) {
        Err(_) => Err(SampleIndexParseError),
        Ok(n) => if n < 0 {
            Err(SampleIndexParseError)
        } else if n == 0 {
            Ok(SampleIndex::OsuDefaultHitsounds)
        } else {
            Ok(SampleIndex::Index(n as usize))
        },
    }
}

/// Volume percentage from 0 to 100.
#[derive(Debug, Clone, Copy, Default, PartialEq, Eq, Hash)]
pub struct Volume(u8);

/// Error setting or reading a volume.
#[derive(Clone, Copy, Debug, PartialEq, Eq, Hash)]
pub enum VolumeError {
    /// The volume is above 100.
    VolumeTooHigh(u8),
    /// The text is not a byte.
    VolumeParseError(ParseIntError),
}

impl View for Volume {
    type V = u8;

    closed spec fn view(&self) -> u8 {
        self.0
    }
}

impl Volume {
    #[verifier::type_invariant]
    closed spec fn inv(self) -> bool {
        self.0 <= 100
    }

    /// A volume of at most 100.
    pub fn new(volume: u8) -> (r: Result<Self, VolumeError>)
        ensures
            volume <= 100 ==> (r matches Ok(v) && v@ == volume),
            volume > 100 ==> r == Err::<Self, VolumeError>(VolumeError::VolumeTooHigh(volume)),
    {
        if volume > 100 {
            Err(VolumeError::VolumeTooHigh(volume))
        } else {
            Ok(Volume(volume))
        }
    }

    /// The volume percentage.
    pub fn volume(&self) -> (r: u8)
        ensures
            r == self@,
            r <= 100,
    {
        proof {
            use_type_invariant(self);
        }
        self.0
    }

    /// Sets the volume, which must be at most 100; otherwise nothing changes.
    pub fn set_volume(&mut self, volume: u8) -> (r: Result<(), VolumeError>)
        ensures
            volume <= 100 ==> r is Ok && final(self)@ == volume,
            volume > 100 ==> r == Err::<(), VolumeError>(VolumeError::VolumeTooHigh(volume))
                && final(self)@ == old(self)@,
    {
        if volume > 100 {
            Err(VolumeError::VolumeTooHigh(volume))
        } else {
            *self = Volume(volume);
            Ok(())
        }
    }
}

/// What reading a timing point's volume gives.
pub open spec fn volume_parse(s: Seq<char>) -> Result<u8, VolumeError> {
    match parse_int_spec(s, 0, 255) {
        Err(k) => Err(VolumeError::VolumeParseError(ParseIntError { kind: k })),
        Ok(v) => if v > 100 {
            Err(VolumeError::VolumeTooHigh(v as u8))
        } else {
            Ok(v as u8)
        },
    }
}

/// The fields of a timing point, in the order they are written.
#[derive(Clone, Copy, Debug, PartialEq, Eq, Hash)]
pub enum TimingPointField {
    Time,
    BeatLength,
    Meter,
    SampleSet,
    SampleIndex,
    Volume,
    Uninherited,
    Effects,
}

/// Error reading a timing point.
#[derive(Clone, Copy, Debug, PartialEq, Eq, Hash)]
pub enum TimingPointParseError {
    /// The field is missing.
    MissingField(TimingPointField),
    /// The field failed to read.
    FieldParseError(TimingPointField),
}

/// Error reading the `[TimingPoints]` section.
#[derive(Clone, Copy, Debug, PartialEq, Eq, Hash)]
pub struct TimingPointsParseError(pub TimingPointParseError);

/// A timing point: the start of a timing section.
#[derive(Clone, Copy, Hash, PartialEq, Eq, Debug)]
pub struct TimingPoint {
    time: Integer,
    beat_length: Decimal,
    meter: Integer,
    sample_set: SampleSet,
    sample_index: SampleIndex,
    volume: Volume,
    uninherited: bool,
    effects: Effects,
}

/// The view of a timing point.
pub struct TimingPointView {
    pub time: Integer,
    pub beat_length: Decimal,
    pub meter: Integer,
    pub sample_set: SampleSet,
    pub sample_index: SampleIndex,
    pub volume: u8,
    pub uninherited: bool,
    pub effects: Effects,
}

impl View for TimingPoint {
    type V = TimingPointView;

    closed spec fn view(&self) -> TimingPointView {
        TimingPointView {
            time: self.time,
            beat_length: self.beat_length,
            meter: self.meter,
            sample_set: self.sample_set,
            sample_index: self.sample_index,
            volume: self.volume@,
            uninherited: self.uninherited,
            effects: self.effects,
        }
    }
}

/// What reading a timing point gives: eight comma-separated fields, further
/// fields are ignored.
pub open spec fn timing_point_parse(s: Seq<char>) -> Result<TimingPointView, TimingPointParseError> {
    let p = split(s, ',');
    match parse_int_spec(p[0], i32::MIN as int, i32::MAX as int) {
        Err(_) => Err(TimingPointParseError::FieldParseError(TimingPointField::Time)),
        Ok(time) => if p.len() < 2 {
            Err(TimingPointParseError::MissingField(TimingPointField::BeatLength))
        } else {
            match parse_decimal_spec(p[1]) {
                None => Err(TimingPointParseError::FieldParseError(TimingPointField::BeatLength)),
                Some(beat_length) => if p.len() < 3 {
                    Err(TimingPointParseError::MissingField(TimingPointField::Meter))
                } else {
                    match parse_int_spec(p[2], i32::MIN as int, i32::MAX as int) {
                        Err(_) => Err(TimingPointParseError::FieldParseError(TimingPointField::Meter)),
                        Ok(meter) => if p.len() < 4 {
                            Err(TimingPointParseError::MissingField(TimingPointField::SampleSet))
                        } else {
                            match sample_set_parse(p[3]) {
                                Err(_) => Err(
                                    TimingPointParseError::FieldParseError(TimingPointField::SampleSet),
                                ),
                                Ok(sample_set) => if p.len() < 5 {
                                    Err(TimingPointParseError::MissingField(TimingPointField::SampleIndex))
                                } else {
                                    match sample_index_parse(p[4]) {
                                        Err(_) => Err(
                                            TimingPointParseError::FieldParseError(
                                                TimingPointField::SampleIndex,
                                            ),
                                        ),
                                        Ok(sample_index) => if p.len() < 6 {
                                            Err(TimingPointParseError::MissingField(TimingPointField::Volume))
                                        } else {
                                            match volume_parse(p[5]) {
                                                Err(_) => Err(
                                                    TimingPointParseError::FieldParseError(
                                                        TimingPointField::Volume,
                                                    ),
                                                ),
                                                Ok(volume) => if p.len() < 7 {
                                                    Err(
                                                        TimingPointParseError::MissingField(
                                                            TimingPointField::Uninherited,
                                                        ),
                                                    )
                                                } else {
                                                    match zero_one_bool_spec(p[6]) {
                                                        Err(_) => Err(
                                                            TimingPointParseError::FieldParseError(
                                                                TimingPointField::Uninherited,
                                                            ),
                                                        ),
                                                        Ok(uninherited) => if p.len() < 8 {
                                                            Err(
                                                                TimingPointParseError::MissingField(
                                                                    TimingPointField::Effects,
                                                                ),
                                                            )
                                                        } else {
                                                            match parse_int_spec(p[7], 0, 255) {
                                                                Err(_) => Err(
                                                                    TimingPointParseError::FieldParseError(
                                                                        TimingPointField::Effects,
                                                                    ),
                                                                ),
                                                                Ok(e) => Ok(
                                                                    TimingPointView {
                                                                        time: time as i32,
                                                                        beat_length,
                                                                        meter: meter as i32,
                                                                        sample_set,
                                                                        sample_index,
                                                                        volume,
                                                                        uninherited,
                                                                        effects: effects_of(e as u8),
                                                                    },
                                                                ),
                                                            }
                                                        },
                                                    }
                                                },
                                            }
                                        },
                                    }
                                },
                            }
                        },
                    }
                },
            }
        },
    }
}

/// The text of a timing point.
pub open spec fn timing_point_text(t: TimingPointView) -> Seq<char> {
    join(
        seq![
            int_text(t.time as int),
            t.beat_length.text(),
            int_text(t.meter as int),
            int_text(t.sample_set.number() as int),
            int_text(t.sample_index.number() as int),
            int_text(t.volume as int),
            bool_text(t.uninherited),
            int_text(effects_number(t.effects) as int),
        ],
        seq![','],
    )
}

impl TimingPoint {
    /// A timing point from its fields.
    pub fn new(
        time: Integer,
        beat_length: Decimal,
        meter: Integer,
        sample_set: SampleSet,
        sample_index: SampleIndex,
        volume: Volume,
        uninherited: bool,
        effects: Effects,
    ) -> (r: TimingPoint)
        ensures
            r@ == (TimingPointView {
                time,
                beat_length,
                meter,
                sample_set,
                sample_index,
                volume: volume@,
                uninherited,
                effects,
            }),
    {
        TimingPoint { time, beat_length, meter, sample_set, sample_index, volume, uninherited, effects }
    }

    /// Converts a beat duration in milliseconds to beats per minute; `None`
    /// where the duration is zero or the arithmetic overflows.
    pub fn beat_duration_ms_to_bpm(beat_duration_ms: Decimal) -> (r: Option<Decimal>)
        ensures
            r == bpm_of(beat_duration_ms),
            beat_duration_ms.is_zero_spec() ==> r is None,
    {
        let one = Decimal::from_int(1);
        match one.checked_div(&beat_duration_ms) {
            Some(q) => q.checked_mul(&Decimal::from_int(60000)),
            None => None,
        }
    }

    /// Converts beats per minute to a beat duration in milliseconds; `None`
    /// where the bpm is zero or the arithmetic overflows.
    pub fn bpm_to_beat_duration_ms(bpm: Decimal) -> (r: Option<Decimal>)
        ensures
            r == beat_duration_of(bpm),
    {
        match bpm.checked_div(&Decimal::from_int(60000)) {
            Some(q) => Decimal::from_int(1).checked_div(&q),
            None => None,
        }
    }

    /// An inherited timing point whose beat length gives the slider velocity
    /// multiplier; `None` where the multiplier is zero or the arithmetic
    /// overflows.
    pub fn new_inherited(
        time: Integer,
        slider_velocity_multiplier: Decimal,
        meter: Integer,
        sample_set: SampleSet,
        sample_index: SampleIndex,
        volume: Volume,
        effects: Effects,
    ) -> (r: Option<TimingPoint>)
        ensures
            inherited_beat_length(slider_velocity_multiplier) is None ==> r is None,
            inherited_beat_length(slider_velocity_multiplier) matches Some(b) ==> (r matches Some(t) && t@ == (
            TimingPointView {
                time,
                beat_length: b,
                meter,
                sample_set,
                sample_index,
                volume: volume@,
                uninherited: false,
                effects,
            })),
    {
        let beat_length = match Decimal::from_int(1).checked_div(&slider_velocity_multiplier) {
            Some(q) => match q.checked_mul(&Decimal::from_int(-100)) {
                Some(b) => b,
                None => return None,
            },
            None => return None,
        };
        Some(TimingPoint { time, beat_length, meter, sample_set, sample_index, volume, uninherited: false, effects })
    }

    /// Beats per minute of an uninherited timing point, from its beat length;
    /// `None` for an inherited one, or where the arithmetic fails (see
    /// `beat_duration_ms_to_bpm`).
    pub fn calc_bpm(&self) -> (r: Option<Decimal>)
        ensures
            !self@.uninherited ==> r is None,
            self@.uninherited ==> r == bpm_of(self@.beat_length),
    {
        if self.uninherited {
            TimingPoint::beat_duration_ms_to_bpm(self.beat_length)
        } else {
            None
        }
    }

    /// The slider velocity multiplier of an inherited timing point, from its
    /// beat length; `None` for an uninherited one, or where the arithmetic
    /// fails (see `velocity_of`).
    pub fn slider_velocity_multiplier(&self) -> (r: Option<Decimal>)
        ensures
            self@.uninherited ==> r is None,
            !self@.uninherited ==> r == velocity_of(self@.beat_length),
    {
        if self.uninherited {
            None
        } else {
            match self.beat_length.checked_div(&Decimal::from_int(-100)) {
                Some(q) => Decimal::from_int(1).checked_div(&q),
                None => None,
            }
        }
    }

    /// A timing point whose beat length is a beat duration in milliseconds.
    pub fn new_uninherited(
        time: Integer,
        beat_duration_ms: Decimal,
        meter: Integer,
        sample_set: SampleSet,
        sample_index: SampleIndex,
        volume: Volume,
        effects: Effects,
    ) -> (r: TimingPoint)
        ensures
            r@ == (TimingPointView {
                time,
                beat_length: beat_duration_ms,
                meter,
                sample_set,
                sample_index,
                volume: volume@,
                uninherited: true,
                effects,
            }),
    {
        TimingPoint {
            time,
            beat_length: beat_duration_ms,
            meter,
            sample_set,
            sample_index,
            volume,
            uninherited: true,
            effects,
        }
    }

    /// Start time of the timing section, in milliseconds.
    pub fn time(&self) -> (r: i32)
        ensures
            r == self@.time,
    {
        self.time
    }

    /// Sets the start time.
    pub fn set_time(&mut self, time: Integer)
        ensures
            final(self)@ == (TimingPointView { time, ..old(self)@ }),
    {
        self.time = time;
    }

    /// Beats in a measure.
    pub fn meter(&self) -> (r: i32)
        ensures
            r == self@.meter,
    {
        self.meter
    }

    /// Sets the beats in a measure.
    pub fn set_meter(&mut self, meter: Integer)
        ensures
            final(self)@ == (TimingPointView { meter, ..old(self)@ }),
    {
        self.meter = meter;
    }

    /// Default sample set for hitobjects.
    pub fn sample_set(&self) -> (r: SampleSet)
        ensures
            r == self@.sample_set,
    {
        self.sample_set
    }

    /// Sets the default sample set.
    pub fn set_sample_set(&mut self, sample_set: SampleSet)
        ensures
            final(self)@ == (TimingPointView { sample_set, ..old(self)@ }),
    {
        self.sample_set = sample_set;
    }

    /// Custom sample index for hitobjects.
    pub fn sample_index(&self) -> (r: SampleIndex)
        ensures
            r == self@.sample_index,
    {
        self.sample_index
    }

    /// Sets the custom sample index.
    pub fn set_sample_index(&mut self, sample_index: SampleIndex)
        ensures
            final(self)@ == (TimingPointView { sample_index, ..old(self)@ }),
    {
        self.sample_index = sample_index;
    }

    /// Volume percentage for hitobjects.
    pub fn volume(&self) -> (r: &Volume)
        ensures
            r@ == self@.volume,
    {
        &self.volume
    }

    /// Sets the volume.
    pub fn set_volume(&mut self, volume: Volume)
        ensures
            final(self)@ == (TimingPointView { volume: volume@, ..old(self)@ }),
    {
        self.volume = volume;
    }

    /// Whether the timing point is uninherited.
    pub fn uninherited(&self) -> (r: bool)
        ensures
            r == self@.uninherited,
    {
        self.uninherited
    }

    /// Sets whether the timing point is uninherited.
    pub fn set_uninherited(&mut self, uninherited: bool)
        ensures
            final(self)@ == (TimingPointView { uninherited, ..old(self)@ }),
    {
        self.uninherited = uninherited;
    }

    /// Extra effects.
    pub fn effects(&self) -> (r: Effects)
        ensures
            r == self@.effects,
    {
        self.effects
    }

    /// Sets the extra effects.
    pub fn set_effects(&mut self, effects: Effects)
        ensures
            final(self)@ == (TimingPointView { effects, ..old(self)@ }),
    {
        self.effects = effects;
    }

    /// The effects, to change in place.
    pub fn effects_mut(&mut self) -> (r: &mut Effects)
        ensures
            *r == old(self)@.effects,
            final(self)@ == (TimingPointView { effects: *final(r), ..old(self)@ }),
    {
        &mut self.effects
    }

    /// The sample index, to change in place.
    pub fn sample_index_mut(&mut self) -> (r: &mut SampleIndex)
        ensures
            *r == old(self)@.sample_index,
            final(self)@ == (TimingPointView { sample_index: *final(r), ..old(self)@ }),
    {
        &mut self.sample_index
    }

    /// The beat length field.
    pub fn beat_length(&self) -> (r: Decimal)
        ensures
            r == self@.beat_length,
    {
        self.beat_length
    }
}

fn field_at(p: &Vec<Vec<char>>, k: usize, field: TimingPointField) -> (r: Result<&Vec<char>, TimingPointParseError>)
    ensures
        k < p.len() ==> (r matches Ok(f) && f@ == vv(p@)[k as int]),
        k >= p.len() ==> r == Err::<&Vec<char>, TimingPointParseError>(
            TimingPointParseError::MissingField(field),
        ),
{
    if k < p.len() {
        Ok(&p[k])
    } else {
        Err(TimingPointParseError::MissingField(field))
    }
}

impl VersionedFromStr for TimingPoint {
    type Err = TimingPointParseError;

    open spec fn parse_text(s: Seq<char>, version: Version) -> Result<Option<TimingPointView>, TimingPointParseError> {
        match timing_point_parse(s) {
            Ok(t) => Ok(Some(t)),
            Err(e) => Err(e),
        }
    }

    fn from_chars(s: &[char], version: Version) -> (r: Result<Option<TimingPoint>, TimingPointParseError>) {
        let p = split_chars(s, ',');
        let f = field_at(&p, 0, TimingPointField::Time)?;
        let time = match parse_i32(f.as_slice()) {
            Ok(v) => v,
            Err(_) => return Err(TimingPointParseError::FieldParseError(TimingPointField::Time)),
        };
        let f = field_at(&p, 1, TimingPointField::BeatLength)?;
        let beat_length = match Decimal::parse(f.as_slice()) {
            Some(v) => v,
            None => return Err(TimingPointParseError::FieldParseError(TimingPointField::BeatLength)),
        };
        let f = field_at(&p, 2, TimingPointField::Meter)?;
        let meter = match parse_i32(f.as_slice()) {
            Ok(v) => v,
            Err(_) => return Err(TimingPointParseError::FieldParseError(TimingPointField::Meter)),
        };
        let f = field_at(&p, 3, TimingPointField::SampleSet)?;
        let sample_set = match sample_set_parse_exec(f.as_slice()) {
            Ok(v) => v,
            Err(_) => return Err(TimingPointParseError::FieldParseError(TimingPointField::SampleSet)),
        };
        let f = field_at(&p, 4, TimingPointField::SampleIndex)?;
        let sample_index = match sample_index_parse_exec(f.as_slice()) {
            Ok(v) => v,
            Err(_) => return Err(TimingPointParseError::FieldParseError(TimingPointField::SampleIndex)),
        };
        let f = field_at(&p, 5, TimingPointField::Volume)?;
        let volume = match parse_u8(f.as_slice()) {
            Ok(v) => match Volume::new(v) {
                Ok(v) => v,
                Err(_) => return Err(TimingPointParseError::FieldParseError(TimingPointField::Volume)),
            },
            Err(_) => return Err(TimingPointParseError::FieldParseError(TimingPointField::Volume)),
        };
        let f = field_at(&p, 6, TimingPointField::Uninherited)?;
        let uninherited = match parse_zero_one_bool_chars(f.as_slice()) {
            Ok(v) => v,
            Err(_) => return Err(TimingPointParseError::FieldParseError(TimingPointField::Uninherited)),
        };
        let f = field_at(&p, 7, TimingPointField::Effects)?;
        let effects = match parse_u8(f.as_slice()) {
            Ok(v) => Effects::from_u8(v),
            Err(_) => return Err(TimingPointParseError::FieldParseError(TimingPointField::Effects)),
        };
        Ok(Some(TimingPoint { time, beat_length, meter, sample_set, sample_index, volume, uninherited, effects }))
    }
}

impl VersionedToString for TimingPoint {
    open spec fn text_of(v: TimingPointView, version: Version) -> Option<Seq<char>> {
        Some(timing_point_text(v))
    }

    fn to_chars(&self, version: Version) -> (r: Option<Vec<char>>) {
        let mut parts: Vec<Vec<char>> = Vec::new();
        let mut t: Vec<char> = Vec::new();
        push_int(&mut t, self.time as i64);
        parts.push(t);
        let mut t: Vec<char> = Vec::new();
        self.beat_length.push_to(&mut t);
        parts.push(t);
        let mut t: Vec<char> = Vec::new();
        push_int(&mut t, self.meter as i64);
        parts.push(t);
        let mut t: Vec<char> = Vec::new();
        push_int(&mut t, self.sample_set.number_exec() as i64);
        parts.push(t);
        let mut t: Vec<char> = Vec::new();
        push_nat(&mut t, self.sample_index.to_usize() as u64);
        parts.push(t);
        let mut t: Vec<char> = Vec::new();
        push_int(&mut t, self.volume.volume() as i64);
        parts.push(t);
        let mut t: Vec<char> = Vec::new();
        push_bool(&mut t, self.uninherited);
        parts.push(t);
        let mut t: Vec<char> = Vec::new();
        push_int(&mut t, self.effects.to_u8() as i64);
        parts.push(t);
        let ghost v = self@;
        assert(vv(parts@) =~= seq![
            int_text(v.time as int),
            v.beat_length.text(),
            int_text(v.meter as int),
            int_text(v.sample_set.number() as int),
            int_text(v.sample_index.number() as int),
            int_text(v.volume as int),
            bool_text(v.uninherited),
            int_text(effects_number(v.effects) as int),
        ]);
        let s = join_chars(&parts, ",");
        proof {
            reveal_strlit(",");
            assert(","@ =~= seq![',']);
        }
        Some(s)
    }
}

/// The `[TimingPoints]` section: one timing point per line.
#[derive(Clone, Debug, Hash, PartialEq, Eq)]
pub struct TimingPoints(pub Vec<TimingPoint>);

impl View for TimingPoints {
    type V = Seq<TimingPointView>;

    open spec fn view(&self) -> Seq<TimingPointView> {
        self.0@.map_values(|t: TimingPoint| t@)
    }
}

/// Reads the non-empty lines, each as a timing point; the error carries the
/// index of the line that failed.
pub open spec fn timing_lines_parse(ls: Seq<Seq<char>>) -> Result<Seq<TimingPointView>, Error<TimingPointsParseError>>
    decreases ls.len(),
{
    if ls.len() == 0 {
        Ok(Seq::empty())
    } else {
        match timing_lines_parse(ls.drop_last()) {
            Err(e) => Err(e),
            Ok(prev) => if ls.last().len() == 0 {
                Ok(prev)
            } else {
                match timing_point_parse(ls.last()) {
                    Ok(t) => Ok(prev.push(t)),
                    Err(e) => Err(Error { line_index: (ls.len() - 1) as usize, error: TimingPointsParseError(e) }),
                }
            },
        }
    }
}

proof fn lemma_timing_lines_err(ls: Seq<Seq<char>>, k: int)
    requires
        0 <= k <= ls.len(),
        timing_lines_parse(ls.take(k)) is Err,
    ensures
        timing_lines_parse(ls) == timing_lines_parse(ls.take(k)),
    decreases ls.len() - k,
{
    if k < ls.len() {
        assert(ls.take(k + 1).drop_last() == ls.take(k));
        lemma_timing_lines_err(ls, k + 1);
    } else {
        assert(ls.take(k) == ls);
    }
}

impl VersionedFromStr for TimingPoints {
    type Err = Error<TimingPointsParseError>;

    open spec fn parse_text(s: Seq<char>, version: Version) -> Result<Option<Seq<TimingPointView>>, Error<TimingPointsParseError>> {
        match timing_lines_parse(lines(s)) {
            Ok(v) => Ok(Some(v)),
            Err(e) => Err(e),
        }
    }

    fn from_chars(s: &[char], version: Version) -> (r: Result<Option<TimingPoints>, Error<TimingPointsParseError>>) {
        let ls = lines_of(s);
        let mut tps: Vec<TimingPoint> = Vec::new();
        let mut i: usize = 0;
        assert(vv(ls@).take(0) =~= Seq::<Seq<char>>::empty());
        assert(tps@.map_values(|t: TimingPoint| t@) =~= Seq::<TimingPointView>::empty());
        while i < ls.len()
            invariant
                i <= ls.len(),
                vv(ls@) == lines(s@),
                timing_lines_parse(vv(ls@).take(i as int)) == Ok::<
                    Seq<TimingPointView>,
                    Error<TimingPointsParseError>,
                >(tps@.map_values(|t: TimingPoint| t@)),
            decreases ls.len() - i,
        {
            assert(vv(ls@).take(i + 1).drop_last() == vv(ls@).take(i as int));
            assert(vv(ls@).take(i + 1).last() == ls@[i as int]@);
            if ls[i].len() > 0 {
                match TimingPoint::from_chars(ls[i].as_slice(), version) {
                    Ok(Some(t)) => {
                        let ghost before = tps@;
                        tps.push(t);
                        assert(tps@.map_values(|t: TimingPoint| t@) =~= before.map_values(
                            |t: TimingPoint| t@,
                        ).push(t@));
                    },
                    Ok(None) => {},
                    Err(e) => {
                        let err = Error { line_index: i, error: TimingPointsParseError(e) };
                        proof {
                            assert(timing_lines_parse(vv(ls@).take(i + 1)) == Err::<
                                Seq<TimingPointView>,
                                Error<TimingPointsParseError>,
                            >(err));
                            lemma_timing_lines_err(vv(ls@), i + 1);
                        }
                        return Err(err);
                    },
                }
            }
            i = i + 1;
        }
        assert(vv(ls@).take(ls@.len() as int) == vv(ls@));
        Ok(Some(TimingPoints(tps)))
    }
}

impl VersionedToString for TimingPoints {
    open spec fn text_of(v: Seq<TimingPointView>, version: Version) -> Option<Seq<char>> {
        Some(join(v.map_values(|t: TimingPointView| timing_point_text(t)), seq!['\n']))
    }

    fn to_chars(&self, version: Version) -> (r: Option<Vec<char>>) {
        let mut ls: Vec<Vec<char>> = Vec::new();
        let mut i: usize = 0;
        while i < self.0.len()
            invariant
                i <= self.0.len(),
                ls@.len() == i,
                forall|j: int| 0 <= j < i ==> (#[trigger] ls@[j])@ == timing_point_text(self.0@[j]@),
            decreases self.0.len() - i,
        {
            let t = self.0[i].to_chars(version).unwrap();
            ls.push(t);
            i = i + 1;
        }
        assert(vv(ls@) =~= self@.map_values(|t: TimingPointView| timing_point_text(t)));
        let s = join_chars(&ls, "\n");
        proof {
            reveal_strlit("\n");
            assert("\n"@ =~= seq!['\n']);
        }
        Some(s)
    }
}

} // verus!
