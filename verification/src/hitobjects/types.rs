//! The parts that hitobjects are made of: combo skip counts, sample sets,
//! volumes, hitsounds, hitsamples, curve types and curve points.
use vstd::prelude::*;

use crate::helper::nth_bit_state_i64;
use crate::hitobjects::error::{
    ColonSetParseError, ComboSkipCountTooHigh, ParseCurveTypeError, ParseHitSampleError,
    ParseHitSoundError, ParseSampleSetError, ParseVolumeError, VolumeSetError,
};
use crate::text::{
    int_text, parse_i32, parse_int_spec, parse_u8, parse_usize, push_int, push_nat, split,
    split_chars, starts_with_str, string_from_chars, push_str, vv, ParseIntError,
};
use crate::types::{Position, Version, VersionedFromStr, VersionedToString};

verus! {

/// A 3-bit count of combo colours to skip.
#[derive(Clone, Copy, Debug, Default, Hash, PartialEq, Eq)]
pub struct ComboSkipCount(u8);

impl View for ComboSkipCount {
    type V = u8;

    closed spec fn view(&self) -> u8 {
        self.0
    }
}

impl ComboSkipCount {
    #[verifier::type_invariant]
    closed spec fn inv(self) -> bool {
        self.0 <= 7
    }

    /// A count of at most 7.
    pub fn new(count: u8) -> (r: Result<Self, ComboSkipCountTooHigh>)
        ensures
            count <= 7 ==> (r matches Ok(c) && c@ == count),
            count > 7 ==> r == Err::<Self, ComboSkipCountTooHigh>(ComboSkipCountTooHigh(count)),
    {
        if count > 7 {
            Err(ComboSkipCountTooHigh(count))
        } else {
            Ok(ComboSkipCount(count))
        }
    }

    /// The count.
    pub fn get(&self) -> (r: u8)
        ensures
            r == self@,
            r <= 7,
    {
        proof {
            use_type_invariant(self);
        }
        self.0
    }

    /// Sets the count, which must be at most 7; otherwise nothing changes.
    pub fn set(&mut self, count: u8) -> (r: Result<(), ComboSkipCountTooHigh>)
        ensures
            count <= 7 ==> r is Ok && final(self)@ == count,
            count > 7 ==> r == Err::<(), ComboSkipCountTooHigh>(ComboSkipCountTooHigh(count))
                && final(self)@ == old(self)@,
    {
        let new_self = Self::new(count)?;
        *self = new_self;
        Ok(())
    }
}

/// Sample set used for the normal sound and the additions.
#[derive(Clone, Copy, Debug, PartialEq, Eq, Hash)]
pub enum SampleSet {
    /// No custom sample set.
    NoCustomSampleSet,
    /// Normal set.
    NormalSet,
    /// Soft set.
    SoftSet,
    /// Drum set.
    DrumSet,
}

impl View for SampleSet {
    type V = SampleSet;

    open spec fn view(&self) -> SampleSet {
        *self
    }
}

impl SampleSet {
    /// The number of the sample set.
    pub open spec fn number(self) -> nat {
        match self {
            SampleSet::NoCustomSampleSet => 0,
            SampleSet::NormalSet => 1,
            SampleSet::SoftSet => 2,
            SampleSet::DrumSet => 3,
        }
    }

    /// The sample set with the given number.
    pub open spec fn from_number(n: int) -> Option<SampleSet> {
        if n == 0 {
            Some(SampleSet::NoCustomSampleSet)
        } else if n == 1 {
            Some(SampleSet::NormalSet)
        } else if n == 2 {
            Some(SampleSet::SoftSet)
        } else if n == 3 {
            Some(SampleSet::DrumSet)
        } else {
            None
        }
    }

    fn number_exec(&self) -> (r: u8)
        ensures
            r == self.number(),
    {
        match self {
            SampleSet::NoCustomSampleSet => 0,
            SampleSet::NormalSet => 1,
            SampleSet::SoftSet => 2,
            SampleSet::DrumSet => 3,
        }
    }
}

impl Default for SampleSet {
    fn default() -> (r: Self)
        ensures
            r == SampleSet::NoCustomSampleSet,
    {
        SampleSet::NoCustomSampleSet
    }
}

impl VersionedToString for SampleSet {
    open spec fn text_of(v: SampleSet, version: Version) -> Option<Seq<char>> {
        Some(int_text(v.number() as int))
    }

    fn to_chars(&self, version: Version) -> (r: Option<Vec<char>>) {
        let mut out: Vec<char> = Vec::new();
        push_int(&mut out, self.number_exec() as i64);
        assert(out@ =~= int_text(self.number() as int));
        Some(out)
    }
}

impl VersionedFromStr for SampleSet {
    type Err = ParseSampleSetError;

    open spec fn parse_text(s: Seq<char>, version: Version) -> Result<Option<SampleSet>, ParseSampleSetError> {
        match parse_int_spec(s, 0, u32::MAX as int) {
            Err(k) => Err(ParseSampleSetError::ParseValueError(ParseIntError { kind: k })),
            Ok(n) => match SampleSet::from_number(n) {
                Some(v) => Ok(Some(v)),
                None => Err(ParseSampleSetError::UnknownVariant),
            },
        }
    }

    fn from_chars(s: &[char], version: Version) -> (r: Result<Option<SampleSet>, ParseSampleSetError>) {
        match parse_usize(s) {
            Err(e) => Err(ParseSampleSetError::ParseValueError(e)),
            Ok(0) => Ok(Some(SampleSet::NoCustomSampleSet)),
            Ok(1) => Ok(Some(SampleSet::NormalSet)),
            Ok(2) => Ok(Some(SampleSet::SoftSet)),
            Ok(3) => Ok(Some(SampleSet::DrumSet)),
            Ok(_) => Err(ParseSampleSetError::UnknownVariant),
        }
    }
}

/// Volume of a sample from 1 to 100, or none to use the timing point's volume.
#[derive(Clone, Copy, Debug, Default, Hash, PartialEq, Eq)]
pub struct Volume(Option<u8>);

impl View for Volume {
    type V = Option<u8>;

    closed spec fn view(&self) -> Option<u8> {
        self.0
    }
}

impl Volume {
    #[verifier::type_invariant]
    closed spec fn inv(self) -> bool {
        self.0 matches Some(v) ==> 1 <= v <= 100
    }

    /// The number written for the volume: 0 for the timing point's volume.
    pub open spec fn number(v: Option<u8>) -> int {
        match v {
            Some(v) => v as int,
            None => 0,
        }
    }

    /// A volume from 1 to 100, or none to use the timing point's volume.
    pub fn new(volume: Option<u8>) -> (r: Result<Volume, VolumeSetError>)
        ensures
            volume matches Some(v) && v == 0 ==> r == Err::<Volume, VolumeSetError>(
                VolumeSetError::VolumeTooLow,
            ),
            volume matches Some(v) && v > 100 ==> r == Err::<Volume, VolumeSetError>(
                VolumeSetError::VolumeTooHigh,
            ),
            (volume matches Some(v) && 1 <= v <= 100) || volume is None ==> (r matches Ok(x)
                && x@ == volume),
    {
        if let Some(v) = volume {
            if v == 0 {
                Err(VolumeSetError::VolumeTooLow)
            } else if v > 100 {
                Err(VolumeSetError::VolumeTooHigh)
            } else {
                Ok(Volume(Some(v)))
            }
        } else {
            Ok(Volume(None))
        }
    }

    /// The volume, or `None` where the timing point's volume is used.
    pub fn volume(&self) -> (r: Option<u8>)
        ensures
            r == self@,
            r matches Some(v) ==> 1 <= v <= 100,
    {
        proof {
            use_type_invariant(self);
        }
        self.0
    }

    /// Sets the volume, which must be from 1 to 100; otherwise nothing changes.
    pub fn set_volume(&mut self, volume: u8) -> (r: Result<(), VolumeSetError>)
        ensures
            volume == 0 ==> r == Err::<(), VolumeSetError>(VolumeSetError::VolumeTooLow)
                && final(self)@ == old(self)@,
            volume > 100 ==> r == Err::<(), VolumeSetError>(VolumeSetError::VolumeTooHigh)
                && final(self)@ == old(self)@,
            1 <= volume <= 100 ==> r is Ok && final(self)@ == Some(volume),
    {
        if volume == 0 {
            Err(VolumeSetError::VolumeTooLow)
        } else if volume > 100 {
            Err(VolumeSetError::VolumeTooHigh)
        } else {
            *self = Volume(Some(volume));
            Ok(())
        }
    }

    /// Whether the timing point's volume is used.
    pub fn use_timing_point_volume(&self) -> (r: bool)
        ensures
            r == (self@ is None),
    {
        self.0.is_none()
    }

    /// Uses the timing point's volume from now on.
    pub fn set_use_timing_point_volume(&mut self)
        ensures
            final(self)@ is None,
    {
        *self = Volume(None);
    }

    fn number_exec(&self) -> (r: i64)
        ensures
            r == Volume::number(self@),
    {
        match self.0 {
            Some(v) => v as i64,
            None => 0,
        }
    }
}

/// What reading a volume gives: 0 stands for the timing point's volume.
pub open spec fn volume_parse(s: Seq<char>) -> Result<Option<u8>, ParseVolumeError> {
    match parse_int_spec(s, 0, u8::MAX as int) {
        Err(k) => Err(ParseVolumeError::ParseIntError(ParseIntError { kind: k })),
        Ok(v) => if v == 0 {
            Ok(None)
        } else if v > 100 {
            Err(ParseVolumeError::VolumeSetError(VolumeSetError::VolumeTooHigh))
        } else {
            Ok(Some(v as u8))
        },
    }
}

impl VersionedFromStr for Volume {
    type Err = ParseVolumeError;

    open spec fn parse_text(s: Seq<char>, version: Version) -> Result<Option<Option<u8>>, ParseVolumeError> {
        match volume_parse(s) {
            Ok(v) => Ok(Some(v)),
            Err(e) => Err(e),
        }
    }

    fn from_chars(s: &[char], version: Version) -> (r: Result<Option<Volume>, ParseVolumeError>) {
        match parse_u8(s) {
            Err(e) => Err(ParseVolumeError::ParseIntError(e)),
            Ok(v) => {
                let v = if v == 0 {
                    None
                } else {
                    Some(v)
                };
                match Volume::new(v) {
                    Ok(x) => Ok(Some(x)),
                    Err(e) => Err(ParseVolumeError::VolumeSetError(e)),
                }
            },
        }
    }
}

impl VersionedToString for Volume {
    open spec fn text_of(v: Option<u8>, version: Version) -> Option<Seq<char>> {
        Some(int_text(Volume::number(v)))
    }

    fn to_chars(&self, version: Version) -> (r: Option<Vec<char>>) {
        let mut out: Vec<char> = Vec::new();
        push_int(&mut out, self.number_exec());
        assert(out@ =~= int_text(Volume::number(self@)));
        Some(out)
    }
}

/// Which sounds play when an object is hit.
#[derive(Clone, Copy, Debug, Default, Hash, PartialEq, Eq)]
pub struct HitSound {
    normal: bool,
    whistle: bool,
    finish: bool,
    clap: bool,
}

/// The four flags of a hitsound: normal, whistle, finish, clap.
pub type HitSoundFlags = (bool, bool, bool, bool);

impl View for HitSound {
    type V = HitSoundFlags;

    closed spec fn view(&self) -> HitSoundFlags {
        (self.normal, self.whistle, self.finish, self.clap)
    }
}

/// The bit mask of the hitsound flags.
pub open spec fn hitsound_mask(f: HitSoundFlags) -> nat {
    (if f.0 {
        1nat
    } else {
        0
    }) + (if f.1 {
        2nat
    } else {
        0
    }) + (if f.2 {
        4nat
    } else {
        0
    }) + (if f.3 {
        8nat
    } else {
        0
    })
}

/// The flags held in the low four bits of a byte.
pub open spec fn hitsound_flags(v: u8) -> HitSoundFlags {
    ((v & 1) == 1, ((v >> 1u8) & 1) == 1, ((v >> 2u8) & 1) == 1, ((v >> 3u8) & 1) == 1)
}

impl HitSound {
    /// A hitsound with the given flags.
    pub fn new(normal: bool, whistle: bool, finish: bool, clap: bool) -> (r: Self)
        ensures
            r@ == (normal, whistle, finish, clap),
    {
        HitSound { normal, whistle, finish, clap }
    }

    /// The `normal` flag; also `true` where no flag is set.
    pub fn normal(&self) -> (r: bool)
        ensures
            r == (self@.0 || (!self@.1 && !self@.2 && !self@.3)),
    {
        if !self.normal && !self.whistle && !self.finish && !self.clap {
            true
        } else {
            self.normal
        }
    }

    /// The `whistle` flag.
    pub fn whistle(&self) -> (r: bool)
        ensures
            r == self@.1,
    {
        self.whistle
    }

    /// The `finish` flag.
    pub fn finish(&self) -> (r: bool)
        ensures
            r == self@.2,
    {
        self.finish
    }

    /// The `clap` flag.
    pub fn clap(&self) -> (r: bool)
        ensures
            r == self@.3,
    {
        self.clap
    }

    /// Sets the `normal` flag.
    pub fn set_normal(&mut self, normal: bool)
        ensures
            final(self)@ == (normal, old(self)@.1, old(self)@.2, old(self)@.3),
    {
        self.normal = normal;
    }

    /// Sets the `whistle` flag.
    pub fn set_whistle(&mut self, whistle: bool)
        ensures
            final(self)@ == (old(self)@.0, whistle, old(self)@.2, old(self)@.3),
    {
        self.whistle = whistle;
    }

    /// Sets the `finish` flag.
    pub fn set_finish(&mut self, finish: bool)
        ensures
            final(self)@ == (old(self)@.0, old(self)@.1, finish, old(self)@.3),
    {
        self.finish = finish;
    }

    /// Sets the `clap` flag.
    pub fn set_clap(&mut self, clap: bool)
        ensures
            final(self)@ == (old(self)@.0, old(self)@.1, old(self)@.2, clap),
    {
        self.clap = clap;
    }

    /// The hitsound whose flags are the low four bits of `value`.
    pub fn from_u8(value: u8) -> (r: Self)
        ensures
            r@ == hitsound_flags(value),
    {
        let normal = nth_bit_state_i64(value as i64, 0);
        let whistle = nth_bit_state_i64(value as i64, 1);
        let finish = nth_bit_state_i64(value as i64, 2);
        let clap = nth_bit_state_i64(value as i64, 3);
        assert(((value as i64) >> 0u8) & 1 == 1 <==> (value & 1) == 1) by (bit_vector);
        assert(((value as i64) >> 1u8) & 1 == 1 <==> ((value >> 1u8) & 1) == 1) by (bit_vector);
        assert(((value as i64) >> 2u8) & 1 == 1 <==> ((value >> 2u8) & 1) == 1) by (bit_vector);
        assert(((value as i64) >> 3u8) & 1 == 1 <==> ((value >> 3u8) & 1) == 1) by (bit_vector);
        HitSound { normal, whistle, finish, clap }
    }

    /// The bit mask of the flags.
    pub fn mask(&self) -> (r: u8)
        ensures
            r == hitsound_mask(self@),
    {
        let mut m: u8 = 0;
        if self.normal {
            m = m + 1;
        }
        if self.whistle {
            m = m + 2;
        }
        if self.finish {
            m = m + 4;
        }
        if self.clap {
            m = m + 8;
        }
        m
    }
}

impl VersionedToString for HitSound {
    open spec fn text_of(v: HitSoundFlags, version: Version) -> Option<Seq<char>> {
        Some(int_text(hitsound_mask(v) as int))
    }

    fn to_chars(&self, version: Version) -> (r: Option<Vec<char>>) {
        let mut out: Vec<char> = Vec::new();
        push_int(&mut out, self.mask() as i64);
        assert(out@ =~= int_text(hitsound_mask(self@) as int));
        Some(out)
    }
}

impl VersionedFromStr for HitSound {
    type Err = ParseHitSoundError;

    open spec fn parse_text(s: Seq<char>, version: Version) -> Result<Option<HitSoundFlags>, ParseHitSoundError> {
        match parse_int_spec(s, 0, u8::MAX as int) {
            Err(k) => Err(ParseHitSoundError::ParseIntError(ParseIntError { kind: k })),
            Ok(v) => Ok(Some(hitsound_flags(v as u8))),
        }
    }

    fn from_chars(s: &[char], version: Version) -> (r: Result<Option<HitSound>, ParseHitSoundError>) {
        match parse_u8(s) {
            Err(e) => Err(ParseHitSoundError::ParseIntError(e)),
            Ok(v) => Ok(Some(HitSound::from_u8(v))),
        }
    }
}

/// The shape of the curve of a slider.
#[derive(Clone, Copy, Debug, PartialEq, Eq, Hash)]
pub enum CurveType {
    /// Bézier curve.
    Bezier,
    /// Centripetal catmull-rom curve.
    Centripetal,
    /// Linear curve.
    Linear,
    /// Perfect circle curve.
    PerfectCircle,
}

impl View for CurveType {
    type V = CurveType;

    open spec fn view(&self) -> CurveType {
        *self
    }
}

impl CurveType {
    /// The letter of the curve type.
    pub open spec fn letter(self) -> char {
        match self {
            CurveType::Bezier => 'B',
            CurveType::Centripetal => 'C',
            CurveType::Linear => 'L',
            CurveType::PerfectCircle => 'P',
        }
    }
}

/// The full name of a curve type, which is read as well as its letter.
pub open spec fn curve_type_name(c: CurveType) -> Seq<char> {
    match c {
        CurveType::Bezier => seq!['B', 'e', 'z', 'i', 'e', 'r'],
        CurveType::Centripetal => seq!['C', 'e', 'n', 't', 'r', 'i', 'p', 'e', 't', 'a', 'l'],
        CurveType::Linear => seq!['L', 'i', 'n', 'e', 'a', 'r'],
        CurveType::PerfectCircle => seq!['P', 'e', 'r', 'f', 'e', 'c', 't', 'C', 'i', 'r', 'c', 'l', 'e'],
    }
}

/// The curve type written as `s`: its letter, which is what is written, or
/// its full name.
pub open spec fn curve_type_parse(s: Seq<char>) -> Result<Option<CurveType>, ParseCurveTypeError> {
    if s == seq!['B'] || s == curve_type_name(CurveType::Bezier) {
        Ok(Some(CurveType::Bezier))
    } else if s == seq!['C'] || s == curve_type_name(CurveType::Centripetal) {
        Ok(Some(CurveType::Centripetal))
    } else if s == seq!['L'] || s == curve_type_name(CurveType::Linear) {
        Ok(Some(CurveType::Linear))
    } else if s == seq!['P'] || s == curve_type_name(CurveType::PerfectCircle) {
        Ok(Some(CurveType::PerfectCircle))
    } else {
        Err(ParseCurveTypeError::UnknownVariant)
    }
}

impl VersionedFromStr for CurveType {
    type Err = ParseCurveTypeError;

    open spec fn parse_text(s: Seq<char>, version: Version) -> Result<Option<CurveType>, ParseCurveTypeError> {
        curve_type_parse(s)
    }

    fn from_chars(s: &[char], version: Version) -> (r: Result<Option<CurveType>, ParseCurveTypeError>) {
        if s.len() == 1 {
            let c = s[0];
            assert(s@ == seq![c]);
            assert(s@.len() != curve_type_name(CurveType::Bezier).len());
            assert(s@.len() != curve_type_name(CurveType::Centripetal).len());
            assert(s@.len() != curve_type_name(CurveType::Linear).len());
            assert(s@.len() != curve_type_name(CurveType::PerfectCircle).len());
            return if c == 'B' {
                Ok(Some(CurveType::Bezier))
            } else if c == 'C' {
                Ok(Some(CurveType::Centripetal))
            } else if c == 'L' {
                Ok(Some(CurveType::Linear))
            } else if c == 'P' {
                Ok(Some(CurveType::PerfectCircle))
            } else {
                assert(s@ != seq!['B'] && s@ != seq!['C'] && s@ != seq!['L'] && s@ != seq!['P']);
                Err(ParseCurveTypeError::UnknownVariant)
            };
        }
        assert(s@ != seq!['B'] && s@ != seq!['C'] && s@ != seq!['L'] && s@ != seq!['P']);
        proof {
            reveal_strlit("Bezier");
            reveal_strlit("Centripetal");
            reveal_strlit("Linear");
            reveal_strlit("PerfectCircle");
            assert("Bezier"@ =~= curve_type_name(CurveType::Bezier));
            assert("Centripetal"@ =~= curve_type_name(CurveType::Centripetal));
            assert("Linear"@ =~= curve_type_name(CurveType::Linear));
            assert("PerfectCircle"@ =~= curve_type_name(CurveType::PerfectCircle));
        }
        if crate::text::chars_eq(s, crate::text::chars_of("Bezier").as_slice()) {
            Ok(Some(CurveType::Bezier))
        } else if crate::text::chars_eq(s, crate::text::chars_of("Centripetal").as_slice()) {
            Ok(Some(CurveType::Centripetal))
        } else if crate::text::chars_eq(s, crate::text::chars_of("Linear").as_slice()) {
            Ok(Some(CurveType::Linear))
        } else if crate::text::chars_eq(s, crate::text::chars_of("PerfectCircle").as_slice()) {
            Ok(Some(CurveType::PerfectCircle))
        } else {
            Err(ParseCurveTypeError::UnknownVariant)
        }
    }
}

impl VersionedToString for CurveType {
    open spec fn text_of(v: CurveType, version: Version) -> Option<Seq<char>> {
        Some(seq![v.letter()])
    }

    fn to_chars(&self, version: Version) -> (r: Option<Vec<char>>) {
        let c = match self {
            CurveType::Bezier => 'B',
            CurveType::Centripetal => 'C',
            CurveType::Linear => 'L',
            CurveType::PerfectCircle => 'P',
        };
        let mut out: Vec<char> = Vec::new();
        out.push(c);
        assert(out@ =~= seq![self.letter()]);
        Some(out)
    }
}

/// Reads a `first:second` pair of parts.
pub open spec fn colon_pair(s: Seq<char>) -> Result<(Seq<char>, Seq<char>), ColonSetParseError> {
    let p = split(s, ':');
    if p.len() > 2 {
        Err(ColonSetParseError::MoreThanTwoItems)
    } else if p.len() < 2 {
        Err(ColonSetParseError::MissingSecondItem)
    } else {
        Ok((p[0], p[1]))
    }
}

fn colon_pair_exec(s: &[char]) -> (r: Result<(Vec<char>, Vec<char>), ColonSetParseError>)
    ensures
        match (r, colon_pair(s@)) {
            (Ok((a, b)), Ok((c, d))) => a@ == c && b@ == d,
            (Err(a), Err(b)) => a == b,
            _ => false,
        },
{
    let mut p = split_chars(s, ':');
    if p.len() > 2 {
        return Err(ColonSetParseError::MoreThanTwoItems);
    }
    if p.len() < 2 {
        return Err(ColonSetParseError::MissingSecondItem);
    }
    assert(vv(p@)[0] == p@[0]@ && vv(p@)[1] == p@[1]@);
    let b = p.pop().unwrap();
    let a = p.pop().unwrap();
    Ok((a, b))
}

/// Sample sets of the normal sound and of the additions, used for the edges of sliders.
#[derive(Clone, Copy, Debug, PartialEq, Eq, Default, Hash)]
pub struct EdgeSet {
    /// Sample set of the normal sound.
    pub normal_set: SampleSet,
    /// Sample set of the whistle, finish and clap sounds.
    pub addition_set: SampleSet,
}

impl View for EdgeSet {
    type V = EdgeSet;

    open spec fn view(&self) -> EdgeSet {
        *self
    }
}

/// What reading an edge set gives.
pub open spec fn edge_set_parse(s: Seq<char>) -> Result<EdgeSet, ColonSetParseError> {
    match colon_pair(s) {
        Err(e) => Err(e),
        Ok((a, b)) => match (SampleSet::parse_text(a, 0), SampleSet::parse_text(b, 0)) {
            (Ok(Some(n)), Ok(Some(m))) => Ok(EdgeSet { normal_set: n, addition_set: m }),
            (Ok(_), _) => Err(ColonSetParseError::InvalidSecondItem),
            _ => Err(ColonSetParseError::InvalidFirstItem),
        },
    }
}

impl VersionedFromStr for EdgeSet {
    type Err = ColonSetParseError;

    open spec fn parse_text(s: Seq<char>, version: Version) -> Result<Option<EdgeSet>, ColonSetParseError> {
        match edge_set_parse(s) {
            Ok(e) => Ok(Some(e)),
            Err(e) => Err(e),
        }
    }

    fn from_chars(s: &[char], version: Version) -> (r: Result<Option<EdgeSet>, ColonSetParseError>) {
        let (a, b) = colon_pair_exec(s)?;
        let n = match SampleSet::from_chars(a.as_slice(), 0) {
            Ok(Some(n)) => n,
            _ => return Err(ColonSetParseError::InvalidFirstItem),
        };
        let m = match SampleSet::from_chars(b.as_slice(), 0) {
            Ok(Some(m)) => m,
            _ => return Err(ColonSetParseError::InvalidSecondItem),
        };
        Ok(Some(EdgeSet { normal_set: n, addition_set: m }))
    }
}

impl VersionedToString for EdgeSet {
    open spec fn text_of(v: EdgeSet, version: Version) -> Option<Seq<char>> {
        Some(int_text(v.normal_set.number() as int) + seq![':'] + int_text(
            v.addition_set.number() as int,
        ))
    }

    fn to_chars(&self, version: Version) -> (r: Option<Vec<char>>) {
        let mut out: Vec<char> = Vec::new();
        push_int(&mut out, self.normal_set.number_exec() as i64);
        out.push(':');
        push_int(&mut out, self.addition_set.number_exec() as i64);
        assert(out@ =~= int_text(self.normal_set.number() as int) + seq![':'] + int_text(
            self.addition_set.number() as int,
        ));
        Some(out)
    }
}

/// An anchor point of a slider's curve.
#[derive(Clone, Copy, Debug, Default, PartialEq, Eq, Hash)]
pub struct CurvePoint(pub Position);

impl View for CurvePoint {
    type V = CurvePoint;

    open spec fn view(&self) -> CurvePoint {
        *self
    }
}

/// What reading a curve point gives.
pub open spec fn curve_point_parse(s: Seq<char>) -> Result<CurvePoint, ColonSetParseError> {
    match colon_pair(s) {
        Err(e) => Err(e),
        Ok((a, b)) => match (
            parse_int_spec(a, i32::MIN as int, i32::MAX as int),
            parse_int_spec(b, i32::MIN as int, i32::MAX as int),
        ) {
            (Ok(x), Ok(y)) => Ok(CurvePoint(Position { x: x as i32, y: y as i32 })),
            (Ok(_), _) => Err(ColonSetParseError::InvalidSecondItem),
            _ => Err(ColonSetParseError::InvalidFirstItem),
        },
    }
}

impl VersionedFromStr for CurvePoint {
    type Err = ColonSetParseError;

    open spec fn parse_text(s: Seq<char>, version: Version) -> Result<Option<CurvePoint>, ColonSetParseError> {
        match curve_point_parse(s) {
            Ok(e) => Ok(Some(e)),
            Err(e) => Err(e),
        }
    }

    fn from_chars(s: &[char], version: Version) -> (r: Result<Option<CurvePoint>, ColonSetParseError>) {
        let (a, b) = colon_pair_exec(s)?;
        let x = match parse_i32(a.as_slice()) {
            Ok(x) => x,
            Err(_) => return Err(ColonSetParseError::InvalidFirstItem),
        };
        let y = match parse_i32(b.as_slice()) {
            Ok(y) => y,
            Err(_) => return Err(ColonSetParseError::InvalidSecondItem),
        };
        Ok(Some(CurvePoint(Position { x, y })))
    }
}

impl VersionedToString for CurvePoint {
    open spec fn text_of(v: CurvePoint, version: Version) -> Option<Seq<char>> {
        Some(int_text(v.0.x as int) + seq![':'] + int_text(v.0.y as int))
    }

    fn to_chars(&self, version: Version) -> (r: Option<Vec<char>>) {
        let mut out: Vec<char> = Vec::new();
        push_int(&mut out, self.0.x as i64);
        out.push(':');
        push_int(&mut out, self.0.y as i64);
        assert(out@ =~= int_text(self.0.x as int) + seq![':'] + int_text(self.0.y as int));
        Some(out)
    }
}

/// Index of a custom sample, or the timing point's sample index.
#[derive(Clone, Copy, Debug, Hash, PartialEq, Eq)]
pub enum SampleIndex {
    /// The timing point's sample index is used; written as 0.
    TimingPointSampleIndex,
    /// A custom sample index; 0 is written for the timing point's index instead.
    Index(usize),
}

impl View for SampleIndex {
    type V = SampleIndex;

    open spec fn view(&self) -> SampleIndex {
        *self
    }
}

impl SampleIndex {
    /// The number written for the index.
    pub open spec fn number(self) -> nat {
        match self {
            SampleIndex::TimingPointSampleIndex => 0,
            SampleIndex::Index(i) => i as nat,
        }
    }

    /// The index for a number: 0 is the timing point's index.
    pub open spec fn from_number(n: nat) -> SampleIndex {
        if n == 0 {
            SampleIndex::TimingPointSampleIndex
        } else {
            SampleIndex::Index(n as usize)
        }
    }

    /// The index for a number: 0 is the timing point's index.
    pub fn from_usize(n: usize) -> (r: SampleIndex)
        ensures
            r == SampleIndex::from_number(n as nat),
    {
        if n == 0 {
            SampleIndex::TimingPointSampleIndex
        } else {
            SampleIndex::Index(n)
        }
    }

    /// The number written for the index.
    pub fn to_usize(&self) -> (r: usize)
        ensures
            r == self.number(),
    {
        match self {
            SampleIndex::TimingPointSampleIndex => 0,
            SampleIndex::Index(i) => *i,
        }
    }
}

impl VersionedFromStr for SampleIndex {
    type Err = ParseIntError;

    open spec fn parse_text(s: Seq<char>, version: Version) -> Result<Option<SampleIndex>, ParseIntError> {
        match parse_int_spec(s, 0, u32::MAX as int) {
            Err(k) => Err(ParseIntError { kind: k }),
            Ok(n) => Ok(Some(SampleIndex::from_number(n as nat))),
        }
    }

    fn from_chars(s: &[char], version: Version) -> (r: Result<Option<SampleIndex>, ParseIntError>) {
        match parse_usize(s) {
            Err(e) => Err(e),
            Ok(n) => Ok(Some(SampleIndex::from_usize(n))),
        }
    }
}

impl VersionedToString for SampleIndex {
    open spec fn text_of(v: SampleIndex, version: Version) -> Option<Seq<char>> {
        Some(int_text(v.number() as int))
    }

    fn to_chars(&self, version: Version) -> (r: Option<Vec<char>>) {
        let mut out: Vec<char> = Vec::new();
        push_nat(&mut out, self.to_usize() as u64);
        assert(out@ =~= int_text(self.number() as int));
        Some(out)
    }
}

/// Which samples play when an object is hit.
#[derive(Clone, Debug, Hash, PartialEq, Eq)]
pub struct HitSample {
    /// Sample set of the normal sound.
    pub normal_set: SampleSet,
    /// Sample set of the whistle, finish and clap sounds.
    pub addition_set: SampleSet,
    /// Index of the sample.
    pub index: SampleIndex,
    /// Volume of the sample.
    pub volume: Volume,
    /// Custom filename of the addition sound.
    pub filename: String,
}

/// The view of a hitsample.
pub struct HitSampleView {
    pub normal_set: SampleSet,
    pub addition_set: SampleSet,
    pub index: SampleIndex,
    pub volume: Option<u8>,
    pub filename: Seq<char>,
}

impl View for HitSample {
    type V = HitSampleView;

    open spec fn view(&self) -> HitSampleView {
        HitSampleView {
            normal_set: self.normal_set,
            addition_set: self.addition_set,
            index: self.index,
            volume: self.volume@,
            filename: self.filename@,
        }
    }
}

/// The hitsample that uses no custom samples.
pub open spec fn default_hitsample() -> HitSampleView {
    HitSampleView {
        normal_set: SampleSet::NoCustomSampleSet,
        addition_set: SampleSet::NoCustomSampleSet,
        index: SampleIndex::TimingPointSampleIndex,
        volume: None,
        filename: Seq::empty(),
    }
}

/// Part `k` of a `:`-separated hitsample, unless the text ends before it
/// (a last empty part counts as ended).
pub open spec fn sample_field(parts: Seq<Seq<char>>, k: int) -> Option<Seq<char>> {
    if parts.len() <= k {
        None
    } else if parts.len() == k + 1 && parts[k].len() == 0 {
        None
    } else {
        Some(parts[k])
    }
}

/// What reading a hitsample gives. Missing parts take their defaults; the
/// text `0:0:0:0:` followed by anything is the default hitsample.
pub open spec fn hitsample_parse(s: Seq<char>) -> Result<HitSampleView, ParseHitSampleError> {
    if s.len() == 0 || (s.len() >= 8 && s.take(8) == seq!['0', ':', '0', ':', '0', ':', '0', ':']) {
        Ok(default_hitsample())
    } else {
        let p = split(s, ':');
        let normal = SampleSet::parse_text(p[0], 0);
        let addition = match sample_field(p, 1) {
            None => Ok(Some(SampleSet::NoCustomSampleSet)),
            Some(f) => SampleSet::parse_text(f, 0),
        };
        let index = match sample_field(p, 2) {
            None => Ok(Some(SampleIndex::TimingPointSampleIndex)),
            Some(f) => SampleIndex::parse_text(f, 0),
        };
        let volume = match sample_field(p, 3) {
            None => Ok(None),
            Some(f) => volume_parse(f),
        };
        let filename = match sample_field(p, 4) {
            None => Seq::empty(),
            Some(f) => f,
        };
        match (normal, addition, index, volume) {
            (Ok(Some(n)), Ok(Some(a)), Ok(Some(i)), Ok(v)) => Ok(
                HitSampleView { normal_set: n, addition_set: a, index: i, volume: v, filename },
            ),
            (Ok(Some(_)), Ok(Some(_)), Ok(Some(_)), _) => Err(ParseHitSampleError::InvalidVolume),
            (Ok(Some(_)), Ok(Some(_)), _, _) => Err(ParseHitSampleError::InvalidIndex),
            _ => Err(ParseHitSampleError::InvalidSampleSet),
        }
    }
}

/// The text of a hitsample: none before version 10, three parts up to
/// version 11, five parts after.
pub open spec fn hitsample_text(h: HitSampleView, version: Version) -> Option<Seq<char>> {
    if version <= 9 {
        None
    } else {
        let head = int_text(h.normal_set.number() as int) + seq![':'] + int_text(
            h.addition_set.number() as int,
        ) + seq![':'] + int_text(h.index.number() as int);
        if version <= 11 {
            Some(head)
        } else {
            Some(head + seq![':'] + int_text(Volume::number(h.volume)) + seq![':'] + h.filename)
        }
    }
}

fn sample_field_exec(parts: &Vec<Vec<char>>, k: usize) -> (r: Option<&Vec<char>>)
    ensures
        match (r, sample_field(vv(parts@), k as int)) {
            (Some(a), Some(b)) => a@ == b,
            (None, None) => true,
            _ => false,
        },
{
    if parts.len() <= k {
        None
    } else if parts.len() == k + 1 && parts[k].len() == 0 {
        None
    } else {
        Some(&parts[k])
    }
}

impl HitSample {
    /// The hitsample that uses no custom samples.
    pub fn new_default() -> (r: HitSample)
        ensures
            r@ == default_hitsample(),
    {
        HitSample {
            normal_set: SampleSet::NoCustomSampleSet,
            addition_set: SampleSet::NoCustomSampleSet,
            index: SampleIndex::TimingPointSampleIndex,
            volume: Volume(None),
            filename: String::new(),
        }
    }

    /// Sample set of the normal sound.
    pub fn normal_set(&self) -> (r: SampleSet)
        ensures
            r == self.normal_set,
    {
        self.normal_set
    }

    /// Sets the sample set of the normal sound.
    pub fn set_normal_set(&mut self, normal_set: SampleSet)
        ensures
            final(self)@ == (HitSampleView { normal_set, ..old(self)@ }),
    {
        self.normal_set = normal_set;
    }

    /// Sample set of the additions.
    pub fn addition_set(&self) -> (r: SampleSet)
        ensures
            r == self.addition_set,
    {
        self.addition_set
    }

    /// Sets the sample set of the additions.
    pub fn set_addition_set(&mut self, addition_set: SampleSet)
        ensures
            final(self)@ == (HitSampleView { addition_set, ..old(self)@ }),
    {
        self.addition_set = addition_set;
    }

    /// The custom sample index, or `None` where the timing point's index is used.
    pub fn index(&self) -> (r: Option<usize>)
        ensures
            r == (match self.index {
                SampleIndex::TimingPointSampleIndex => None,
                SampleIndex::Index(i) => Some(i),
            }),
    {
        match self.index {
            SampleIndex::TimingPointSampleIndex => None,
            SampleIndex::Index(i) => Some(i),
        }
    }

    /// Sets the sample index; 0 stands for the timing point's index.
    pub fn set_index(&mut self, index: usize)
        ensures
            final(self)@ == (HitSampleView { index: SampleIndex::from_number(index as nat), ..old(self)@ }),
    {
        self.index = SampleIndex::from_usize(index);
    }

    /// Whether the timing point's sample index is used.
    pub fn use_timing_point_index(&self) -> (r: bool)
        ensures
            r == (self.index == SampleIndex::TimingPointSampleIndex),
    {
        match self.index {
            SampleIndex::TimingPointSampleIndex => true,
            SampleIndex::Index(_) => false,
        }
    }

    /// Uses the timing point's sample index from now on.
    pub fn set_use_timing_point_index(&mut self)
        ensures
            final(self)@ == (HitSampleView { index: SampleIndex::TimingPointSampleIndex, ..old(self)@ }),
    {
        self.index = SampleIndex::TimingPointSampleIndex;
    }

    /// Volume of the sample.
    pub fn volume(&self) -> (r: &Volume)
        ensures
            *r == self.volume,
    {
        &self.volume
    }

    /// Custom filename of the addition sound.
    pub fn filename(&self) -> (r: &str)
        ensures
            r@ == self.filename@,
    {
        self.filename.as_str()
    }
}

impl VersionedFromStr for HitSample {
    type Err = ParseHitSampleError;

    open spec fn parse_text(s: Seq<char>, version: Version) -> Result<Option<HitSampleView>, ParseHitSampleError> {
        match hitsample_parse(s) {
            Ok(h) => Ok(Some(h)),
            Err(e) => Err(e),
        }
    }

    fn from_chars(s: &[char], version: Version) -> (r: Result<Option<HitSample>, ParseHitSampleError>) {
        if s.len() == 0 || starts_with_str(s, "0:0:0:0:") {
            proof {
                reveal_strlit("0:0:0:0:");
                assert("0:0:0:0:"@ =~= seq!['0', ':', '0', ':', '0', ':', '0', ':']);
            }
            return Ok(Some(HitSample::new_default()));
        }
        proof {
            reveal_strlit("0:0:0:0:");
            assert("0:0:0:0:"@ =~= seq!['0', ':', '0', ':', '0', ':', '0', ':']);
        }
        let p = split_chars(s, ':');
        let ghost pv = vv(p@);
        assert(pv[0] == p@[0]@);
        let normal_set = match SampleSet::from_chars(p[0].as_slice(), 0) {
            Ok(Some(n)) => n,
            _ => return Err(ParseHitSampleError::InvalidSampleSet),
        };
        let addition_set = match sample_field_exec(&p, 1) {
            None => SampleSet::NoCustomSampleSet,
            Some(f) => match SampleSet::from_chars(f.as_slice(), 0) {
                Ok(Some(a)) => a,
                _ => return Err(ParseHitSampleError::InvalidSampleSet),
            },
        };
        let index = match sample_field_exec(&p, 2) {
            None => SampleIndex::TimingPointSampleIndex,
            Some(f) => match SampleIndex::from_chars(f.as_slice(), 0) {
                Ok(Some(i)) => i,
                _ => return Err(ParseHitSampleError::InvalidIndex),
            },
        };
        let volume = match sample_field_exec(&p, 3) {
            None => Volume(None),
            Some(f) => match Volume::from_chars(f.as_slice(), 0) {
                Ok(Some(v)) => v,
                _ => return Err(ParseHitSampleError::InvalidVolume),
            },
        };
        let filename = match sample_field_exec(&p, 4) {
            None => String::new(),
            Some(f) => string_from_chars(f),
        };
        Ok(Some(HitSample { normal_set, addition_set, index, volume, filename }))
    }
}

impl VersionedToString for HitSample {
    open spec fn text_of(v: HitSampleView, version: Version) -> Option<Seq<char>> {
        hitsample_text(v, version)
    }

    fn to_chars(&self, version: Version) -> (r: Option<Vec<char>>) {
        if version <= 9 {
            return None;
        }
        let mut out: Vec<char> = Vec::new();
        push_int(&mut out, self.normal_set.number_exec() as i64);
        out.push(':');
        push_int(&mut out, self.addition_set.number_exec() as i64);
        out.push(':');
        push_nat(&mut out, self.index.to_usize() as u64);
        if version > 11 {
            out.push(':');
            push_int(&mut out, self.volume.number_exec());
            out.push(':');
            push_str(&mut out, self.filename.as_str());
        }
        assert(Some(out@) == hitsample_text(self@, version));
        Some(out)
    }
}

} // verus!
