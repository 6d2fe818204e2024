//! Errors of reading hitobjects and their parts.
use vstd::prelude::*;

use crate::text::ParseIntError;

verus! {

/// Error reading the `[HitObjects]` section.
#[derive(Clone, Copy, Debug, PartialEq, Eq, Hash)]
pub struct ParseError(pub ParseHitObjectError);

/// The combo skip count does not fit in 3 bits.
#[derive(Clone, Copy, Debug, PartialEq, Eq, Hash)]
pub struct ComboSkipCountTooHigh(pub u8);

/// Error reading a `first:second` pair.
#[derive(Clone, Copy, Debug, PartialEq, Eq, Hash)]
pub enum ColonSetParseError {
    /// The second item is missing.
    MissingSecondItem,
    /// There are more than two items.
    MoreThanTwoItems,
    /// The first item failed to read.
    InvalidFirstItem,
    /// The second item failed to read.
    InvalidSecondItem,
}

/// Error reading a hitobject; the variant names the field that is missing
/// or failed to read.
#[derive(Clone, Copy, Debug, PartialEq, Eq, Hash)]
pub enum ParseHitObjectError {
    InvalidHitSound,
    MissingHitSound,
    MissingHitSample,
    InvalidHitSample,
    InvalidX,
    MissingX,
    InvalidY,
    MissingY,
    MissingObjType,
    InvalidObjType,
    MissingTime,
    InvalidTime,
    InvalidCurveType,
    MissingCurveType,
    InvalidCurvePoint,
    MissingCurvePoint,
    InvalidEdgeSound,
    MissingEdgeSound,
    InvalidEdgeSet,
    MissingEdgeSet,
    InvalidSlidesCount,
    MissingSlidesCount,
    InvalidLength,
    MissingLength,
    InvalidEndTime,
    MissingEndTime,
    UnknownObjType,
}

/// Error reading a hitsample.
#[derive(Clone, Copy, Debug, PartialEq, Eq, Hash)]
pub enum ParseHitSampleError {
    InvalidSampleSet,
    InvalidIndex,
    InvalidVolume,
    MissingSeparator,
}

/// Error reading a sample set.
#[derive(Clone, Copy, Debug, PartialEq, Eq, Hash)]
pub enum ParseSampleSetError {
    /// The number is not a known sample set.
    UnknownVariant,
    /// The text is not a number.
    ParseValueError(ParseIntError),
}

/// Error setting a volume.
#[derive(Clone, Copy, Debug, PartialEq, Eq, Hash)]
pub enum VolumeSetError {
    /// The volume is above 100.
    VolumeTooHigh,
    /// The volume is 0; a volume of 0 in the file means the timing point's
    /// volume, which is set with `set_use_timing_point_volume`.
    VolumeTooLow,
}

/// Error reading a volume.
#[derive(Clone, Copy, Debug, PartialEq, Eq, Hash)]
pub enum ParseVolumeError {
    VolumeSetError(VolumeSetError),
    ParseIntError(ParseIntError),
}

/// Error reading a curve type.
#[derive(Clone, Copy, Debug, PartialEq, Eq, Hash)]
pub enum ParseCurveTypeError {
    UnknownVariant,
}

/// Error reading a hitsound.
#[derive(Clone, Copy, Debug, PartialEq, Eq, Hash)]
pub enum ParseHitSoundError {
    ParseIntError(ParseIntError),
}

} // verus!
