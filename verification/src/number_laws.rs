//! The numbers, letters and names that the format gives to easings, game
//! modes, sample sets, layers, origins and the other enumerations, and the
//! bits of hitsound and effect numbers, as fixed tables: what each number or
//! name reads as, and what each value is written as.
use vstd::prelude::*;

use crate::events::audio_sample::{audio_sample_parse, audio_volume_parse, volume_value, Layer as SampleLayer};
use crate::events::normal_event::{LayerLegacy, OriginTypeLegacy};
use crate::events::storyboard::cmds::head_parse;
use crate::events::storyboard::sprites::{object_parse, Layer as StoryboardLayer, LoopType, OriginType};
use crate::events::storyboard::types::{Addition, Easing, Parameter, SampleSet as TriggerSampleSet};
use crate::general::types::{Countdown, Mode, OverlayPosition, SampleSet as GeneralSampleSet};
use crate::helper::{bool_text, zero_one_bool_spec};
use crate::hitobjects::types::{
    curve_type_name, curve_type_parse, hitsound_flags, hitsound_mask, CurveType, HitSoundFlags,
    volume_parse as hit_volume_parse, SampleIndex as HitSampleIndex, SampleSet as HitSampleSet,
    Volume as HitVolume,
};
use crate::hitobjects::{has_time_offset, i32_field, time_field, written_time};
use crate::text::{parse_int_spec, split};
use crate::timingpoints::{
    effects_number, effects_of, sample_index_parse, sample_set_parse, volume_parse as timing_volume_parse,
    Effects, SampleIndex, SampleSet as TimingSampleSet,
};
use crate::types::{Version, VersionedFromStr};

verus! {

/// The easing of a command is the easing the format numbers by its easing
/// field: 0 linear, 1 easing out, 2 easing in, 3 to 5 quad in, out and in-out,
/// then cubic, quart, quint, sine, expo and circ in the same order, 24 to 28
/// elastic in, out, half out, quarter out and in-out, 29 to 31 back, 32 to 34
/// bounce; any larger number is kept as itself.
pub proof fn law_command_easing_numbers(p: Seq<Seq<char>>)
    ensures
        head_parse(p) matches Ok((e, _, _)) ==> parse_int_spec(p[1], 0, u32::MAX as int) matches Ok(n) && {
            &&& (e == Easing::Linear <==> n == 0)
            &&& (e == Easing::EasingOut <==> n == 1)
            &&& (e == Easing::EasingIn <==> n == 2)
            &&& (e == Easing::QuadIn <==> n == 3)
            &&& (e == Easing::QuadOut <==> n == 4)
            &&& (e == Easing::QuadInOut <==> n == 5)
            &&& (e == Easing::CubicIn <==> n == 6)
            &&& (e == Easing::CubicOut <==> n == 7)
            &&& (e == Easing::CubicInOut <==> n == 8)
            &&& (e == Easing::QuartIn <==> n == 9)
            &&& (e == Easing::QuartOut <==> n == 10)
            &&& (e == Easing::QuartInOut <==> n == 11)
            &&& (e == Easing::QuintIn <==> n == 12)
            &&& (e == Easing::QuintOut <==> n == 13)
            &&& (e == Easing::QuintInOut <==> n == 14)
            &&& (e == Easing::SineIn <==> n == 15)
            &&& (e == Easing::SineOut <==> n == 16)
            &&& (e == Easing::SineInOut <==> n == 17)
            &&& (e == Easing::ExpoIn <==> n == 18)
            &&& (e == Easing::ExpoOut <==> n == 19)
            &&& (e == Easing::ExpoInOut <==> n == 20)
            &&& (e == Easing::CircIn <==> n == 21)
            &&& (e == Easing::CircOut <==> n == 22)
            &&& (e == Easing::CircInOut <==> n == 23)
            &&& (e == Easing::ElasticIn <==> n == 24)
            &&& (e == Easing::ElasticOut <==> n == 25)
            &&& (e == Easing::ElasticHalfOut <==> n == 26)
            &&& (e == Easing::ElasticQuarterOut <==> n == 27)
            &&& (e == Easing::ElasticInOut <==> n == 28)
            &&& (e == Easing::BackIn <==> n == 29)
            &&& (e == Easing::BackOut <==> n == 30)
            &&& (e == Easing::BackInOut <==> n == 31)
            &&& (e == Easing::BounceIn <==> n == 32)
            &&& (e == Easing::BounceOut <==> n == 33)
            &&& (e == Easing::BounceInOut <==> n == 34)
            &&& (n > 34 ==> e == Easing::Other(n as usize))
        },
{
}

/// Each named easing is written as its number in the format's table (see
/// `law_command_easing_numbers`), and a kept number as itself.
pub proof fn law_easing_written_numbers(e: Easing)
    ensures
        e.number() == 0 <==> (e == Easing::Linear || e == Easing::Other(0)),
        e.number() == 1 <==> (e == Easing::EasingOut || e == Easing::Other(1)),
        e.number() == 2 <==> (e == Easing::EasingIn || e == Easing::Other(2)),
        e.number() == 3 <==> (e == Easing::QuadIn || e == Easing::Other(3)),
        e.number() == 4 <==> (e == Easing::QuadOut || e == Easing::Other(4)),
        e.number() == 5 <==> (e == Easing::QuadInOut || e == Easing::Other(5)),
        e.number() == 6 <==> (e == Easing::CubicIn || e == Easing::Other(6)),
        e.number() == 7 <==> (e == Easing::CubicOut || e == Easing::Other(7)),
        e.number() == 8 <==> (e == Easing::CubicInOut || e == Easing::Other(8)),
        e.number() == 9 <==> (e == Easing::QuartIn || e == Easing::Other(9)),
        e.number() == 10 <==> (e == Easing::QuartOut || e == Easing::Other(10)),
        e.number() == 11 <==> (e == Easing::QuartInOut || e == Easing::Other(11)),
        e.number() == 12 <==> (e == Easing::QuintIn || e == Easing::Other(12)),
        e.number() == 13 <==> (e == Easing::QuintOut || e == Easing::Other(13)),
        e.number() == 14 <==> (e == Easing::QuintInOut || e == Easing::Other(14)),
        e.number() == 15 <==> (e == Easing::SineIn || e == Easing::Other(15)),
        e.number() == 16 <==> (e == Easing::SineOut || e == Easing::Other(16)),
        e.number() == 17 <==> (e == Easing::SineInOut || e == Easing::Other(17)),
        e.number() == 18 <==> (e == Easing::ExpoIn || e == Easing::Other(18)),
        e.number() == 19 <==> (e == Easing::ExpoOut || e == Easing::Other(19)),
        e.number() == 20 <==> (e == Easing::ExpoInOut || e == Easing::Other(20)),
        e.number() == 21 <==> (e == Easing::CircIn || e == Easing::Other(21)),
        e.number() == 22 <==> (e == Easing::CircOut || e == Easing::Other(22)),
        e.number() == 23 <==> (e == Easing::CircInOut || e == Easing::Other(23)),
        e.number() == 24 <==> (e == Easing::ElasticIn || e == Easing::Other(24)),
        e.number() == 25 <==> (e == Easing::ElasticOut || e == Easing::Other(25)),
        e.number() == 26 <==> (e == Easing::ElasticHalfOut || e == Easing::Other(26)),
        e.number() == 27 <==> (e == Easing::ElasticQuarterOut || e == Easing::Other(27)),
        e.number() == 28 <==> (e == Easing::ElasticInOut || e == Easing::Other(28)),
        e.number() == 29 <==> (e == Easing::BackIn || e == Easing::Other(29)),
        e.number() == 30 <==> (e == Easing::BackOut || e == Easing::Other(30)),
        e.number() == 31 <==> (e == Easing::BackInOut || e == Easing::Other(31)),
        e.number() == 32 <==> (e == Easing::BounceIn || e == Easing::Other(32)),
        e.number() == 33 <==> (e == Easing::BounceOut || e == Easing::Other(33)),
        e.number() == 34 <==> (e == Easing::BounceInOut || e == Easing::Other(34)),
        e matches Easing::Other(v) ==> e.number() == v,
{
}

/// The game mode read from a number: 0 osu!, 1 osu!taiko, 2 osu!catch,
/// 3 osu!mania, and no other number; versions 3 to 13 know only osu! and
/// osu!mania, and read 1 and 2 as no mode.
pub proof fn law_mode_numbers(s: Seq<char>, version: Version)
    ensures
        Mode::parse_text(s, version) == Ok::<Option<Mode>, crate::general::types::ParseGameModeError>(Some(Mode::Osu)) <==> parse_int_spec(s, 0, u32::MAX as int) == Ok::<int, crate::text::IntErrorKind>(0),
        Mode::parse_text(s, version) == Ok::<Option<Mode>, crate::general::types::ParseGameModeError>(Some(Mode::Mania)) <==> parse_int_spec(s, 0, u32::MAX as int) == Ok::<int, crate::text::IntErrorKind>(3),
        !(3 <= version <= 13) ==> (Mode::parse_text(s, version) == Ok::<Option<Mode>, crate::general::types::ParseGameModeError>(Some(Mode::Taiko)) <==> parse_int_spec(s, 0, u32::MAX as int) == Ok::<int, crate::text::IntErrorKind>(1)),
        !(3 <= version <= 13) ==> (Mode::parse_text(s, version) == Ok::<Option<Mode>, crate::general::types::ParseGameModeError>(Some(Mode::Catch)) <==> parse_int_spec(s, 0, u32::MAX as int) == Ok::<int, crate::text::IntErrorKind>(2)),
        3 <= version <= 13 ==> (Mode::parse_text(s, version) == Ok::<Option<Mode>, crate::general::types::ParseGameModeError>(None) <==> (parse_int_spec(s, 0, u32::MAX as int) == Ok::<int, crate::text::IntErrorKind>(1) || parse_int_spec(s, 0, u32::MAX as int) == Ok::<int, crate::text::IntErrorKind>(2))),
        (parse_int_spec(s, 0, u32::MAX as int) matches Ok(n) && n > 3) ==> Mode::parse_text(s, version) is Err,
{
}

/// Each game mode is written as its number in the format's table (see
/// `law_mode_numbers`).
pub proof fn law_mode_written_numbers(m: Mode)
    ensures
        m.number() == 0 <==> m == Mode::Osu,
        m.number() == 1 <==> m == Mode::Taiko,
        m.number() == 2 <==> m == Mode::Catch,
        m.number() == 3 <==> m == Mode::Mania,
{
}

/// The sample set of a timing point read from its number: 0 the beatmap's
/// default, 1 normal, 2 soft, 3 drum, and no other number.
pub proof fn law_timing_sample_set_numbers(s: Seq<char>)
    ensures
        sample_set_parse(s) == Ok::<TimingSampleSet, crate::timingpoints::SampleSetParseError>(TimingSampleSet::BeatmapDefault) <==> parse_int_spec(s, 0, u32::MAX as int) == Ok::<int, crate::text::IntErrorKind>(0),
        sample_set_parse(s) == Ok::<TimingSampleSet, crate::timingpoints::SampleSetParseError>(TimingSampleSet::Normal) <==> parse_int_spec(s, 0, u32::MAX as int) == Ok::<int, crate::text::IntErrorKind>(1),
        sample_set_parse(s) == Ok::<TimingSampleSet, crate::timingpoints::SampleSetParseError>(TimingSampleSet::Soft) <==> parse_int_spec(s, 0, u32::MAX as int) == Ok::<int, crate::text::IntErrorKind>(2),
        sample_set_parse(s) == Ok::<TimingSampleSet, crate::timingpoints::SampleSetParseError>(TimingSampleSet::Drum) <==> parse_int_spec(s, 0, u32::MAX as int) == Ok::<int, crate::text::IntErrorKind>(3),
        (parse_int_spec(s, 0, u32::MAX as int) matches Ok(n) && n > 3) ==> sample_set_parse(s) is Err,
{
}

/// Each sample set of a timing point is written as its number in the
/// format's table (see `law_timing_sample_set_numbers`).
pub proof fn law_timing_sample_set_written_numbers(v: TimingSampleSet)
    ensures
        v.number() == 0 <==> v == TimingSampleSet::BeatmapDefault,
        v.number() == 1 <==> v == TimingSampleSet::Normal,
        v.number() == 2 <==> v == TimingSampleSet::Soft,
        v.number() == 3 <==> v == TimingSampleSet::Drum,
{
}

/// The sample set of a hitsample read from its number: 0 none, 1 normal,
/// 2 soft, 3 drum, and no other number.
pub proof fn law_hitsample_sample_set_numbers(s: Seq<char>, version: Version)
    ensures
        HitSampleSet::parse_text(s, version) == Ok::<Option<HitSampleSet>, crate::hitobjects::error::ParseSampleSetError>(Some(HitSampleSet::NoCustomSampleSet)) <==> parse_int_spec(s, 0, u32::MAX as int) == Ok::<int, crate::text::IntErrorKind>(0),
        HitSampleSet::parse_text(s, version) == Ok::<Option<HitSampleSet>, crate::hitobjects::error::ParseSampleSetError>(Some(HitSampleSet::NormalSet)) <==> parse_int_spec(s, 0, u32::MAX as int) == Ok::<int, crate::text::IntErrorKind>(1),
        HitSampleSet::parse_text(s, version) == Ok::<Option<HitSampleSet>, crate::hitobjects::error::ParseSampleSetError>(Some(HitSampleSet::SoftSet)) <==> parse_int_spec(s, 0, u32::MAX as int) == Ok::<int, crate::text::IntErrorKind>(2),
        HitSampleSet::parse_text(s, version) == Ok::<Option<HitSampleSet>, crate::hitobjects::error::ParseSampleSetError>(Some(HitSampleSet::DrumSet)) <==> parse_int_spec(s, 0, u32::MAX as int) == Ok::<int, crate::text::IntErrorKind>(3),
        (parse_int_spec(s, 0, u32::MAX as int) matches Ok(n) && n > 3) ==> HitSampleSet::parse_text(s, version) is Err,
{
}

/// Each sample set of a hitsample is written as its number in the format's
/// table (see `law_hitsample_sample_set_numbers`).
pub proof fn law_hitsample_sample_set_written_numbers(v: HitSampleSet)
    ensures
        v.number() == 0 <==> v == HitSampleSet::NoCustomSampleSet,
        v.number() == 1 <==> v == HitSampleSet::NormalSet,
        v.number() == 2 <==> v == HitSampleSet::SoftSet,
        v.number() == 3 <==> v == HitSampleSet::DrumSet,
{
}

/// The layer of an audio sample read from its third field: 0 background,
/// 1 fail, 2 pass, 3 foreground; a line with another number is not read.
pub proof fn law_audio_sample_layer_numbers(s: Seq<char>)
    ensures
        audio_sample_parse(s) matches Ok(a) ==> parse_int_spec(split(s, ',')[2], 0, u32::MAX as int) matches Ok(n) && {
            &&& (a.layer == SampleLayer::Background <==> n == 0)
            &&& (a.layer == SampleLayer::Fail <==> n == 1)
            &&& (a.layer == SampleLayer::Pass <==> n == 2)
            &&& (a.layer == SampleLayer::Foreground <==> n == 3)
        },
{
}

/// Each layer of an audio sample is written as its number in the format's
/// table (see `law_audio_sample_layer_numbers`).
pub proof fn law_audio_sample_layer_written_numbers(l: SampleLayer)
    ensures
        l.number() == 0 <==> l == SampleLayer::Background,
        l.number() == 1 <==> l == SampleLayer::Fail,
        l.number() == 2 <==> l == SampleLayer::Pass,
        l.number() == 3 <==> l == SampleLayer::Foreground,
{
}

/// The countdown speed read from a number in a version that has the field:
/// 0 none, 1 normal, 2 half, 3 double, and no other number.
pub proof fn law_countdown_numbers(s: Seq<char>, version: Version)
    requires
        !(3 <= version <= 4),
    ensures
        Countdown::parse_text(s, version) == Ok::<Option<Countdown>, crate::general::types::ParseCountdownSpeedError>(Some(Countdown::NoCountdown)) <==> parse_int_spec(s, 0, u32::MAX as int) == Ok::<int, crate::text::IntErrorKind>(0),
        Countdown::parse_text(s, version) == Ok::<Option<Countdown>, crate::general::types::ParseCountdownSpeedError>(Some(Countdown::Normal)) <==> parse_int_spec(s, 0, u32::MAX as int) == Ok::<int, crate::text::IntErrorKind>(1),
        Countdown::parse_text(s, version) == Ok::<Option<Countdown>, crate::general::types::ParseCountdownSpeedError>(Some(Countdown::Half)) <==> parse_int_spec(s, 0, u32::MAX as int) == Ok::<int, crate::text::IntErrorKind>(2),
        Countdown::parse_text(s, version) == Ok::<Option<Countdown>, crate::general::types::ParseCountdownSpeedError>(Some(Countdown::Double)) <==> parse_int_spec(s, 0, u32::MAX as int) == Ok::<int, crate::text::IntErrorKind>(3),
        (parse_int_spec(s, 0, u32::MAX as int) matches Ok(n) && n > 3) ==> Countdown::parse_text(s, version) is Err,
{
}

/// Each countdown speed is written as its number in the format's table (see
/// `law_countdown_numbers`).
pub proof fn law_countdown_written_numbers(c: Countdown)
    ensures
        c.number() == 0 <==> c == Countdown::NoCountdown,
        c.number() == 1 <==> c == Countdown::Normal,
        c.number() == 2 <==> c == Countdown::Half,
        c.number() == 3 <==> c == Countdown::Double,
{
}

/// The origin type of a number: 0 top left, 1 centre, 2 centre left, 3 top
/// right, 4 bottom centre, 5 top centre, 6 custom, 7 centre right, 8 bottom
/// left, 9 bottom right; no other number names one.
pub proof fn law_origin_type_numbers(n: int)
    ensures
        OriginType::from_number(n) == Some(OriginType::TopLeft) <==> n == 0,
        OriginType::from_number(n) == Some(OriginType::Centre) <==> n == 1,
        OriginType::from_number(n) == Some(OriginType::CentreLeft) <==> n == 2,
        OriginType::from_number(n) == Some(OriginType::TopRight) <==> n == 3,
        OriginType::from_number(n) == Some(OriginType::BottomCentre) <==> n == 4,
        OriginType::from_number(n) == Some(OriginType::TopCentre) <==> n == 5,
        OriginType::from_number(n) == Some(OriginType::Custom) <==> n == 6,
        OriginType::from_number(n) == Some(OriginType::CentreRight) <==> n == 7,
        OriginType::from_number(n) == Some(OriginType::BottomLeft) <==> n == 8,
        OriginType::from_number(n) == Some(OriginType::BottomRight) <==> n == 9,
        OriginType::from_number(n) is None <==> (n < 0 || n > 9),
{
}

/// Each origin type is written as its number in the format's table (see
/// `law_origin_type_numbers`).
pub proof fn law_origin_type_written_numbers(v: OriginType)
    ensures
        v.number() == 0 <==> v == OriginType::TopLeft,
        v.number() == 1 <==> v == OriginType::Centre,
        v.number() == 2 <==> v == OriginType::CentreLeft,
        v.number() == 3 <==> v == OriginType::TopRight,
        v.number() == 4 <==> v == OriginType::BottomCentre,
        v.number() == 5 <==> v == OriginType::TopCentre,
        v.number() == 6 <==> v == OriginType::Custom,
        v.number() == 7 <==> v == OriginType::CentreRight,
        v.number() == 8 <==> v == OriginType::BottomLeft,
        v.number() == 9 <==> v == OriginType::BottomRight,
{
}

/// The origin type of a name: the ten names of the format, and no other.
pub proof fn law_origin_type_names(s: Seq<char>)
    ensures
        OriginType::parse_name(s) == Some(OriginType::TopLeft) <==> s == seq!['T', 'o', 'p', 'L', 'e', 'f', 't'],
        OriginType::parse_name(s) == Some(OriginType::Centre) <==> s == seq!['C', 'e', 'n', 't', 'r', 'e'],
        OriginType::parse_name(s) == Some(OriginType::CentreLeft) <==> s == seq!['C', 'e', 'n', 't', 'r', 'e', 'L', 'e', 'f', 't'],
        OriginType::parse_name(s) == Some(OriginType::TopRight) <==> s == seq!['T', 'o', 'p', 'R', 'i', 'g', 'h', 't'],
        OriginType::parse_name(s) == Some(OriginType::BottomCentre) <==> s == seq!['B', 'o', 't', 't', 'o', 'm', 'C', 'e', 'n', 't', 'r', 'e'],
        OriginType::parse_name(s) == Some(OriginType::TopCentre) <==> s == seq!['T', 'o', 'p', 'C', 'e', 'n', 't', 'r', 'e'],
        OriginType::parse_name(s) == Some(OriginType::Custom) <==> s == seq!['C', 'u', 's', 't', 'o', 'm'],
        OriginType::parse_name(s) == Some(OriginType::CentreRight) <==> s == seq!['C', 'e', 'n', 't', 'r', 'e', 'R', 'i', 'g', 'h', 't'],
        OriginType::parse_name(s) == Some(OriginType::BottomLeft) <==> s == seq!['B', 'o', 't', 't', 'o', 'm', 'L', 'e', 'f', 't'],
        OriginType::parse_name(s) == Some(OriginType::BottomRight) <==> s == seq!['B', 'o', 't', 't', 'o', 'm', 'R', 'i', 'g', 'h', 't'],
        OriginType::parse_name(s) is None <==> (s != seq!['T', 'o', 'p', 'L', 'e', 'f', 't'] && s != seq!['C', 'e', 'n', 't', 'r', 'e'] && s != seq!['C', 'e', 'n', 't', 'r', 'e', 'L', 'e', 'f', 't'] && s != seq!['T', 'o', 'p', 'R', 'i', 'g', 'h', 't'] && s != seq!['B', 'o', 't', 't', 'o', 'm', 'C', 'e', 'n', 't', 'r', 'e'] && s != seq!['T', 'o', 'p', 'C', 'e', 'n', 't', 'r', 'e'] && s != seq!['C', 'u', 's', 't', 'o', 'm'] && s != seq!['C', 'e', 'n', 't', 'r', 'e', 'R', 'i', 'g', 'h', 't'] && s != seq!['B', 'o', 't', 't', 'o', 'm', 'L', 'e', 'f', 't'] && s != seq!['B', 'o', 't', 't', 'o', 'm', 'R', 'i', 'g', 'h', 't']),
{
    assert(OriginType::TopLeft.name().len() == 7 && OriginType::TopLeft.name()[0] == 'T' && OriginType::TopLeft.name()[6] == 't');
    assert(OriginType::Centre.name().len() == 6 && OriginType::Centre.name()[0] == 'C' && OriginType::Centre.name()[5] == 'e');
    assert(OriginType::CentreLeft.name().len() == 10 && OriginType::CentreLeft.name()[0] == 'C' && OriginType::CentreLeft.name()[9] == 't');
    assert(OriginType::TopRight.name().len() == 8 && OriginType::TopRight.name()[0] == 'T' && OriginType::TopRight.name()[7] == 't');
    assert(OriginType::BottomCentre.name().len() == 12 && OriginType::BottomCentre.name()[0] == 'B' && OriginType::BottomCentre.name()[11] == 'e');
    assert(OriginType::TopCentre.name().len() == 9 && OriginType::TopCentre.name()[0] == 'T' && OriginType::TopCentre.name()[8] == 'e');
    assert(OriginType::Custom.name().len() == 6 && OriginType::Custom.name()[0] == 'C' && OriginType::Custom.name()[5] == 'm');
    assert(OriginType::CentreRight.name().len() == 11 && OriginType::CentreRight.name()[0] == 'C' && OriginType::CentreRight.name()[10] == 't');
    assert(OriginType::BottomLeft.name().len() == 10 && OriginType::BottomLeft.name()[0] == 'B' && OriginType::BottomLeft.name()[9] == 't');
    assert(OriginType::BottomRight.name().len() == 11 && OriginType::BottomRight.name()[0] == 'B' && OriginType::BottomRight.name()[10] == 't');
}

/// Each origin type is written as its name in the format (see `law_origin_type_names`).
pub proof fn law_origin_type_written_names(v: OriginType)
    ensures
        v.name() == seq!['T', 'o', 'p', 'L', 'e', 'f', 't'] <==> v == OriginType::TopLeft,
        v.name() == seq!['C', 'e', 'n', 't', 'r', 'e'] <==> v == OriginType::Centre,
        v.name() == seq!['C', 'e', 'n', 't', 'r', 'e', 'L', 'e', 'f', 't'] <==> v == OriginType::CentreLeft,
        v.name() == seq!['T', 'o', 'p', 'R', 'i', 'g', 'h', 't'] <==> v == OriginType::TopRight,
        v.name() == seq!['B', 'o', 't', 't', 'o', 'm', 'C', 'e', 'n', 't', 'r', 'e'] <==> v == OriginType::BottomCentre,
        v.name() == seq!['T', 'o', 'p', 'C', 'e', 'n', 't', 'r', 'e'] <==> v == OriginType::TopCentre,
        v.name() == seq!['C', 'u', 's', 't', 'o', 'm'] <==> v == OriginType::Custom,
        v.name() == seq!['C', 'e', 'n', 't', 'r', 'e', 'R', 'i', 'g', 'h', 't'] <==> v == OriginType::CentreRight,
        v.name() == seq!['B', 'o', 't', 't', 'o', 'm', 'L', 'e', 'f', 't'] <==> v == OriginType::BottomLeft,
        v.name() == seq!['B', 'o', 't', 't', 'o', 'm', 'R', 'i', 'g', 'h', 't'] <==> v == OriginType::BottomRight,
{
    assert(OriginType::TopLeft.name().len() == 7 && OriginType::TopLeft.name()[0] == 'T' && OriginType::TopLeft.name()[6] == 't');
    assert(OriginType::Centre.name().len() == 6 && OriginType::Centre.name()[0] == 'C' && OriginType::Centre.name()[5] == 'e');
    assert(OriginType::CentreLeft.name().len() == 10 && OriginType::CentreLeft.name()[0] == 'C' && OriginType::CentreLeft.name()[9] == 't');
    assert(OriginType::TopRight.name().len() == 8 && OriginType::TopRight.name()[0] == 'T' && OriginType::TopRight.name()[7] == 't');
    assert(OriginType::BottomCentre.name().len() == 12 && OriginType::BottomCentre.name()[0] == 'B' && OriginType::BottomCentre.name()[11] == 'e');
    assert(OriginType::TopCentre.name().len() == 9 && OriginType::TopCentre.name()[0] == 'T' && OriginType::TopCentre.name()[8] == 'e');
    assert(OriginType::Custom.name().len() == 6 && OriginType::Custom.name()[0] == 'C' && OriginType::Custom.name()[5] == 'm');
    assert(OriginType::CentreRight.name().len() == 11 && OriginType::CentreRight.name()[0] == 'C' && OriginType::CentreRight.name()[10] == 't');
    assert(OriginType::BottomLeft.name().len() == 10 && OriginType::BottomLeft.name()[0] == 'B' && OriginType::BottomLeft.name()[9] == 't');
    assert(OriginType::BottomRight.name().len() == 11 && OriginType::BottomRight.name()[0] == 'B' && OriginType::BottomRight.name()[10] == 't');
}

/// The origin of a background or video by number, in the same table as
/// storyboard origins (see `law_origin_type_numbers`).
pub proof fn law_origin_type_legacy_numbers(n: int)
    ensures
        OriginTypeLegacy::from_number(n) == Some(OriginTypeLegacy::TopLeft) <==> n == 0,
        OriginTypeLegacy::from_number(n) == Some(OriginTypeLegacy::Centre) <==> n == 1,
        OriginTypeLegacy::from_number(n) == Some(OriginTypeLegacy::CentreLeft) <==> n == 2,
        OriginTypeLegacy::from_number(n) == Some(OriginTypeLegacy::TopRight) <==> n == 3,
        OriginTypeLegacy::from_number(n) == Some(OriginTypeLegacy::BottomCentre) <==> n == 4,
        OriginTypeLegacy::from_number(n) == Some(OriginTypeLegacy::TopCentre) <==> n == 5,
        OriginTypeLegacy::from_number(n) == Some(OriginTypeLegacy::Custom) <==> n == 6,
        OriginTypeLegacy::from_number(n) == Some(OriginTypeLegacy::CentreRight) <==> n == 7,
        OriginTypeLegacy::from_number(n) == Some(OriginTypeLegacy::BottomLeft) <==> n == 8,
        OriginTypeLegacy::from_number(n) == Some(OriginTypeLegacy::BottomRight) <==> n == 9,
        OriginTypeLegacy::from_number(n) is None <==> (n < 0 || n > 9),
{
}

/// Each legacy origin is written as its number in the format's table (see
/// `law_origin_type_legacy_numbers`).
pub proof fn law_origin_type_legacy_written_numbers(v: OriginTypeLegacy)
    ensures
        v.number() == 0 <==> v == OriginTypeLegacy::TopLeft,
        v.number() == 1 <==> v == OriginTypeLegacy::Centre,
        v.number() == 2 <==> v == OriginTypeLegacy::CentreLeft,
        v.number() == 3 <==> v == OriginTypeLegacy::TopRight,
        v.number() == 4 <==> v == OriginTypeLegacy::BottomCentre,
        v.number() == 5 <==> v == OriginTypeLegacy::TopCentre,
        v.number() == 6 <==> v == OriginTypeLegacy::Custom,
        v.number() == 7 <==> v == OriginTypeLegacy::CentreRight,
        v.number() == 8 <==> v == OriginTypeLegacy::BottomLeft,
        v.number() == 9 <==> v == OriginTypeLegacy::BottomRight,
{
}

/// The layer of a background or video by number: 0 background, 1 fail,
/// 2 pass, 3 foreground, 4 overlay, 5 video; no other number names one.
pub proof fn law_layer_legacy_numbers(n: int)
    ensures
        LayerLegacy::from_number(n) == Some(LayerLegacy::Background) <==> n == 0,
        LayerLegacy::from_number(n) == Some(LayerLegacy::Fail) <==> n == 1,
        LayerLegacy::from_number(n) == Some(LayerLegacy::Pass) <==> n == 2,
        LayerLegacy::from_number(n) == Some(LayerLegacy::Foreground) <==> n == 3,
        LayerLegacy::from_number(n) == Some(LayerLegacy::Overlay) <==> n == 4,
        LayerLegacy::from_number(n) == Some(LayerLegacy::Video) <==> n == 5,
        LayerLegacy::from_number(n) is None <==> (n < 0 || n > 5),
{
}

/// Each legacy layer is written as its number in the format's table (see
/// `law_layer_legacy_numbers`).
pub proof fn law_layer_legacy_written_numbers(v: LayerLegacy)
    ensures
        v.number() == 0 <==> v == LayerLegacy::Background,
        v.number() == 1 <==> v == LayerLegacy::Fail,
        v.number() == 2 <==> v == LayerLegacy::Pass,
        v.number() == 3 <==> v == LayerLegacy::Foreground,
        v.number() == 4 <==> v == LayerLegacy::Overlay,
        v.number() == 5 <==> v == LayerLegacy::Video,
{
}

/// The layer of a storyboard object by name: `Background`, `Fail`, `Pass`,
/// `Foreground`, `Overlay`, and no other.
pub proof fn law_storyboard_layer_names(s: Seq<char>)
    ensures
        StoryboardLayer::parse_name(s) == Some(StoryboardLayer::Background) <==> s == seq!['B', 'a', 'c', 'k', 'g', 'r', 'o', 'u', 'n', 'd'],
        StoryboardLayer::parse_name(s) == Some(StoryboardLayer::Fail) <==> s == seq!['F', 'a', 'i', 'l'],
        StoryboardLayer::parse_name(s) == Some(StoryboardLayer::Pass) <==> s == seq!['P', 'a', 's', 's'],
        StoryboardLayer::parse_name(s) == Some(StoryboardLayer::Foreground) <==> s == seq!['F', 'o', 'r', 'e', 'g', 'r', 'o', 'u', 'n', 'd'],
        StoryboardLayer::parse_name(s) == Some(StoryboardLayer::Overlay) <==> s == seq!['O', 'v', 'e', 'r', 'l', 'a', 'y'],
        StoryboardLayer::parse_name(s) is None <==> (s != seq!['B', 'a', 'c', 'k', 'g', 'r', 'o', 'u', 'n', 'd'] && s != seq!['F', 'a', 'i', 'l'] && s != seq!['P', 'a', 's', 's'] && s != seq!['F', 'o', 'r', 'e', 'g', 'r', 'o', 'u', 'n', 'd'] && s != seq!['O', 'v', 'e', 'r', 'l', 'a', 'y']),
{
    assert(StoryboardLayer::Background.name().len() == 10 && StoryboardLayer::Background.name()[0] == 'B' && StoryboardLayer::Background.name()[9] == 'd');
    assert(StoryboardLayer::Fail.name().len() == 4 && StoryboardLayer::Fail.name()[0] == 'F' && StoryboardLayer::Fail.name()[3] == 'l');
    assert(StoryboardLayer::Pass.name().len() == 4 && StoryboardLayer::Pass.name()[0] == 'P' && StoryboardLayer::Pass.name()[3] == 's');
    assert(StoryboardLayer::Foreground.name().len() == 10 && StoryboardLayer::Foreground.name()[0] == 'F' && StoryboardLayer::Foreground.name()[9] == 'd');
    assert(StoryboardLayer::Overlay.name().len() == 7 && StoryboardLayer::Overlay.name()[0] == 'O' && StoryboardLayer::Overlay.name()[6] == 'y');
}

/// Each storyboard layer is written as its name in the format (see `law_storyboard_layer_names`).
pub proof fn law_storyboard_layer_written_names(v: StoryboardLayer)
    ensures
        v.name() == seq!['B', 'a', 'c', 'k', 'g', 'r', 'o', 'u', 'n', 'd'] <==> v == StoryboardLayer::Background,
        v.name() == seq!['F', 'a', 'i', 'l'] <==> v == StoryboardLayer::Fail,
        v.name() == seq!['P', 'a', 's', 's'] <==> v == StoryboardLayer::Pass,
        v.name() == seq!['F', 'o', 'r', 'e', 'g', 'r', 'o', 'u', 'n', 'd'] <==> v == StoryboardLayer::Foreground,
        v.name() == seq!['O', 'v', 'e', 'r', 'l', 'a', 'y'] <==> v == StoryboardLayer::Overlay,
{
    assert(StoryboardLayer::Background.name().len() == 10 && StoryboardLayer::Background.name()[0] == 'B' && StoryboardLayer::Background.name()[9] == 'd');
    assert(StoryboardLayer::Fail.name().len() == 4 && StoryboardLayer::Fail.name()[0] == 'F' && StoryboardLayer::Fail.name()[3] == 'l');
    assert(StoryboardLayer::Pass.name().len() == 4 && StoryboardLayer::Pass.name()[0] == 'P' && StoryboardLayer::Pass.name()[3] == 's');
    assert(StoryboardLayer::Foreground.name().len() == 10 && StoryboardLayer::Foreground.name()[0] == 'F' && StoryboardLayer::Foreground.name()[9] == 'd');
    assert(StoryboardLayer::Overlay.name().len() == 7 && StoryboardLayer::Overlay.name()[0] == 'O' && StoryboardLayer::Overlay.name()[6] == 'y');
}

/// The loop type of an animation by name: `LoopForever` or `LoopOnce`.
pub proof fn law_loop_type_names(s: Seq<char>)
    ensures
        LoopType::parse_name(s) == Some(LoopType::LoopForever) <==> s == seq!['L', 'o', 'o', 'p', 'F', 'o', 'r', 'e', 'v', 'e', 'r'],
        LoopType::parse_name(s) == Some(LoopType::LoopOnce) <==> s == seq!['L', 'o', 'o', 'p', 'O', 'n', 'c', 'e'],
        LoopType::parse_name(s) is None <==> (s != seq!['L', 'o', 'o', 'p', 'F', 'o', 'r', 'e', 'v', 'e', 'r'] && s != seq!['L', 'o', 'o', 'p', 'O', 'n', 'c', 'e']),
{
    assert(LoopType::LoopForever.name().len() == 11 && LoopType::LoopForever.name()[0] == 'L' && LoopType::LoopForever.name()[10] == 'r');
    assert(LoopType::LoopOnce.name().len() == 8 && LoopType::LoopOnce.name()[0] == 'L' && LoopType::LoopOnce.name()[7] == 'e');
}

/// Each loop type is written as its name in the format (see `law_loop_type_names`).
pub proof fn law_loop_type_written_names(v: LoopType)
    ensures
        v.name() == seq!['L', 'o', 'o', 'p', 'F', 'o', 'r', 'e', 'v', 'e', 'r'] <==> v == LoopType::LoopForever,
        v.name() == seq!['L', 'o', 'o', 'p', 'O', 'n', 'c', 'e'] <==> v == LoopType::LoopOnce,
{
    assert(LoopType::LoopForever.name().len() == 11 && LoopType::LoopForever.name()[0] == 'L' && LoopType::LoopForever.name()[10] == 'r');
    assert(LoopType::LoopOnce.name().len() == 8 && LoopType::LoopOnce.name()[0] == 'L' && LoopType::LoopOnce.name()[7] == 'e');
}

/// The sample set named in a trigger: `All`, `Normal`, `Soft`, `Drum`.
pub proof fn law_trigger_sample_set_names(s: Seq<char>)
    ensures
        TriggerSampleSet::parse_name(s) == Some(TriggerSampleSet::All) <==> s == seq!['A', 'l', 'l'],
        TriggerSampleSet::parse_name(s) == Some(TriggerSampleSet::Normal) <==> s == seq!['N', 'o', 'r', 'm', 'a', 'l'],
        TriggerSampleSet::parse_name(s) == Some(TriggerSampleSet::Soft) <==> s == seq!['S', 'o', 'f', 't'],
        TriggerSampleSet::parse_name(s) == Some(TriggerSampleSet::Drum) <==> s == seq!['D', 'r', 'u', 'm'],
        TriggerSampleSet::parse_name(s) is None <==> (s != seq!['A', 'l', 'l'] && s != seq!['N', 'o', 'r', 'm', 'a', 'l'] && s != seq!['S', 'o', 'f', 't'] && s != seq!['D', 'r', 'u', 'm']),
{
    assert(TriggerSampleSet::All.name().len() == 3 && TriggerSampleSet::All.name()[0] == 'A' && TriggerSampleSet::All.name()[2] == 'l');
    assert(TriggerSampleSet::Normal.name().len() == 6 && TriggerSampleSet::Normal.name()[0] == 'N' && TriggerSampleSet::Normal.name()[5] == 'l');
    assert(TriggerSampleSet::Soft.name().len() == 4 && TriggerSampleSet::Soft.name()[0] == 'S' && TriggerSampleSet::Soft.name()[3] == 't');
    assert(TriggerSampleSet::Drum.name().len() == 4 && TriggerSampleSet::Drum.name()[0] == 'D' && TriggerSampleSet::Drum.name()[3] == 'm');
}

/// Each trigger sample set is written as its name in the format (see `law_trigger_sample_set_names`).
pub proof fn law_trigger_sample_set_written_names(v: TriggerSampleSet)
    ensures
        v.name() == seq!['A', 'l', 'l'] <==> v == TriggerSampleSet::All,
        v.name() == seq!['N', 'o', 'r', 'm', 'a', 'l'] <==> v == TriggerSampleSet::Normal,
        v.name() == seq!['S', 'o', 'f', 't'] <==> v == TriggerSampleSet::Soft,
        v.name() == seq!['D', 'r', 'u', 'm'] <==> v == TriggerSampleSet::Drum,
{
    assert(TriggerSampleSet::All.name().len() == 3 && TriggerSampleSet::All.name()[0] == 'A' && TriggerSampleSet::All.name()[2] == 'l');
    assert(TriggerSampleSet::Normal.name().len() == 6 && TriggerSampleSet::Normal.name()[0] == 'N' && TriggerSampleSet::Normal.name()[5] == 'l');
    assert(TriggerSampleSet::Soft.name().len() == 4 && TriggerSampleSet::Soft.name()[0] == 'S' && TriggerSampleSet::Soft.name()[3] == 't');
    assert(TriggerSampleSet::Drum.name().len() == 4 && TriggerSampleSet::Drum.name()[0] == 'D' && TriggerSampleSet::Drum.name()[3] == 'm');
}

/// The addition named in a trigger: `Whistle`, `Finish`, `Clap`.
pub proof fn law_addition_names(s: Seq<char>)
    ensures
        Addition::parse_name(s) == Some(Addition::Whistle) <==> s == seq!['W', 'h', 'i', 's', 't', 'l', 'e'],
        Addition::parse_name(s) == Some(Addition::Finish) <==> s == seq!['F', 'i', 'n', 'i', 's', 'h'],
        Addition::parse_name(s) == Some(Addition::Clap) <==> s == seq!['C', 'l', 'a', 'p'],
        Addition::parse_name(s) is None <==> (s != seq!['W', 'h', 'i', 's', 't', 'l', 'e'] && s != seq!['F', 'i', 'n', 'i', 's', 'h'] && s != seq!['C', 'l', 'a', 'p']),
{
    assert(Addition::Whistle.name().len() == 7 && Addition::Whistle.name()[0] == 'W' && Addition::Whistle.name()[6] == 'e');
    assert(Addition::Finish.name().len() == 6 && Addition::Finish.name()[0] == 'F' && Addition::Finish.name()[5] == 'h');
    assert(Addition::Clap.name().len() == 4 && Addition::Clap.name()[0] == 'C' && Addition::Clap.name()[3] == 'p');
}

/// Each addition is written as its name in the format (see `law_addition_names`).
pub proof fn law_addition_written_names(v: Addition)
    ensures
        v.name() == seq!['W', 'h', 'i', 's', 't', 'l', 'e'] <==> v == Addition::Whistle,
        v.name() == seq!['F', 'i', 'n', 'i', 's', 'h'] <==> v == Addition::Finish,
        v.name() == seq!['C', 'l', 'a', 'p'] <==> v == Addition::Clap,
{
    assert(Addition::Whistle.name().len() == 7 && Addition::Whistle.name()[0] == 'W' && Addition::Whistle.name()[6] == 'e');
    assert(Addition::Finish.name().len() == 6 && Addition::Finish.name()[0] == 'F' && Addition::Finish.name()[5] == 'h');
    assert(Addition::Clap.name().len() == 4 && Addition::Clap.name()[0] == 'C' && Addition::Clap.name()[3] == 'p');
}

/// The parameter of a command by its letter: `H` flips horizontally, `V`
/// flips vertically, `A` blends additively; nothing else names one.
pub proof fn law_parameter_letters(s: Seq<char>)
    ensures
        Parameter::parse_name(s) == Some(Parameter::ImageFlipHorizontal) <==> s == seq!['H'],
        Parameter::parse_name(s) == Some(Parameter::ImageFlipVertical) <==> s == seq!['V'],
        Parameter::parse_name(s) == Some(Parameter::UseAdditiveColourBlending) <==> s == seq!['A'],
        Parameter::parse_name(s) is None <==> (s != seq!['H'] && s != seq!['V'] && s != seq!['A']),
{
    assert(seq!['H'][0] == 'H' && seq!['V'][0] == 'V' && seq!['A'][0] == 'A');
}

/// Each parameter is written as its letter (see `law_parameter_letters`).
pub proof fn law_parameter_written_letters(v: Parameter)
    ensures
        v.letter() == 'H' <==> v == Parameter::ImageFlipHorizontal,
        v.letter() == 'V' <==> v == Parameter::ImageFlipVertical,
        v.letter() == 'A' <==> v == Parameter::UseAdditiveColourBlending,
{
}

/// The curve type of a slider by its letter or its full name: `B` or
/// `Bezier`, `C` or `Centripetal`, `L` or `Linear`, `P` or `PerfectCircle`;
/// anything else is an error.
pub proof fn law_curve_type_letters(s: Seq<char>)
    ensures
        curve_type_parse(s) == Ok::<Option<CurveType>, crate::hitobjects::error::ParseCurveTypeError>(Some(CurveType::Bezier)) <==> (s == seq!['B'] || s == seq!['B', 'e', 'z', 'i', 'e', 'r']),
        curve_type_parse(s) == Ok::<Option<CurveType>, crate::hitobjects::error::ParseCurveTypeError>(Some(CurveType::Centripetal)) <==> (s == seq!['C'] || s == seq!['C', 'e', 'n', 't', 'r', 'i', 'p', 'e', 't', 'a', 'l']),
        curve_type_parse(s) == Ok::<Option<CurveType>, crate::hitobjects::error::ParseCurveTypeError>(Some(CurveType::Linear)) <==> (s == seq!['L'] || s == seq!['L', 'i', 'n', 'e', 'a', 'r']),
        curve_type_parse(s) == Ok::<Option<CurveType>, crate::hitobjects::error::ParseCurveTypeError>(Some(CurveType::PerfectCircle)) <==> (s == seq!['P'] || s == seq!['P', 'e', 'r', 'f', 'e', 'c', 't', 'C', 'i', 'r', 'c', 'l', 'e']),
{
    assert(seq!['B'][0] == 'B' && seq!['C'][0] == 'C' && seq!['L'][0] == 'L' && seq!['P'][0] == 'P');
    assert(curve_type_name(CurveType::Bezier).len() == 6 && curve_type_name(CurveType::Bezier)[0] == 'B');
    assert(curve_type_name(CurveType::Centripetal).len() == 11 && curve_type_name(CurveType::Centripetal)[0] == 'C');
    assert(curve_type_name(CurveType::Linear).len() == 6 && curve_type_name(CurveType::Linear)[0] == 'L');
    assert(curve_type_name(CurveType::PerfectCircle).len() == 13 && curve_type_name(CurveType::PerfectCircle)[0] == 'P');
}

/// Each curve type is written as its letter (see `law_curve_type_letters`).
pub proof fn law_curve_type_written_letters(c: CurveType)
    ensures
        c.letter() == 'B' <==> c == CurveType::Bezier,
        c.letter() == 'C' <==> c == CurveType::Centripetal,
        c.letter() == 'L' <==> c == CurveType::Linear,
        c.letter() == 'P' <==> c == CurveType::PerfectCircle,
{
}

/// The sample set of the general section by name: `Normal`, `Soft`, `Drum`,
/// `None`, and no other.
pub proof fn law_general_sample_set_names(s: Seq<char>)
    ensures
        GeneralSampleSet::from_name(s) == Some(GeneralSampleSet::Normal) <==> s == seq!['N', 'o', 'r', 'm', 'a', 'l'],
        GeneralSampleSet::from_name(s) == Some(GeneralSampleSet::Soft) <==> s == seq!['S', 'o', 'f', 't'],
        GeneralSampleSet::from_name(s) == Some(GeneralSampleSet::Drum) <==> s == seq!['D', 'r', 'u', 'm'],
        GeneralSampleSet::from_name(s) == Some(GeneralSampleSet::NoSampleSet) <==> s == seq!['N', 'o', 'n', 'e'],
        GeneralSampleSet::from_name(s) is None <==> (s != seq!['N', 'o', 'r', 'm', 'a', 'l'] && s != seq!['S', 'o', 'f', 't'] && s != seq!['D', 'r', 'u', 'm'] && s != seq!['N', 'o', 'n', 'e']),
{
    reveal_strlit("Normal");
    reveal_strlit("Soft");
    reveal_strlit("Drum");
    reveal_strlit("None");
    assert("Normal"@ =~= seq!['N', 'o', 'r', 'm', 'a', 'l']);
    assert("Soft"@ =~= seq!['S', 'o', 'f', 't']);
    assert("Drum"@ =~= seq!['D', 'r', 'u', 'm']);
    assert("None"@ =~= seq!['N', 'o', 'n', 'e']);
}

/// Each sample set of the general section is written as its name (see
/// `law_general_sample_set_names`).
pub proof fn law_general_sample_set_written_names(v: GeneralSampleSet)
    ensures
        v.name() == seq!['N', 'o', 'r', 'm', 'a', 'l'] <==> v == GeneralSampleSet::Normal,
        v.name() == seq!['S', 'o', 'f', 't'] <==> v == GeneralSampleSet::Soft,
        v.name() == seq!['D', 'r', 'u', 'm'] <==> v == GeneralSampleSet::Drum,
        v.name() == seq!['N', 'o', 'n', 'e'] <==> v == GeneralSampleSet::NoSampleSet,
{
    reveal_strlit("Normal");
    reveal_strlit("Soft");
    reveal_strlit("Drum");
    reveal_strlit("None");
    assert("Normal"@ =~= seq!['N', 'o', 'r', 'm', 'a', 'l']);
    assert("Soft"@ =~= seq!['S', 'o', 'f', 't']);
    assert("Drum"@ =~= seq!['D', 'r', 'u', 'm']);
    assert("None"@ =~= seq!['N', 'o', 'n', 'e']);
}

/// The overlay position by name, in versions that have the field:
/// `NoChange`, `Below`, `Above`; any other name is an error.
pub proof fn law_overlay_position_names(s: Seq<char>, version: Version)
    requires
        !(3 <= version <= 13),
    ensures
        OverlayPosition::parse_text(s, version) == Ok::<Option<OverlayPosition>, crate::general::types::ParseOverlayPositionError>(Some(OverlayPosition::NoChange)) <==> s == seq!['N', 'o', 'C', 'h', 'a', 'n', 'g', 'e'],
        OverlayPosition::parse_text(s, version) == Ok::<Option<OverlayPosition>, crate::general::types::ParseOverlayPositionError>(Some(OverlayPosition::Below)) <==> s == seq!['B', 'e', 'l', 'o', 'w'],
        OverlayPosition::parse_text(s, version) == Ok::<Option<OverlayPosition>, crate::general::types::ParseOverlayPositionError>(Some(OverlayPosition::Above)) <==> s == seq!['A', 'b', 'o', 'v', 'e'],
        OverlayPosition::parse_text(s, version) is Err <==> (s != seq!['N', 'o', 'C', 'h', 'a', 'n', 'g', 'e'] && s != seq!['B', 'e', 'l', 'o', 'w'] && s != seq!['A', 'b', 'o', 'v', 'e']),
{
    reveal_strlit("NoChange");
    reveal_strlit("Below");
    reveal_strlit("Above");
    assert("NoChange"@ =~= seq!['N', 'o', 'C', 'h', 'a', 'n', 'g', 'e']);
    assert("Below"@ =~= seq!['B', 'e', 'l', 'o', 'w']);
    assert("Above"@ =~= seq!['A', 'b', 'o', 'v', 'e']);
}

/// Each overlay position is written as its name (see
/// `law_overlay_position_names`).
pub proof fn law_overlay_position_written_names(v: OverlayPosition)
    ensures
        v.name() == seq!['N', 'o', 'C', 'h', 'a', 'n', 'g', 'e'] <==> v == OverlayPosition::NoChange,
        v.name() == seq!['B', 'e', 'l', 'o', 'w'] <==> v == OverlayPosition::Below,
        v.name() == seq!['A', 'b', 'o', 'v', 'e'] <==> v == OverlayPosition::Above,
{
    reveal_strlit("NoChange");
    reveal_strlit("Below");
    reveal_strlit("Above");
    assert("NoChange"@ =~= seq!['N', 'o', 'C', 'h', 'a', 'n', 'g', 'e']);
    assert("Below"@ =~= seq!['B', 'e', 'l', 'o', 'w']);
    assert("Above"@ =~= seq!['A', 'b', 'o', 'v', 'e']);
}

/// The flags of a hitsound number are its binary digits: normal is the
/// ones, whistle the twos, finish the fours and clap the eights.
pub proof fn law_hitsound_bits(v: u8)
    ensures
        hitsound_flags(v).0 <==> v % 2 == 1,
        hitsound_flags(v).1 <==> (v / 2) % 2 == 1,
        hitsound_flags(v).2 <==> (v / 4) % 2 == 1,
        hitsound_flags(v).3 <==> (v / 8) % 2 == 1,
{
    assert((v & 1) == 1 <==> v % 2 == 1) by (bit_vector);
    assert(((v >> 1u8) & 1) == 1 <==> (v / 2) % 2 == 1) by (bit_vector);
    assert(((v >> 2u8) & 1) == 1 <==> (v / 4) % 2 == 1) by (bit_vector);
    assert(((v >> 3u8) & 1) == 1 <==> (v / 8) % 2 == 1) by (bit_vector);
}

/// The number written for hitsound flags has exactly those binary digits
/// (see `law_hitsound_bits`), and is below 16.
pub proof fn law_hitsound_written_bits(f: HitSoundFlags)
    ensures
        hitsound_mask(f) < 16,
        hitsound_mask(f) % 2 == 1 <==> f.0,
        (hitsound_mask(f) / 2) % 2 == 1 <==> f.1,
        (hitsound_mask(f) / 4) % 2 == 1 <==> f.2,
        (hitsound_mask(f) / 8) % 2 == 1 <==> f.3,
{
}

/// The effects of a timing point's number: kiai time is its ones digit in
/// binary, the omitted first barline its eights digit.
pub proof fn law_effects_bits(v: u8)
    ensures
        effects_of(v).kiai_time_enabled <==> v % 2 == 1,
        effects_of(v).no_first_barline_in_taiko_mania <==> (v / 8) % 2 == 1,
{
    assert((v & 1) == 1 <==> v % 2 == 1) by (bit_vector);
    assert(((v >> 3u8) & 1) == 1 <==> (v / 8) % 2 == 1) by (bit_vector);
}

/// The number written for effects has kiai time as its ones digit and the
/// omitted first barline as its eights digit in binary, and no other digit.
pub proof fn law_effects_written_bits(e: Effects)
    ensures
        effects_number(e) % 2 == 1 <==> e.kiai_time_enabled,
        (effects_number(e) / 8) % 2 == 1 <==> e.no_first_barline_in_taiko_mania,
        (effects_number(e) / 2) % 2 == 0,
        (effects_number(e) / 4) % 2 == 0,
        effects_number(e) < 16,
{
}

/// A field holding 0 or 1 reads as `false` or `true`, and nothing else reads.
pub proof fn law_zero_one_bool_numbers(s: Seq<char>)
    ensures
        zero_one_bool_spec(s) == Ok::<bool, crate::helper::ParseZeroOneBoolError>(false) <==> parse_int_spec(s, i32::MIN as int, i32::MAX as int) == Ok::<int, crate::text::IntErrorKind>(0),
        zero_one_bool_spec(s) == Ok::<bool, crate::helper::ParseZeroOneBoolError>(true) <==> parse_int_spec(s, i32::MIN as int, i32::MAX as int) == Ok::<int, crate::text::IntErrorKind>(1),
{
}

/// `false` is written as `0` and `true` as `1`.
pub proof fn law_zero_one_bool_written(b: bool)
    ensures
        bool_text(b) == seq!['0'] <==> !b,
        bool_text(b) == seq!['1'] <==> b,
{
    assert(seq!['0'][0] == '0' && seq!['1'][0] == '1');
}

/// A sample index of a timing point: 0 reads as osu!'s default hitsounds, and a positive
/// number as that index; a negative number does not read.
pub proof fn law_sample_index_numbers(s: Seq<char>)
    ensures
        sample_index_parse(s) == Ok::<SampleIndex, crate::timingpoints::SampleIndexParseError>(SampleIndex::OsuDefaultHitsounds) <==> parse_int_spec(s, i32::MIN as int, i32::MAX as int) == Ok::<int, crate::text::IntErrorKind>(0),
        sample_index_parse(s) matches Ok(SampleIndex::Index(i)) ==> i > 0 && parse_int_spec(s, i32::MIN as int, i32::MAX as int) == Ok::<int, crate::text::IntErrorKind>(i as int),
        (parse_int_spec(s, i32::MIN as int, i32::MAX as int) matches Ok(n) && n < 0) ==> sample_index_parse(s) is Err,
{
}

/// In a timing point, osu!'s default hitsounds are written as 0, and an
/// index as itself.
pub proof fn law_sample_index_written_numbers(v: SampleIndex)
    ensures
        v == SampleIndex::OsuDefaultHitsounds ==> v.number() == 0,
        v matches SampleIndex::Index(i) ==> v.number() == i,
{
}

/// The sample index of a hitsample by number: 0 is the timing point's index,
/// any other number a custom index of that number.
pub proof fn law_hitsample_index_numbers(n: nat)
    ensures
        HitSampleIndex::from_number(n) == HitSampleIndex::TimingPointSampleIndex <==> n == 0,
        n > 0 && n <= usize::MAX ==> HitSampleIndex::from_number(n) == HitSampleIndex::Index(n as usize),
{
}

/// In a hitsample, the timing point's index is written as 0 and a custom
/// index as itself.
pub proof fn law_hitsample_index_written_numbers(v: HitSampleIndex)
    ensures
        v == HitSampleIndex::TimingPointSampleIndex ==> v.number() == 0,
        v matches HitSampleIndex::Index(i) ==> v.number() == i,
{
}

/// Versions 3 and 4 write times 24 milliseconds early: a time read from
/// such a file is 24 more than its field, and a time is written 24 less;
/// other versions read and write times as they are.
pub proof fn law_old_version_time_offset(f: Seq<char>, t: i32, version: Version)
    ensures
        time_field(f, false) == i32_field(f),
        time_field(f, true) matches Some(u) ==> i32_field(f) == Some((u - 24) as i32),
        i32_field(f) matches Some(v) ==> (v + 24 <= i32::MAX ==> time_field(f, true) == Some((v + 24) as i32)),
        has_time_offset(version) <==> (version == 3 || version == 4),
        written_time(t, version) == (if version == 3 || version == 4 { t - 24 } else { t as int }),
{
}

/// A hitsample volume of 0 reads as the timing point's volume, 1 to 100 as
/// that volume, and a larger number not at all; the timing point's volume is
/// written as 0.
pub proof fn law_hit_volume_numbers(s: Seq<char>, v: Option<u8>)
    ensures
        hit_volume_parse(s) == Ok::<Option<u8>, crate::hitobjects::error::ParseVolumeError>(None) <==> parse_int_spec(s, 0, u8::MAX as int) == Ok::<int, crate::text::IntErrorKind>(0),
        hit_volume_parse(s) matches Ok(Some(x)) ==> 1 <= x <= 100 && parse_int_spec(s, 0, u8::MAX as int) == Ok::<int, crate::text::IntErrorKind>(x as int),
        (parse_int_spec(s, 0, u8::MAX as int) matches Ok(n) && n > 100) ==> hit_volume_parse(s) is Err,
        HitVolume::number(v) == (match v { Some(x) => x as int, None => 0 }),
{
}

/// An audio sample's volume reads as 1 to 100 (0 and larger numbers are
/// refused), and one that was not given is written as 100.
pub proof fn law_audio_volume_numbers(s: Seq<char>, v: Option<u8>)
    ensures
        audio_volume_parse(s) matches Ok(x) ==> 1 <= x <= 100 && parse_int_spec(s, 0, 255) == Ok::<int, crate::text::IntErrorKind>(x as int),
        (parse_int_spec(s, 0, 255) matches Ok(n) && (n == 0 || n > 100)) ==> audio_volume_parse(s) is Err,
        volume_value(v) == (match v { Some(x) => x, None => 100u8 }),
{
}

/// A timing point's volume reads as 0 to 100, and a larger number not at all.
pub proof fn law_timing_volume_numbers(s: Seq<char>)
    ensures
        timing_volume_parse(s) matches Ok(x) ==> x <= 100 && parse_int_spec(s, 0, 255) == Ok::<int, crate::text::IntErrorKind>(x as int),
        parse_int_spec(s, 0, 255) matches Ok(n) ==> (n <= 100 ==> timing_volume_parse(s) == Ok::<u8, crate::timingpoints::VolumeError>(n as u8)),
        (parse_int_spec(s, 0, 255) matches Ok(n) && n > 100) ==> timing_volume_parse(s) is Err,
{
}

/// A storyboard object line is a sprite when its first field is `Sprite` and
/// an animation when it is `Animation`.
pub proof fn law_object_words(s: Seq<char>)
    ensures
        object_parse(s) matches Ok(o) ==> {
            let p = split(s, ',');
            &&& (o.object_type is Sprite <==> p[0] == seq!['S', 'p', 'r', 'i', 't', 'e'])
            &&& (o.object_type is Animation <==> p[0] == seq!['A', 'n', 'i', 'm', 'a', 't', 'i', 'o', 'n'])
        },
{
    assert(seq!['S', 'p', 'r', 'i', 't', 'e'][0] == 'S' && seq!['A', 'n', 'i', 'm', 'a', 't', 'i', 'o', 'n'][0] == 'A');
}

/// The general section's sample set by version: version 3 has no sample set
/// field; versions 4 to 13 read each name as itself; later versions read
/// `None` as `Normal` and the other names as themselves.
pub proof fn law_general_sample_set_versions(s: Seq<char>, version: Version)
    ensures
        version == 3 ==> GeneralSampleSet::parse_text(s, version) == Ok::<Option<GeneralSampleSet>, crate::general::types::ParseSampleSetError>(None),
        4 <= version <= 13 ==> GeneralSampleSet::parse_text(s, version) == (match GeneralSampleSet::from_name(s) {
            Some(v) => Ok::<Option<GeneralSampleSet>, crate::general::types::ParseSampleSetError>(Some(v)),
            None => Err(crate::general::types::ParseSampleSetError::UnknownVariant),
        }),
        (version < 3 || version > 13) ==> GeneralSampleSet::parse_text(s, version) == (match GeneralSampleSet::from_name(s) {
            Some(GeneralSampleSet::NoSampleSet) => Ok::<Option<GeneralSampleSet>, crate::general::types::ParseSampleSetError>(Some(GeneralSampleSet::Normal)),
            Some(v) => Ok(Some(v)),
            None => Err(crate::general::types::ParseSampleSetError::UnknownVariant),
        }),
{
}

/// Versions 3 and 4 have no countdown field, and versions 3 to 13 no overlay
/// position field: there every text reads as no value.
pub proof fn law_absent_fields(s: Seq<char>, version: Version)
    ensures
        3 <= version <= 4 ==> Countdown::parse_text(s, version) == Ok::<Option<Countdown>, crate::general::types::ParseCountdownSpeedError>(None),
        3 <= version <= 13 ==> OverlayPosition::parse_text(s, version) == Ok::<Option<OverlayPosition>, crate::general::types::ParseOverlayPositionError>(None),
{
}

} // verus!
