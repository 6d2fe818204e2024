//! Which field of a line each value is read from: the comma-separated (or,
//! for hitsamples, colon-separated) positions that the format gives to the
//! values of timing points, hitobjects, hitsamples, events, commands and
//! storyboard objects, the words that name the kinds of lines, and which
//! error a line that does not read is refused with. With the round-trip
//! laws, these fix where each value is written as well.
use vstd::prelude::*;

use crate::colours::{colour_parse, rgb_parse, skip_digits, Colour, Rgb};
use crate::decimal::parse_decimal_spec;
use crate::events::audio_sample::{audio_sample_parse, audio_volume_parse, ParseAudioSampleError};
use crate::events::normal_event::{
    background_parse, break_parse, colour_transformation_parse, video_parse, ParseBackgroundError, ParseBreakError,
    ParseColourTransformationError, ParseVideoError,
};
use crate::events::storyboard::cmds::{
    command_parse, end_time_field, head_parse, indent_len, CommandPropertiesView, ParseCommandError,
};
use crate::events::storyboard::sprites::{
    loop_type_field, object_fields_parse, origin_parse, Layer as StoryboardLayer, ObjectTypeView, ParseObjectError,
};
use crate::events::storyboard::types::{
    bare_hitsound, failing_word, fill_slots, first_slot, hitsound_fields, hitsound_word, passing_word,
    trigger_type_parse, Addition, Parameter, ParseTriggerTypeError, SampleSet as TriggerSampleSet, TriggerType,
};
use crate::helper::{parse_parts, zero_one_bool_spec};
use crate::hitobjects::error::{ColonSetParseError, ParseHitObjectError, ParseHitSampleError};
use crate::hitobjects::types::{
    curve_point_parse, edge_set_parse, hitsample_parse, sample_field, volume_parse as hit_volume_parse, CurvePoint,
    EdgeSet as EdgeSetType, HitSound, SampleIndex as HitSampleIndex, SampleSet as HitSampleSet,
};
use crate::hitobjects::{
    curve_parse, has_time_offset, hitobject_parse, i32_field, pipe_list_items, rest_from, time_field, type_bit,
    HitObjectParamsView,
};
use crate::laws::{law_curve_point_round_trip, law_edge_set_round_trip, law_rgb_round_trip};
use crate::number_laws::{
    law_addition_names, law_addition_written_names, law_trigger_sample_set_names, law_trigger_sample_set_written_names,
};
use crate::text::{int_text, lemma_split_len, parse_int_spec, split, starts_with, trim, IntErrorKind};
use crate::timingpoints::{
    effects_of, sample_index_parse, sample_set_parse, timing_point_parse, volume_parse, TimingPointField,
    TimingPointParseError,
};
use crate::types::{Position, Version, VersionedFromStr};

verus! {

/// A timing point reads its eight comma-separated fields in this order:
/// time, beat length, meter, sample set, sample index, volume, whether it is
/// uninherited, effects.
pub proof fn law_timing_point_fields(s: Seq<char>)
    ensures
        timing_point_parse(s) matches Ok(t) ==> {
            let p = split(s, ',');
            &&& p.len() >= 8
            &&& parse_int_spec(p[0], i32::MIN as int, i32::MAX as int) == Ok::<int, IntErrorKind>(t.time as int)
            &&& parse_decimal_spec(p[1]) == Some(t.beat_length)
            &&& parse_int_spec(p[2], i32::MIN as int, i32::MAX as int) == Ok::<int, IntErrorKind>(t.meter as int)
            &&& sample_set_parse(p[3]) == Ok::<_, crate::timingpoints::SampleSetParseError>(t.sample_set)
            &&& sample_index_parse(p[4]) == Ok::<_, crate::timingpoints::SampleIndexParseError>(t.sample_index)
            &&& volume_parse(p[5]) == Ok::<u8, crate::timingpoints::VolumeError>(t.volume)
            &&& zero_one_bool_spec(p[6]) == Ok::<bool, crate::helper::ParseZeroOneBoolError>(t.uninherited)
            &&& parse_int_spec(p[7], 0, 255) matches Ok(e) && t.effects == effects_of(e as u8)
        },
{
}

/// An audio sample line is `Sample`, then the time, the layer, the file
/// path and, where there is a fifth field, the volume.
pub proof fn law_audio_sample_fields(s: Seq<char>)
    ensures
        audio_sample_parse(s) matches Ok(a) ==> {
            let p = split(s, ',');
            &&& p[0] == seq!['S', 'a', 'm', 'p', 'l', 'e']
            &&& p.len() >= 4
            &&& i32_field(p[1]) == Some(a.time)
            &&& a.layer.number() == parse_int_spec(p[2], 0, u32::MAX as int)->Ok_0
            &&& a.filepath == p[3]
            &&& (p.len() == 4 <==> a.volume is None)
            &&& (p.len() > 4 ==> audio_volume_parse(p[4]) == Ok::<u8, crate::events::audio_sample::ParseVolumeError>(a.volume->Some_0))
        },
{
}

/// A background line is `0`, then the start time, the file name and,
/// where they follow, the x and y of its position.
pub proof fn law_background_fields(s: Seq<char>)
    ensures
        background_parse(s) matches Ok(b) ==> {
            let p = split(s, ',');
            &&& p[0] == seq!['0']
            &&& p.len() >= 3
            &&& i32_field(p[1]) == Some(b.start_time)
            &&& b.file_name == p[2]
            &&& (p.len() == 3 <==> b.position is None)
            &&& (p.len() > 3 ==> i32_field(p[3]) == Some(b.position->Some_0.x) && i32_field(rest_from(p, 4, ',')) == Some(b.position->Some_0.y))
        },
{
}

/// A video line reads `Video` (or `1`), then the start time, the file name
/// and, where they follow, the x and y of its position.
pub proof fn law_video_fields(s: Seq<char>, version: Version)
    ensures
        video_parse(s, version) matches Ok(v) ==> {
            let p = split(s, ',');
            &&& p[0] == (if v.short_hand { seq!['1'] } else { seq!['V', 'i', 'd', 'e', 'o'] })
            &&& p.len() >= 3
            &&& time_field(p[1], has_time_offset(version)) == Some(v.start_time)
            &&& v.file_name == p[2]
            &&& (p.len() == 3 <==> v.position is None)
            &&& (p.len() > 3 ==> i32_field(p[3]) == Some(v.position->Some_0.x) && i32_field(rest_from(p, 4, ',')) == Some(v.position->Some_0.y))
        },
{
}

/// A break line reads `Break` (or `2`), then the start time, then the end
/// time.
pub proof fn law_break_fields(s: Seq<char>, version: Version)
    ensures
        break_parse(s, version) matches Ok(b) ==> {
            let p = split(s, ',');
            &&& p[0] == (if b.short_hand { seq!['2'] } else { seq!['B', 'r', 'e', 'a', 'k'] })
            &&& p.len() >= 3
            &&& time_field(p[1], has_time_offset(version)) == Some(b.start_time)
            &&& time_field(rest_from(p, 2, ','), has_time_offset(version)) == Some(b.end_time)
        },
{
}

/// A colour transformation line reads `3`, then the start time, then red,
/// green and blue.
pub proof fn law_colour_transformation_fields(s: Seq<char>, version: Version)
    ensures
        colour_transformation_parse(s, version) matches Ok(c) ==> {
            let p = split(s, ',');
            &&& p[0] == seq!['3']
            &&& p.len() >= 5
            &&& time_field(p[1], has_time_offset(version)) == Some(c.start_time)
            &&& parse_int_spec(p[2], 0, 255) == Ok::<int, IntErrorKind>(c.red as int)
            &&& parse_int_spec(p[3], 0, 255) == Ok::<int, IntErrorKind>(c.green as int)
            &&& parse_int_spec(rest_from(p, 4, ','), 0, 255) == Ok::<int, IntErrorKind>(c.blue as int)
        },
{
}

/// A hitsample (other than the empty one and the one that starts with
/// `0:0:0:0:`) reads its colon-separated fields in this order: normal sample
/// set, addition sample set, index, volume, file name; a missing field takes
/// its default.
pub proof fn law_hitsample_fields(s: Seq<char>)
    ensures
        hitsample_parse(s) matches Ok(h) ==> !(s.len() == 0 || (s.len() >= 8 && s.take(8) == seq!['0', ':', '0', ':', '0', ':', '0', ':'])) ==> {
            let p = split(s, ':');
            &&& HitSampleSet::parse_text(p[0], 0) == Ok::<_, crate::hitobjects::error::ParseSampleSetError>(Some(h.normal_set))
            &&& (sample_field(p, 1) matches Some(f) ==> HitSampleSet::parse_text(f, 0) == Ok::<_, crate::hitobjects::error::ParseSampleSetError>(Some(h.addition_set)))
            &&& (sample_field(p, 1) is None ==> h.addition_set == HitSampleSet::NoCustomSampleSet)
            &&& (sample_field(p, 2) matches Some(f) ==> HitSampleIndex::parse_text(f, 0) == Ok::<_, crate::text::ParseIntError>(Some(h.index)))
            &&& (sample_field(p, 2) is None ==> h.index == HitSampleIndex::TimingPointSampleIndex)
            &&& (sample_field(p, 3) matches Some(f) ==> hit_volume_parse(f) == Ok::<_, crate::hitobjects::error::ParseVolumeError>(h.volume))
            &&& (sample_field(p, 3) is None ==> h.volume is None)
            &&& (sample_field(p, 4) matches Some(f) ==> h.filename == f)
            &&& (sample_field(p, 4) is None ==> h.filename == Seq::<char>::empty())
        },
{
}

/// A hitobject reads its first five comma-separated fields in this order:
/// x, y, time, type, hitsound; a new combo is bit 2 of the type and the
/// combo colours skipped are bits 4 to 6.
pub proof fn law_hitobject_fields(s: Seq<char>, version: Version)
    ensures
        hitobject_parse(s, version) matches Ok(h) ==> {
            let p = split(s, ',');
            &&& p.len() >= 5
            &&& i32_field(p[0]) == Some(h.position.x)
            &&& i32_field(p[1]) == Some(h.position.y)
            &&& time_field(p[2], has_time_offset(version)) == Some(h.time)
            &&& HitSound::parse_text(p[4], version) == Ok::<_, crate::hitobjects::error::ParseHitSoundError>(Some(h.hitsound))
            &&& i32_field(p[3]) matches Some(t) && (t >= 0 ==> {
                &&& (h.new_combo <==> (t / 4) % 2 == 1)
                &&& h.combo_skip_count == (t / 16) % 8
            })
        },
{
    reveal(hitobject_parse);
    if let Ok(h) = hitobject_parse(s, version) {
        let p = split(s, ',');
        let t = i32_field(p[3])->Some_0;
        assert(h.new_combo == type_bit(t, 2));
        assert(h.combo_skip_count == (((t as i64 >> 4i64) & 7) as u8));
        assert(t >= 0 ==> ((((t as i64) >> (2i32 as i64)) & 1) == 1 <==> (t / 4) % 2 == 1)) by (bit_vector);
        assert(t >= 0 ==> ((((t as i64) >> 4i64) & 7) as u8) == (t / 16) % 8) by (bit_vector);
    }
}

/// A command reads its easing from the second field, its start time from the
/// third and its end time (which may be empty) from the fourth.
pub proof fn law_command_head_fields(p: Seq<Seq<char>>)
    ensures
        head_parse(p) matches Ok((_, st, et)) ==> {
            &&& p.len() >= 4
            &&& i32_field(p[2]) == Some(st)
            &&& end_time_field(p[3]) == Some(et)
        },
{
}

/// A sprite or animation line reads, after its word, the layer, the origin,
/// the file path and the x and y of its position; an animation then reads
/// its frame count, its frame delay and, where given, its loop type.
pub proof fn law_object_fields(p: Seq<Seq<char>>, animation: bool)
    ensures
        object_fields_parse(p, animation) matches Ok(o) ==> {
            &&& p.len() >= 6
            &&& StoryboardLayer::parse_name(p[1]) == Some(o.layer)
            &&& origin_parse(p[2]) == Ok::<_, crate::events::storyboard::sprites::ParseOriginError>(o.origin)
            &&& i32_field(p[4]) == Some(o.position.x)
            &&& i32_field(p[5]) == Some(o.position.y)
            &&& (!animation ==> o.object_type == ObjectTypeView::Sprite { filepath: p[3] })
            &&& (animation ==> p.len() >= 8)
            &&& (animation ==> (o.object_type matches ObjectTypeView::Animation { frame_count, frame_delay, loop_type, filepath } && {
                &&& filepath == p[3]
                &&& parse_int_spec(p[6], 0, u32::MAX as int) == Ok::<int, IntErrorKind>(frame_count as int)
                &&& parse_decimal_spec(p[7]) == Some(frame_delay)
                &&& loop_type == loop_type_field(p)
            }))
        },
{
}

/// A command line, past its indentation, names its kind by its first field:
/// `F` fade, `M` move, `MX` move x, `MY` move y, `S` scale, `V` vector scale,
/// `R` rotate, `C` colour, `P` parameter, `L` loop, `T` trigger. A command
/// other than a loop or trigger has its start time in the third field and
/// its first values from the fifth field on: x before y, red before green
/// before blue. A loop has its start time in the second field and its loop
/// count after it; a trigger its type in the second field and its start time
/// in the third.
pub proof fn law_command_fields(s: Seq<char>)
    ensures
        command_parse(s) matches Ok(c) ==> {
            let p = split(s.skip(indent_len(s) as int), ',');
            &&& (c.properties is Fade <==> p[0] == seq!['F'])
            &&& (c.properties is Move <==> p[0] == seq!['M'])
            &&& (c.properties is MoveX <==> p[0] == seq!['M', 'X'])
            &&& (c.properties is MoveY <==> p[0] == seq!['M', 'Y'])
            &&& (c.properties is Scale <==> p[0] == seq!['S'])
            &&& (c.properties is VectorScale <==> p[0] == seq!['V'])
            &&& (c.properties is Rotate <==> p[0] == seq!['R'])
            &&& (c.properties is Colour <==> p[0] == seq!['C'])
            &&& (c.properties is Parameter <==> p[0] == seq!['P'])
            &&& (c.properties is Loop <==> p[0] == seq!['L'])
            &&& (c.properties is Trigger <==> p[0] == seq!['T'])
            &&& (!(c.properties is Loop) && !(c.properties is Trigger) ==> i32_field(p[2]) == Some(c.start_time))
            &&& (c.properties matches CommandPropertiesView::Fade { start_opacity, .. } ==> parse_decimal_spec(p[4]) == Some(start_opacity))
            &&& (c.properties matches CommandPropertiesView::Move { positions_xy, .. } ==> parse_decimal_spec(p[4]) == Some(positions_xy.start.0) && parse_decimal_spec(p[5]) == Some(positions_xy.start.1))
            &&& (c.properties matches CommandPropertiesView::MoveX { start_x, .. } ==> parse_decimal_spec(p[4]) == Some(start_x))
            &&& (c.properties matches CommandPropertiesView::MoveY { start_y, .. } ==> parse_decimal_spec(p[4]) == Some(start_y))
            &&& (c.properties matches CommandPropertiesView::Scale { start_scale, .. } ==> parse_decimal_spec(p[4]) == Some(start_scale))
            &&& (c.properties matches CommandPropertiesView::VectorScale { scales_xy, .. } ==> parse_decimal_spec(p[4]) == Some(scales_xy.start.0) && parse_decimal_spec(p[5]) == Some(scales_xy.start.1))
            &&& (c.properties matches CommandPropertiesView::Rotate { start_rotation, .. } ==> parse_decimal_spec(p[4]) == Some(start_rotation))
            &&& (c.properties matches CommandPropertiesView::Colour { colours, .. } ==> {
                &&& parse_int_spec(p[4], 0, 255) == Ok::<int, IntErrorKind>(colours.start.0 as int)
                &&& parse_int_spec(p[5], 0, 255) == Ok::<int, IntErrorKind>(colours.start.1 as int)
                &&& parse_int_spec(p[6], 0, 255) == Ok::<int, IntErrorKind>(colours.start.2 as int)
            })
            &&& (c.properties matches CommandPropertiesView::Parameter { parameter, .. } ==> Parameter::parse_name(p[4]) == Some(parameter))
            &&& (c.properties matches CommandPropertiesView::Loop { loop_count, .. } ==> {
                &&& i32_field(p[1]) == Some(c.start_time)
                &&& parse_int_spec(rest_from(p, 2, ','), 0, u32::MAX as int) == Ok::<int, IntErrorKind>(loop_count as int)
            })
            &&& (c.properties matches CommandPropertiesView::Trigger { trigger_type, .. } ==> {
                &&& trigger_type_parse(p[1]) == Ok::<_, crate::events::storyboard::types::ParseTriggerTypeError>(trigger_type)
                &&& i32_field(p[2]) == Some(c.start_time)
            })
        },
{
    reveal(command_parse);
    assert(seq!['F'][0] == 'F' && seq!['M'][0] == 'M' && seq!['S'][0] == 'S' && seq!['V'][0] == 'V');
    assert(seq!['R'][0] == 'R' && seq!['C'][0] == 'C' && seq!['P'][0] == 'P' && seq!['L'][0] == 'L' && seq!['T'][0] == 'T');
    assert(seq!['M', 'X'][1] == 'X' && seq!['M', 'Y'][1] == 'Y' && seq!['M', 'X'].len() == 2 && seq!['M', 'Y'].len() == 2);
}

/// A colour written as three numbers separated by commas reads as red, then
/// green, then blue.
pub proof fn law_rgb_order(red: u8, green: u8, blue: u8)
    ensures
        rgb_parse(int_text(red as int) + seq![','] + int_text(green as int) + seq![','] + int_text(blue as int))
            == Ok::<Rgb, crate::colours::RGBParseError>(Rgb { red, green, blue }),
{
    law_rgb_round_trip(Rgb { red, green, blue });
}

/// A line of the [Colours] section names its colour by its key: `Combo`
/// followed by the combo number, `SliderTrackOverride`, or `SliderBorder`
/// (also spelled `Sliderborder`).
pub proof fn law_colour_keys(line: Seq<char>)
    ensures
        colour_parse(line) matches Ok(c) ==> {
            let s = trim(line);
            &&& (c matches Colour::Combo(n, _) ==> starts_with(s, "Combo"@) && parse_int_spec(s.subrange(5, skip_digits(s, 5)), i32::MIN as int, i32::MAX as int) == Ok::<int, IntErrorKind>(n as int))
            &&& (c is SliderTrackOverride ==> starts_with(s, "SliderTrackOverride"@))
            &&& (c is SliderBorder ==> s.len() >= 12 && s.subrange(0, 6) == "Slider"@ && (s[6] == 'B' || s[6] == 'b') && s.subrange(7, 12) == "order"@)
        },
{
    reveal(colour_parse);
    reveal_strlit("Combo");
    reveal_strlit("Slider");
    reveal_strlit("order");
    reveal_strlit("SliderTrackOverride");
}

/// The type field of a hitobject says what it is: bit 0 a circle, else bit 1
/// a slider, else bit 3 a spinner, else bit 7 an osu!mania hold. A spinner
/// ends at the time in the sixth field; a slider has its curve in the sixth
/// field, its slides in the seventh, its length in the eighth, then its edge
/// sounds and edge sets; an osu!mania hold ends at the time before the first
/// `:` after the fifth comma.
pub proof fn law_hitobject_kinds(s: Seq<char>, version: Version)
    ensures
        hitobject_parse(s, version) matches Ok(h) ==> {
            let p = split(s, ',');
            let t = i32_field(p[3])->Some_0;
            &&& (h.obj_params is HitCircle <==> (t & 1) == 1)
            &&& (h.obj_params is Slider <==> (t & 1) == 0 && (t & 2) == 2)
            &&& (h.obj_params is Spinner <==> (t & 3) == 0 && (t & 8) == 8)
            &&& (h.obj_params is OsuManiaHold <==> (t & 11) == 0 && (t & 128) == 128)
            &&& (h.obj_params matches HitObjectParamsView::Spinner { end_time } ==> time_field(p[5], has_time_offset(version)) == Some(end_time))
            &&& (h.obj_params matches HitObjectParamsView::OsuManiaHold { end_time } ==> time_field(split(rest_from(p, 5, ','), ':')[0], has_time_offset(version)) == Some(end_time))
            &&& (h.obj_params matches HitObjectParamsView::Slider(sp) ==> {
                &&& p.len() >= 8
                &&& curve_parse(p[5], version) == Ok::<_, ParseHitObjectError>((sp.curve_type, sp.curve_points))
                &&& i32_field(p[6]) == Some(sp.slides)
                &&& parse_decimal_spec(p[7]) == Some(sp.length)
                &&& (p.len() > 8 ==> (parse_parts::<HitSound>(pipe_list_items(p[8]), version) matches Ok(e) && e == sp.edge_sounds))
                &&& (p.len() > 9 ==> (parse_parts::<EdgeSetType>(pipe_list_items(p[9]), version) matches Ok(e) && e == sp.edge_sets))
            })
        },
{
    reveal(hitobject_parse);
    if let Ok(h) = hitobject_parse(s, version) {
        let p = split(s, ',');
        let t = i32_field(p[3])->Some_0;
        assert(type_bit(t, 0) <==> (t & 1) == 1) by (bit_vector);
        assert(type_bit(t, 1) <==> (t & 2) == 2) by (bit_vector);
        assert(type_bit(t, 3) <==> (t & 8) == 8) by (bit_vector);
        assert(type_bit(t, 7) <==> (t & 128) == 128) by (bit_vector);
        assert(((t & 1) == 0 && (t & 2) == 2) <==> ((t & 3) == 2)) by (bit_vector);
        assert(((t & 3) == 0 && (t & 8) == 8) <==> ((t & 11) == 8)) by (bit_vector);
        assert((t & 1) != 1 <==> (t & 1) == 0) by (bit_vector);
        assert((t & 2) != 2 && (t & 1) == 0 <==> (t & 3) == 0) by (bit_vector);
        assert((t & 8) != 8 && (t & 3) == 0 <==> (t & 11) == 0) by (bit_vector);
    }
}

/// A curve point written as `x:y` reads as x, then y.
pub proof fn law_curve_point_order(x: i32, y: i32)
    ensures
        curve_point_parse(int_text(x as int) + seq![':'] + int_text(y as int))
            == Ok::<CurvePoint, ColonSetParseError>(CurvePoint(Position { x, y })),
{
    law_curve_point_round_trip(CurvePoint(Position { x, y }), 14);
}

/// An edge set written as `normal:addition` reads as the normal sample set,
/// then the addition sample set.
pub proof fn law_edge_set_order(normal_set: HitSampleSet, addition_set: HitSampleSet)
    ensures
        edge_set_parse(int_text(normal_set.number() as int) + seq![':'] + int_text(addition_set.number() as int))
            == Ok::<EdgeSetType, ColonSetParseError>(EdgeSetType { normal_set, addition_set }),
{
    law_edge_set_round_trip(EdgeSetType { normal_set, addition_set }, 14);
}

/// A trigger is `Passing`, `Failing`, or `HitSound` with what narrows it.
pub proof fn law_trigger_type_words(s: Seq<char>)
    ensures
        trigger_type_parse(s) == Ok::<TriggerType, ParseTriggerTypeError>(TriggerType::Passing) <==> trim(s) == seq!['P', 'a', 's', 's', 'i', 'n', 'g'],
        trigger_type_parse(s) == Ok::<TriggerType, ParseTriggerTypeError>(TriggerType::Failing) <==> trim(s) == seq!['F', 'a', 'i', 'l', 'i', 'n', 'g'],
        trigger_type_parse(s) matches Ok(TriggerType::HitSound { .. }) ==> starts_with(trim(s), seq!['H', 'i', 't', 'S', 'o', 'u', 'n', 'd']),
{
    assert(seq!['P', 'a', 's', 's', 'i', 'n', 'g'][0] == 'P' && seq!['F', 'a', 'i', 'l', 'i', 'n', 'g'][0] == 'F');
    let t = trim(s);
    if t != passing_word() && t != failing_word() && starts_with(t, hitsound_word()) && t.skip(8).len() > 0 {
        lemma_slots_hitsound(hitsound_fields(t.skip(8)));
    }
}

/// Filling the slots of a `HitSound` trigger gives a `HitSound` trigger.
proof fn lemma_slots_hitsound(fields: Seq<Seq<char>>)
    ensures
        fill_slots(fields) matches Ok((_, t)) ==> t is HitSound,
    decreases fields.len(),
{
    if fields.len() > 0 {
        lemma_slots_hitsound(fields.drop_last());
    }
}

/// The parts after `HitSound` fill its slots in order: the first sample set
/// named is the sample set of the hitsound, a second one the sample set of
/// its additions, then the addition, then a number, the custom sample set;
/// an addition alone fills only the addition.
pub proof fn law_trigger_slots(a: TriggerSampleSet, b: TriggerSampleSet, w: Addition, n: Seq<char>)
    requires
        parse_int_spec(n, 0, u32::MAX as int) is Ok,
    ensures
        fill_slots(seq![a.name()]) == Ok::<(nat, TriggerType), bool>((1, TriggerType::HitSound { sample_set: Some(a), additions_sample_set: None, addition: None, custom_sample_set: None })),
        fill_slots(seq![a.name(), b.name()]) == Ok::<(nat, TriggerType), bool>((2, TriggerType::HitSound { sample_set: Some(a), additions_sample_set: Some(b), addition: None, custom_sample_set: None })),
        fill_slots(seq![a.name(), b.name(), w.name()]) == Ok::<(nat, TriggerType), bool>((3, TriggerType::HitSound { sample_set: Some(a), additions_sample_set: Some(b), addition: Some(w), custom_sample_set: None })),
        fill_slots(seq![a.name(), b.name(), w.name(), n]) == Ok::<(nat, TriggerType), bool>((4, TriggerType::HitSound {
            sample_set: Some(a),
            additions_sample_set: Some(b),
            addition: Some(w),
            custom_sample_set: Some(parse_int_spec(n, 0, u32::MAX as int)->Ok_0 as usize),
        })),
        fill_slots(seq![w.name()]) == Ok::<(nat, TriggerType), bool>((3, TriggerType::HitSound { sample_set: None, additions_sample_set: None, addition: Some(w), custom_sample_set: None })),
{
    law_trigger_sample_set_names(a.name());
    law_trigger_sample_set_names(b.name());
    law_trigger_sample_set_names(w.name());
    law_addition_names(w.name());
    law_addition_written_names(w);
    law_trigger_sample_set_written_names(a);
    law_trigger_sample_set_written_names(b);
    assert(TriggerSampleSet::parse_name(a.name()) == Some(a));
    assert(TriggerSampleSet::parse_name(b.name()) == Some(b));
    assert(Addition::parse_name(w.name()) == Some(w));
    assert(TriggerSampleSet::parse_name(w.name()) is None);
    let s1 = seq![a.name()];
    let s2 = seq![a.name(), b.name()];
    let s3 = seq![a.name(), b.name(), w.name()];
    let s4 = seq![a.name(), b.name(), w.name(), n];
    assert(s1.drop_last() =~= Seq::<Seq<char>>::empty());
    assert(s2.drop_last() =~= s1);
    assert(s3.drop_last() =~= s2);
    assert(s4.drop_last() =~= s3);
    assert(seq![w.name()].drop_last() =~= Seq::<Seq<char>>::empty());
    assert(fill_slots(Seq::<Seq<char>>::empty()) == Ok::<(nat, TriggerType), bool>((0, bare_hitsound())));
    assert(first_slot(w.name(), 0) == Some(2nat)) by {
        assert(first_slot(w.name(), 2) == Some(2nat));
        assert(first_slot(w.name(), 1) == Some(2nat));
    }
}

/// A timing point that does not read is refused naming the first of its
/// eight fields that is missing or does not read, in the order time, beat
/// length, meter, sample set, sample index, volume, uninherited, effects.
pub proof fn law_timing_point_errors(s: Seq<char>)
    ensures
        timing_point_parse(s) matches Err(e) ==> {
            let p = split(s, ',');
            let ok0 = parse_int_spec(p[0], i32::MIN as int, i32::MAX as int) is Ok;
            let ok1 = parse_decimal_spec(p[1]) is Some;
            let ok2 = parse_int_spec(p[2], i32::MIN as int, i32::MAX as int) is Ok;
            let ok3 = sample_set_parse(p[3]) is Ok;
            let ok4 = sample_index_parse(p[4]) is Ok;
            let ok5 = volume_parse(p[5]) is Ok;
            let ok6 = zero_one_bool_spec(p[6]) is Ok;
            let ok7 = parse_int_spec(p[7], 0, 255) is Ok;
            &&& (e == TimingPointParseError::FieldParseError(TimingPointField::Time) <==> !ok0)
            &&& (e == TimingPointParseError::MissingField(TimingPointField::BeatLength) <==> ok0 && p.len() == 1)
            &&& (e == TimingPointParseError::FieldParseError(TimingPointField::BeatLength) <==> ok0 && p.len() >= 2 && !ok1)
            &&& (e == TimingPointParseError::MissingField(TimingPointField::Meter) <==> ok0 && ok1 && p.len() == 2)
            &&& (e == TimingPointParseError::FieldParseError(TimingPointField::Meter) <==> ok0 && ok1 && p.len() >= 3 && !ok2)
            &&& (e == TimingPointParseError::MissingField(TimingPointField::SampleSet) <==> ok0 && ok1 && ok2 && p.len() == 3)
            &&& (e == TimingPointParseError::FieldParseError(TimingPointField::SampleSet) <==> ok0 && ok1 && ok2 && p.len() >= 4 && !ok3)
            &&& (e == TimingPointParseError::MissingField(TimingPointField::SampleIndex) <==> ok0 && ok1 && ok2 && ok3 && p.len() == 4)
            &&& (e == TimingPointParseError::FieldParseError(TimingPointField::SampleIndex) <==> ok0 && ok1 && ok2 && ok3 && p.len() >= 5 && !ok4)
            &&& (e == TimingPointParseError::MissingField(TimingPointField::Volume) <==> ok0 && ok1 && ok2 && ok3 && ok4 && p.len() == 5)
            &&& (e == TimingPointParseError::FieldParseError(TimingPointField::Volume) <==> ok0 && ok1 && ok2 && ok3 && ok4 && p.len() >= 6 && !ok5)
            &&& (e == TimingPointParseError::MissingField(TimingPointField::Uninherited) <==> ok0 && ok1 && ok2 && ok3 && ok4 && ok5 && p.len() == 6)
            &&& (e == TimingPointParseError::FieldParseError(TimingPointField::Uninherited) <==> ok0 && ok1 && ok2 && ok3 && ok4 && ok5 && p.len() >= 7 && !ok6)
            &&& (e == TimingPointParseError::MissingField(TimingPointField::Effects) <==> ok0 && ok1 && ok2 && ok3 && ok4 && ok5 && ok6 && p.len() == 7)
            &&& (e == TimingPointParseError::FieldParseError(TimingPointField::Effects) <==> ok0 && ok1 && ok2 && ok3 && ok4 && ok5 && ok6 && p.len() >= 8 && !ok7)
        },
{
    lemma_split_len(s, ',');
}

/// A hitobject whose first five fields do not all read is refused naming
/// the first of them that is missing or does not read, in the order x, y,
/// time, type, hitsound; one whose type has none of the bits of a circle,
/// slider, spinner or osu!mania hold is refused as of unknown type.
pub proof fn law_hitobject_errors(s: Seq<char>, version: Version)
    ensures
        hitobject_parse(s, version) matches Err(e) ==> {
            let p = split(s, ',');
            let ok0 = i32_field(p[0]) is Some;
            let ok1 = i32_field(p[1]) is Some;
            let ok2 = time_field(p[2], has_time_offset(version)) is Some;
            let ok3 = i32_field(p[3]) is Some;
            let ok4 = HitSound::parse_text(p[4], version) matches Ok(Some(_));
            let t = i32_field(p[3])->Some_0;
            &&& (e == ParseHitObjectError::InvalidX <==> !ok0)
            &&& (e == ParseHitObjectError::MissingY <==> ok0 && p.len() == 1)
            &&& (e == ParseHitObjectError::InvalidY <==> ok0 && p.len() >= 2 && !ok1)
            &&& (e == ParseHitObjectError::MissingTime <==> ok0 && ok1 && p.len() == 2)
            &&& (e == ParseHitObjectError::InvalidTime <==> ok0 && ok1 && p.len() >= 3 && !ok2)
            &&& (e == ParseHitObjectError::MissingObjType <==> ok0 && ok1 && ok2 && p.len() == 3)
            &&& (e == ParseHitObjectError::InvalidObjType <==> ok0 && ok1 && ok2 && p.len() >= 4 && !ok3)
            &&& (e == ParseHitObjectError::MissingHitSound <==> ok0 && ok1 && ok2 && ok3 && p.len() == 4)
            &&& (e == ParseHitObjectError::InvalidHitSound <==> ok0 && ok1 && ok2 && ok3 && p.len() >= 5 && !ok4)
            &&& (e == ParseHitObjectError::UnknownObjType <==> ok0 && ok1 && ok2 && ok3 && p.len() >= 5 && ok4 && (t & 139) == 0)
        },
{
    reveal(hitobject_parse);
    lemma_split_len(s, ',');
    let p = split(s, ',');
    let t = i32_field(p[3])->Some_0;
    assert((t & 139) == 0 <==> (!type_bit(t, 0) && !type_bit(t, 1) && !type_bit(t, 3) && !type_bit(t, 7))) by (bit_vector);
}

/// An audio sample line that does not read is refused naming what is wrong
/// first: a line not starting with `Sample`, then a missing or unreadable
/// time, a missing or unknown layer, a missing file path, and last an
/// unreadable volume.
pub proof fn law_audio_sample_errors(s: Seq<char>)
    ensures
        audio_sample_parse(s) matches Err(e) ==> {
            let p = split(s, ',');
            let word = seq!['S', 'a', 'm', 'p', 'l', 'e'];
            let head = starts_with(s, word) && p[0] == word;
            let ok1 = i32_field(p[1]) is Some;
            let ok2 = parse_int_spec(p[2], 0, u32::MAX as int) matches Ok(l) && 0 <= l <= 3;
            &&& (e == ParseAudioSampleError::WrongEvent <==> !starts_with(s, word))
            &&& (e == ParseAudioSampleError::MissingTime <==> starts_with(s, word) && (p[0] != word || p.len() < 2))
            &&& (e == ParseAudioSampleError::InvalidTime <==> head && p.len() >= 2 && !ok1)
            &&& (e == ParseAudioSampleError::MissingLayer <==> head && ok1 && p.len() == 2)
            &&& (e == ParseAudioSampleError::InvalidLayer <==> head && ok1 && p.len() >= 3 && !ok2)
            &&& (e == ParseAudioSampleError::MissingFilepath <==> head && ok1 && ok2 && p.len() == 3)
            &&& (e == ParseAudioSampleError::InvalidVolume <==> head && ok1 && ok2 && p.len() >= 5 && audio_volume_parse(p[4]) is Err)
        },
{
    lemma_split_len(s, ',');
}

/// A command whose easing, start time or end time does not read is refused
/// naming the first of them that is missing or does not read.
pub proof fn law_command_head_errors(p: Seq<Seq<char>>)
    ensures
        p.len() >= 2 ==> (head_parse(p) matches Err(e) ==> {
            let ok1 = parse_int_spec(p[1], 0, u32::MAX as int) is Ok;
            let ok2 = i32_field(p[2]) is Some;
            &&& (e == ParseCommandError::InvalidEasing <==> !ok1)
            &&& (e == ParseCommandError::MissingStartTime <==> ok1 && p.len() == 2)
            &&& (e == ParseCommandError::InvalidStartTime <==> ok1 && p.len() >= 3 && !ok2)
            &&& (e == ParseCommandError::MissingEndTime <==> ok1 && ok2 && p.len() == 3)
            &&& (e == ParseCommandError::InvalidEndTime <==> ok1 && ok2 && p.len() >= 4 && end_time_field(p[3]) is None)
        }),
{
}

/// A background line that does not read is refused naming what is wrong
/// first: a line not starting with `0`, then a missing or unreadable start
/// time, a missing file name, an unreadable x, a missing or unreadable y.
pub proof fn law_background_errors(s: Seq<char>)
    ensures
        background_parse(s) matches Err(e) ==> {
            let p = split(s, ',');
            let head = starts_with(s, seq!['0']) && p[0] == seq!['0'];
            let ok1 = i32_field(p[1]) is Some;
            &&& (e == ParseBackgroundError::WrongEventType <==> !starts_with(s, seq!['0']))
            &&& (e == ParseBackgroundError::MissingStartTime <==> starts_with(s, seq!['0']) && (p[0] != seq!['0'] || p.len() < 2))
            &&& (e == ParseBackgroundError::InvalidStartTime <==> head && p.len() >= 2 && !ok1)
            &&& (e == ParseBackgroundError::MissingFileName <==> head && ok1 && p.len() == 2)
            &&& (e == ParseBackgroundError::InvalidX <==> head && ok1 && p.len() >= 4 && i32_field(p[3]) is None)
            &&& (e == ParseBackgroundError::MissingY <==> head && ok1 && p.len() == 4 && i32_field(p[3]) is Some)
            &&& (e == ParseBackgroundError::InvalidY <==> head && ok1 && p.len() >= 5 && i32_field(p[3]) is Some && i32_field(rest_from(p, 4, ',')) is None)
        },
{
    lemma_split_len(s, ',');
}

/// A video line that does not read is refused naming what is wrong first: a
/// line starting with neither `1` nor `Video`, then a missing or unreadable
/// start time, a missing file name, an unreadable x, a missing or unreadable y.
pub proof fn law_video_errors(s: Seq<char>, version: Version)
    ensures
        video_parse(s, version) matches Err(e) ==> {
            let p = split(s, ',');
            let short = starts_with(s, seq!['1']);
            let word = seq!['V', 'i', 'd', 'e', 'o'];
            let known = short || starts_with(s, word);
            let head = known && p[0] == (if short { seq!['1'] } else { word });
            let ok1 = time_field(p[1], has_time_offset(version)) is Some;
            &&& (e == ParseVideoError::WrongEventType <==> !known)
            &&& (e == ParseVideoError::MissingStartTime <==> known && (p[0] != (if short { seq!['1'] } else { word }) || p.len() < 2))
            &&& (e == ParseVideoError::InvalidStartTime <==> head && p.len() >= 2 && !ok1)
            &&& (e == ParseVideoError::MissingFileName <==> head && ok1 && p.len() == 2)
            &&& (e == ParseVideoError::InvalidX <==> head && ok1 && p.len() >= 4 && i32_field(p[3]) is None)
            &&& (e == ParseVideoError::MissingY <==> head && ok1 && p.len() == 4 && i32_field(p[3]) is Some)
            &&& (e == ParseVideoError::InvalidY <==> head && ok1 && p.len() >= 5 && i32_field(p[3]) is Some && i32_field(rest_from(p, 4, ',')) is None)
        },
{
    lemma_split_len(s, ',');
}

/// A break line that does not read is refused naming what is wrong first: a
/// line starting with neither `2` nor `Break`, then a missing or unreadable
/// start time, then a missing or unreadable end time.
pub proof fn law_break_errors(s: Seq<char>, version: Version)
    ensures
        break_parse(s, version) matches Err(e) ==> {
            let p = split(s, ',');
            let short = starts_with(s, seq!['2']);
            let word = seq!['B', 'r', 'e', 'a', 'k'];
            let known = short || starts_with(s, word);
            let head = known && p[0] == (if short { seq!['2'] } else { word });
            let ok1 = time_field(p[1], has_time_offset(version)) is Some;
            &&& (e == ParseBreakError::WrongEventType <==> !known)
            &&& (e == ParseBreakError::MissingStartTime <==> known && (p[0] != (if short { seq!['2'] } else { word }) || p.len() < 2))
            &&& (e == ParseBreakError::InvalidStartTime <==> head && p.len() >= 2 && !ok1)
            &&& (e == ParseBreakError::MissingEndTime <==> head && ok1 && p.len() == 2)
            &&& (e == ParseBreakError::InvalidEndTime <==> head && ok1 && p.len() >= 3 && time_field(rest_from(p, 2, ','), has_time_offset(version)) is None)
        },
{
    lemma_split_len(s, ',');
}

/// A colour transformation line that does not read is refused naming what
/// is wrong first: a line not starting with `3`, then a missing or
/// unreadable start time, red, green, blue, in that order.
pub proof fn law_colour_transformation_errors(s: Seq<char>, version: Version)
    ensures
        colour_transformation_parse(s, version) matches Err(e) ==> {
            let p = split(s, ',');
            let head = starts_with(s, seq!['3']) && p[0] == seq!['3'];
            let ok1 = time_field(p[1], has_time_offset(version)) is Some;
            let ok2 = parse_int_spec(p[2], 0, 255) is Ok;
            let ok3 = parse_int_spec(p[3], 0, 255) is Ok;
            &&& (e == ParseColourTransformationError::WrongEventType <==> !starts_with(s, seq!['3']))
            &&& (e == ParseColourTransformationError::MissingStartTime <==> starts_with(s, seq!['3']) && (p[0] != seq!['3'] || p.len() < 2))
            &&& (e == ParseColourTransformationError::InvalidStartTime <==> head && p.len() >= 2 && !ok1)
            &&& (e == ParseColourTransformationError::MissingRed <==> head && ok1 && p.len() == 2)
            &&& (e == ParseColourTransformationError::InvalidRed <==> head && ok1 && p.len() >= 3 && !ok2)
            &&& (e == ParseColourTransformationError::MissingGreen <==> head && ok1 && ok2 && p.len() == 3)
            &&& (e == ParseColourTransformationError::InvalidGreen <==> head && ok1 && ok2 && p.len() >= 4 && !ok3)
            &&& (e == ParseColourTransformationError::MissingBlue <==> head && ok1 && ok2 && ok3 && p.len() == 4)
            &&& (e == ParseColourTransformationError::InvalidBlue <==> head && ok1 && ok2 && ok3 && p.len() >= 5 && parse_int_spec(rest_from(p, 4, ','), 0, 255) is Err)
        },
{
    lemma_split_len(s, ',');
}

/// A sprite or animation line that does not read is refused naming the first
/// of its fields that is missing or does not read, in the order layer,
/// origin, file path, x, y and, for an animation, frame count and frame
/// delay.
pub proof fn law_object_errors(p: Seq<Seq<char>>, animation: bool)
    ensures
        p.len() >= 2 ==> (object_fields_parse(p, animation) matches Err(e) ==> {
            let ok1 = StoryboardLayer::parse_name(p[1]) is Some;
            let ok2 = origin_parse(p[2]) is Ok;
            let ok4 = i32_field(p[4]) is Some;
            let ok5 = i32_field(p[5]) is Some;
            let ok6 = parse_int_spec(p[6], 0, u32::MAX as int) is Ok;
            &&& (e == ParseObjectError::InvalidLayer <==> !ok1)
            &&& (e == ParseObjectError::MissingOrigin <==> ok1 && p.len() == 2)
            &&& (e == ParseObjectError::InvalidOrigin <==> ok1 && p.len() >= 3 && !ok2)
            &&& (e == ParseObjectError::MissingFilePath <==> ok1 && ok2 && p.len() == 3)
            &&& (e == ParseObjectError::MissingPositionX <==> ok1 && ok2 && p.len() == 4)
            &&& (e == ParseObjectError::InvalidPositionX <==> ok1 && ok2 && p.len() >= 5 && !ok4)
            &&& (e == ParseObjectError::MissingPositionY <==> ok1 && ok2 && ok4 && p.len() == 5)
            &&& (e == ParseObjectError::InvalidPositionY <==> ok1 && ok2 && ok4 && p.len() >= 6 && !ok5)
            &&& (e == ParseObjectError::MissingFrameCount <==> animation && ok1 && ok2 && ok4 && ok5 && p.len() == 6)
            &&& (e == ParseObjectError::InvalidFrameCount <==> animation && ok1 && ok2 && ok4 && ok5 && p.len() >= 7 && !ok6)
            &&& (e == ParseObjectError::MissingFrameDelay <==> animation && ok1 && ok2 && ok4 && ok5 && ok6 && p.len() == 7)
            &&& (e == ParseObjectError::InvalidFrameDelay <==> animation && ok1 && ok2 && ok4 && ok5 && ok6 && p.len() >= 8 && parse_decimal_spec(p[7]) is None)
        }),
{
}

/// A hitsample that does not read is refused for its sample sets where the
/// normal or the addition sample set does not read, else for its index where
/// that does not read, else for its volume.
pub proof fn law_hitsample_errors(s: Seq<char>)
    ensures
        hitsample_parse(s) matches Err(e) ==> {
            let p = split(s, ':');
            let sets_ok = HitSampleSet::parse_text(p[0], 0) matches Ok(Some(_)) && (sample_field(p, 1) matches Some(f)
                ==> HitSampleSet::parse_text(f, 0) matches Ok(Some(_)));
            let index_ok = sample_field(p, 2) matches Some(f) ==> HitSampleIndex::parse_text(f, 0) matches Ok(Some(_));
            &&& (e == ParseHitSampleError::InvalidSampleSet <==> !sets_ok)
            &&& (e == ParseHitSampleError::InvalidIndex <==> sets_ok && !index_ok)
            &&& (e == ParseHitSampleError::InvalidVolume <==> sets_ok && index_ok && (sample_field(p, 3) matches Some(f)
                && hit_volume_parse(f) is Err))
        },
{
}

} // verus!
