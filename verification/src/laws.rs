//! Laws of the library: reading what was written gives the value back, and
//! other properties that relate several functions.
use vstd::prelude::*;

use crate::hitobjects::types::{
    hitsound_flags, hitsound_mask, CurvePoint, EdgeSet, HitSound, HitSoundFlags,
    SampleSet as HitSampleSet, Volume as HitVolume, volume_parse,
};
use crate::text::{
    int_text, is_digit, join, lemma_nat_text_digits, lemma_parse_int_text, lemma_split_join,
    nat_text, split,
};
use crate::decimal::reads_back;
use crate::helper::{bool_text, parse_parts, texts, views, zero_one_bool_spec};
use crate::timingpoints::{
    effects_number, effects_of, sample_index_parse, sample_set_parse, timing_point_parse,
    timing_point_text, volume_parse as timing_volume_parse, Effects, SampleIndex as TimingSampleIndex,
    TimingPointView,
};
use crate::events::normal_event::{
    break_parse, break_text, colour_transformation_parse, colour_transformation_text,
    background_parse, background_text, BackgroundView, BreakView, ColourTransformation,
};
use crate::hitobjects::{has_time_offset, i32_field, rest_from, time_field, written_time};
use crate::hitobjects::{
    common_fields, hitobject_parse, mania_parse, hitobject_text, hs_text, opt_seq, type_bit, type_number,
    HitObject, HitObjectParamsView, HitObjectView,
};
use crate::hitobjects::error::ParseHitObjectError;
use crate::hitobjects::{hitobject_lines_parse, vtexts, HitObjects};
use crate::events::audio_sample::{audio_sample_parse, audio_sample_text, AudioSampleView};
use crate::events::storyboard::cmds::{
    command_block, command_lines, command_parse, command_text, indent_len, push_indented,
    CommandPropertiesView, CommandView,
};
use crate::osu_file::{
    empty_file, file_blocks, format_prefix, line_end, multispace_len, osu_file_parse,
    osu_file_text, version_line_parse, OsuFileView,
};
use crate::osb::{occurs, replace_all, variable_parse, variable_text, VariableView, name_end};
use crate::types::{Version, VersionedFromStr, VersionedToString};
use crate::general::types::{Countdown, Mode, SampleSet as GeneralSampleSet};
use crate::events::storyboard::sprites::{Layer, LoopType, Origin, OriginType, OriginValue};
use crate::events::storyboard::types::{
    Addition, Easing, Parameter, SampleSet as StoryboardSampleSet,
};
use crate::events::audio_sample::Layer as SampleLayer;
use crate::events::normal_event::{LayerLegacy, OriginTypeLegacy};
use crate::hitobjects::types::SampleIndex as HitSampleIndex;
use crate::colours::{
    byte_of, colour_parse, colour_rest, colour_text, rgb_parse, rgb_text, skip_blank, skip_digits,
    Colour, ColourParseError, RGBParseError, Rgb,
};
use crate::text::{is_ws, lead_ws, lines, strip_cr, trail_ws, trim, trim_end, trim_start};
use crate::colours::{colour_lines_parse, Colours};
use crate::timingpoints::{timing_lines_parse, TimingPoints};
use crate::hitobjects::types::{default_hitsample, hitsample_parse, hitsample_text, sample_field, HitSampleView};
use crate::text::{digit_value, digits_value, lemma_split_len, lemma_split_push_sep};
use crate::section::{colon_line, spaces};

verus! {

/// The decimal text of an integer holds only digits and a leading `-`.
pub proof fn lemma_int_text_plain(v: int, c: char)
    requires
        c != '-',
        !is_digit(c),
    ensures
        !int_text(v).contains(c),
{
    let n = if v < 0 { (-v) as nat } else { v as nat };
    lemma_nat_text_digits(n);
    if int_text(v).contains(c) {
        let i = choose|i: int| 0 <= i < int_text(v).len() && int_text(v)[i] == c;
        if v < 0 {
            if i > 0 {
                assert(int_text(v)[i] == nat_text(n)[i - 1]);
            }
        } else {
            assert(int_text(v)[i] == nat_text(n)[i]);
        }
    }
}

/// Two parts without the separator are found again by splitting `a sep b`.
pub proof fn lemma_split_two(a: Seq<char>, b: Seq<char>, sep: char)
    requires
        !a.contains(sep),
        !b.contains(sep),
    ensures
        split(a + seq![sep] + b, sep) == seq![a, b],
{
    let parts = seq![a, b];
    assert(parts.drop_last() =~= seq![a]);
    assert(join(seq![a], seq![sep]) == a);
    assert(parts.last() == b);
    assert(join(parts, seq![sep]) =~= a + seq![sep] + b);
    assert forall|i: int| 0 <= i < parts.len() implies !(#[trigger] parts[i]).contains(sep) by {
        if i == 0 {
            assert(parts[i] == a);
        } else {
            assert(parts[i] == b);
        }
    }
    lemma_split_join(parts, sep);
}

/// Reading the written hitsound flags gives them back: the text is the bit
/// mask of the four flags.
pub proof fn law_hitsound_round_trip(f: HitSoundFlags, version: Version)
    ensures
        HitSound::parse_text(HitSound::text_of(f, version).unwrap(), version) == Ok::<
            Option<HitSoundFlags>,
            crate::hitobjects::error::ParseHitSoundError,
        >(Some(f)),
{
    let m = hitsound_mask(f);
    lemma_parse_int_text(m as int, 0, 255);
    let (a, b, c, d) = f;
    let mu = m as u8;
    assert(mu == (if a { 1u8 } else { 0u8 }) + (if b { 2u8 } else { 0u8 }) + (if c { 4u8 } else { 0u8 }) + (if d { 8u8 } else { 0u8 }));
    assert(((mu & 1) == 1) == a && (((mu >> 1u8) & 1) == 1) == b && (((mu >> 2u8) & 1) == 1) == c
        && (((mu >> 3u8) & 1) == 1) == d) by (bit_vector)
        requires
            mu == (if a { 1u8 } else { 0u8 }) + (if b { 2u8 } else { 0u8 }) + (if c { 4u8 } else { 0u8 }) + (if d { 8u8 } else { 0u8 }),
    ;
    assert(hitsound_flags(mu) == f);
}

/// Reading a written sample set of a hitobject gives it back.
pub proof fn law_hitobject_sample_set_round_trip(v: HitSampleSet, version: Version)
    ensures
        HitSampleSet::parse_text(HitSampleSet::text_of(v, version).unwrap(), version) == Ok::<
            Option<HitSampleSet>,
            crate::hitobjects::error::ParseSampleSetError,
        >(Some(v)),
{
    lemma_parse_int_text(v.number() as int, 0, u32::MAX as int);
}

/// Reading a written hitobject volume gives it back; no volume is written as
/// 0 and read back as none.
pub proof fn law_hitobject_volume_round_trip(v: Option<u8>, version: Version)
    requires
        v matches Some(x) ==> 1 <= x <= 100,
    ensures
        HitVolume::parse_text(HitVolume::text_of(v, version).unwrap(), version) == Ok::<
            Option<Option<u8>>,
            crate::hitobjects::error::ParseVolumeError,
        >(Some(v)),
{
    lemma_parse_int_text(HitVolume::number(v), 0, 255);
}

/// Reading a written curve point gives it back.
pub proof fn law_curve_point_round_trip(p: CurvePoint, version: Version)
    ensures
        CurvePoint::parse_text(CurvePoint::text_of(p, version).unwrap(), version) == Ok::<
            Option<CurvePoint>,
            crate::hitobjects::error::ColonSetParseError,
        >(Some(p)),
{
    let a = int_text(p.0.x as int);
    let b = int_text(p.0.y as int);
    lemma_int_text_plain(p.0.x as int, ':');
    lemma_int_text_plain(p.0.y as int, ':');
    lemma_split_two(a, b, ':');
    lemma_parse_int_text(p.0.x as int, i32::MIN as int, i32::MAX as int);
    lemma_parse_int_text(p.0.y as int, i32::MIN as int, i32::MAX as int);
}

/// Reading a written edge set gives it back.
pub proof fn law_edge_set_round_trip(e: EdgeSet, version: Version)
    ensures
        EdgeSet::parse_text(EdgeSet::text_of(e, version).unwrap(), version) == Ok::<
            Option<EdgeSet>,
            crate::hitobjects::error::ColonSetParseError,
        >(Some(e)),
{
    let a = int_text(e.normal_set.number() as int);
    let b = int_text(e.addition_set.number() as int);
    lemma_int_text_plain(e.normal_set.number() as int, ':');
    lemma_int_text_plain(e.addition_set.number() as int, ':');
    lemma_split_two(a, b, ':');
    lemma_parse_int_text(e.normal_set.number() as int, 0, u32::MAX as int);
    lemma_parse_int_text(e.addition_set.number() as int, 0, u32::MAX as int);
}

/// Reading the written number of effects gives them back.
pub proof fn law_effects_round_trip(e: Effects)
    ensures
        effects_of(effects_number(e) as u8) == e,
{
    let n = effects_number(e) as u8;
    let k = e.kiai_time_enabled;
    let b = e.no_first_barline_in_taiko_mania;
    assert(n == (if k { 1u8 } else { 0u8 }) + (if b { 8u8 } else { 0u8 }));
    assert(((n & 1) == 1) == k && (((n >> 3u8) & 1) == 1) == b) by (bit_vector)
        requires
            n == (if k { 1u8 } else { 0u8 }) + (if b { 8u8 } else { 0u8 }),
    ;
}

/// Reading a `|`-separated list that `pipe_vec_to_string` wrote gives the
/// values back, where the list is not empty and each value's text holds no
/// `|` and reads back as the value.
pub proof fn law_pipe_vec_round_trip<T: VersionedFromStr + VersionedToString>(items: Seq<T>, version: Version)
    requires
        items.len() >= 1,
        forall|i: int| 0 <= i < items.len() ==> T::text_of((#[trigger] items[i])@, version) is Some
            && !T::text_of(items[i]@, version).unwrap().contains('|')
            && T::parse_text(T::text_of(items[i]@, version).unwrap(), version) == Ok::<
                Option<<T as View>::V>,
                <T as VersionedFromStr>::Err,
            >(Some(items[i]@)),
    ensures
        parse_parts::<T>(split(join(texts(items, version), seq!['|']), '|'), version) == Ok::<
            Seq<<T as View>::V>,
            crate::helper::PipeVecParseErrView<<T as VersionedFromStr>::Err>,
        >(views(items)),
{
    let vs = views(items);
    let ts = texts(items, version);
    assert(ts =~= vtexts::<T>(vs, version));
    assert forall|i: int| 0 <= i < ts.len() implies !(#[trigger] ts[i]).contains('|') by {
        assert(ts[i] == T::text_of(items[i]@, version).unwrap());
    }
    lemma_split_join(ts, '|');
    assert forall|i: int| 0 <= i < vs.len() implies T::text_of(#[trigger] vs[i], version) is Some
        && T::parse_text(T::text_of(vs[i], version).unwrap(), version) == Ok::<
            Option<<T as View>::V>,
            <T as VersionedFromStr>::Err,
        >(Some(vs[i])) by {
        assert(vs[i] == items[i]@);
    }
    crate::slider_laws::lemma_parse_texts::<T>(vs, version);
}

/// Reading a `0`/`1` boolean that was written gives it back.
pub proof fn law_bool_round_trip(b: bool)
    ensures
        zero_one_bool_spec(bool_text(b)) == Ok::<bool, crate::helper::ParseZeroOneBoolError>(b),
{
    let v: int = if b { 1 } else { 0 };
    lemma_parse_int_text(v, i32::MIN as int, i32::MAX as int);
    assert(int_text(v) =~= bool_text(b));
}

/// Reading a written timing point gives it back, where its beat length is
/// read back from its text, its volume is at most 100, its sample index fits
/// an `i32` and is not `Index(0)` (written as 0, which reads as the default
/// hitsounds).
pub proof fn law_timing_point_round_trip(t: TimingPointView)
    requires
        reads_back(t.beat_length),
        t.volume <= 100,
        t.sample_index.number() <= i32::MAX,
        t.sample_index != TimingSampleIndex::Index(0),
    ensures
        timing_point_parse(timing_point_text(t)) == Ok::<TimingPointView, crate::timingpoints::TimingPointParseError>(t),
{
    let parts = seq![
        int_text(t.time as int),
        t.beat_length.text(),
        int_text(t.meter as int),
        int_text(t.sample_set.number() as int),
        int_text(t.sample_index.number() as int),
        int_text(t.volume as int),
        bool_text(t.uninherited),
        int_text(effects_number(t.effects) as int),
    ];
    lemma_int_text_plain(t.time as int, ',');
    lemma_int_text_plain(t.meter as int, ',');
    lemma_int_text_plain(t.sample_set.number() as int, ',');
    lemma_int_text_plain(t.sample_index.number() as int, ',');
    lemma_int_text_plain(t.volume as int, ',');
    lemma_int_text_plain(effects_number(t.effects) as int, ',');
    assert(!bool_text(t.uninherited).contains(',')) by {
        if bool_text(t.uninherited).contains(',') {
            assert(bool_text(t.uninherited)[0] == ',');
        }
    }
    assert forall|i: int| 0 <= i < parts.len() implies !(#[trigger] parts[i]).contains(',') by {
        if i == 0 { assert(parts[i] == int_text(t.time as int)); }
        else if i == 1 { assert(parts[i] == t.beat_length.text()); }
        else if i == 2 { assert(parts[i] == int_text(t.meter as int)); }
        else if i == 3 { assert(parts[i] == int_text(t.sample_set.number() as int)); }
        else if i == 4 { assert(parts[i] == int_text(t.sample_index.number() as int)); }
        else if i == 5 { assert(parts[i] == int_text(t.volume as int)); }
        else if i == 6 { assert(parts[i] == bool_text(t.uninherited)); }
        else { assert(parts[i] == int_text(effects_number(t.effects) as int)); }
    }
    lemma_split_join(parts, ',');
    let p = split(timing_point_text(t), ',');
    assert(p == parts);
    lemma_parse_int_text(t.time as int, i32::MIN as int, i32::MAX as int);
    lemma_parse_int_text(t.meter as int, i32::MIN as int, i32::MAX as int);
    lemma_parse_int_text(t.sample_set.number() as int, 0, u32::MAX as int);
    lemma_parse_int_text(t.sample_index.number() as int, i32::MIN as int, i32::MAX as int);
    lemma_parse_int_text(t.volume as int, 0, 255);
    lemma_parse_int_text(effects_number(t.effects) as int, 0, 255);
    law_bool_round_trip(t.uninherited);
    law_effects_round_trip(t.effects);
    assert(p[0] == int_text(t.time as int));
    assert(p[1] == t.beat_length.text());
    assert(p[2] == int_text(t.meter as int));
    assert(p[3] == int_text(t.sample_set.number() as int));
    assert(p[4] == int_text(t.sample_index.number() as int));
    assert(p[5] == int_text(t.volume as int));
    assert(p[6] == bool_text(t.uninherited));
    assert(p[7] == int_text(effects_number(t.effects) as int));
    assert(sample_set_parse(p[3]) == Ok::<crate::timingpoints::SampleSet, crate::timingpoints::SampleSetParseError>(t.sample_set));
    assert(sample_index_parse(p[4]) == Ok::<TimingSampleIndex, crate::timingpoints::SampleIndexParseError>(t.sample_index));
    assert(timing_volume_parse(p[5]) == Ok::<u8, crate::timingpoints::VolumeError>(t.volume));
}

/// Whether a time survives being written in the version: versions 3 and 4
/// write times 24 early, which must still fit an `i32`.
pub open spec fn time_fits(t: i32, version: Version) -> bool {
    has_time_offset(version) ==> t >= i32::MIN + 24
}

/// Reading a time written in the version gives it back.
pub proof fn law_time_round_trip(t: i32, version: Version)
    requires
        time_fits(t, version),
    ensures
        time_field(int_text(written_time(t, version)), has_time_offset(version)) == Some(t),
{
    lemma_parse_int_text(written_time(t, version), i32::MIN as int, i32::MAX as int);
}

/// The rest of the parts from `k` on is the one part there, where it is the
/// last.
pub proof fn lemma_rest_last(p: Seq<Seq<char>>, k: int)
    requires
        0 <= k,
        p.len() == k + 1,
    ensures
        rest_from(p, k, ',') == p[k],
{
    assert(p.skip(k) =~= seq![p[k]]);
}

/// Reading a written break gives it back, where its times survive being
/// written in the version.
pub proof fn law_break_round_trip(b: BreakView, version: Version)
    requires
        time_fits(b.start_time, version),
        time_fits(b.end_time, version),
    ensures
        break_parse(break_text(b, version), version) == Ok::<BreakView, crate::events::normal_event::ParseBreakError>(b),
{
    let h = if b.short_hand { seq!['2'] } else { seq!['B', 'r', 'e', 'a', 'k'] };
    let t1 = int_text(written_time(b.start_time, version));
    let t2 = int_text(written_time(b.end_time, version));
    let parts = seq![h, t1, t2];
    lemma_int_text_plain(written_time(b.start_time, version), ',');
    lemma_int_text_plain(written_time(b.end_time, version), ',');
    assert(!h.contains(',')) by {
        if h.contains(',') {
            let i = choose|i: int| 0 <= i < h.len() && h[i] == ',';
        }
    }
    assert forall|i: int| 0 <= i < parts.len() implies !(#[trigger] parts[i]).contains(',') by {
        if i == 0 { assert(parts[i] == h); } else if i == 1 { assert(parts[i] == t1); } else { assert(parts[i] == t2); }
    }
    assert(parts.drop_last() =~= seq![h, t1]);
    assert(seq![h, t1].drop_last() =~= seq![h]);
    assert(join(seq![h], seq![',']) == h);
    assert(join(seq![h, t1], seq![',']) == h + seq![','] + t1);
    assert(join(parts, seq![',']) == h + seq![','] + t1 + seq![','] + t2);
    assert(join(parts, seq![',']) =~= break_text(b, version));
    lemma_split_join(parts, ',');
    let text = break_text(b, version);
    assert(text.take(h.len() as int) =~= h);
    if !b.short_hand {
        assert(text[0] == 'B');
    }
    law_time_round_trip(b.start_time, version);
    law_time_round_trip(b.end_time, version);
    lemma_rest_last(parts, 2);
}

/// Reading a written colour transformation gives it back, in the versions
/// that write one (before 14) and where its start time survives being
/// written.
pub proof fn law_colour_transformation_round_trip(c: ColourTransformation, version: Version)
    requires
        version < 14,
        time_fits(c.start_time, version),
    ensures
        colour_transformation_parse(colour_transformation_text(c, version).unwrap(), version) == Ok::<
            ColourTransformation,
            crate::events::normal_event::ParseColourTransformationError,
        >(c),
{
    let parts = seq![
        seq!['3'],
        int_text(written_time(c.start_time, version)),
        int_text(c.red as int),
        int_text(c.green as int),
        int_text(c.blue as int),
    ];
    lemma_int_text_plain(written_time(c.start_time, version), ',');
    lemma_int_text_plain(c.red as int, ',');
    lemma_int_text_plain(c.green as int, ',');
    lemma_int_text_plain(c.blue as int, ',');
    assert forall|i: int| 0 <= i < parts.len() implies !(#[trigger] parts[i]).contains(',') by {
        if i == 0 {
            if parts[i].contains(',') {
                assert(parts[i][0] == '3');
            }
        } else if i == 1 {
            assert(parts[i] == int_text(written_time(c.start_time, version)));
        } else if i == 2 {
            assert(parts[i] == int_text(c.red as int));
        } else if i == 3 {
            assert(parts[i] == int_text(c.green as int));
        } else {
            assert(parts[i] == int_text(c.blue as int));
        }
    }
    lemma_split_join(parts, ',');
    let text = colour_transformation_text(c, version).unwrap();
    let p = split(text, ',');
    assert(p == parts);
    lemma_join_first(parts);
    assert(text.take(1) == seq!['3']);
    law_time_round_trip(c.start_time, version);
    lemma_parse_int_text(c.red as int, 0, 255);
    lemma_parse_int_text(c.green as int, 0, 255);
    lemma_parse_int_text(c.blue as int, 0, 255);
    lemma_rest_last(parts, 4);
}

/// The join of parts with any separator starts with the first part.
pub proof fn lemma_join_first_sep(parts: Seq<Seq<char>>, sep: Seq<char>)
    requires
        parts.len() >= 1,
    ensures
        join(parts, sep).take(parts[0].len() as int) == parts[0],
        join(parts, sep).len() >= parts[0].len(),
    decreases parts.len(),
{
    if parts.len() > 1 {
        lemma_join_first_sep(parts.drop_last(), sep);
        assert(parts.drop_last()[0] == parts[0]);
        let j = join(parts.drop_last(), sep);
        assert((j + sep + parts.last()).take(parts[0].len() as int) =~= j.take(parts[0].len() as int));
    }
}

/// The join of parts starts with the first part.
pub proof fn lemma_join_first(parts: Seq<Seq<char>>)
    requires
        parts.len() >= 1,
    ensures
        join(parts, seq![',']).take(parts[0].len() as int) == parts[0],
        join(parts, seq![',']).len() >= parts[0].len(),
    decreases parts.len(),
{
    if parts.len() > 1 {
        lemma_join_first(parts.drop_last());
        assert(parts.drop_last()[0] == parts[0]);
        let j = join(parts.drop_last(), seq![',']);
        assert((j + seq![','] + parts.last()).take(parts[0].len() as int) =~= j.take(parts[0].len() as int));
    }
}

/// Reading a written background gives it back, where its file name holds no
/// comma and it has no commands (commands are read from the lines after it).
pub proof fn law_background_round_trip(b: BackgroundView)
    requires
        !b.file_name.contains(','),
        b.commands == Seq::<crate::events::storyboard::cmds::CommandView>::empty(),
    ensures
        background_parse(background_text(b)) == Ok::<BackgroundView, crate::events::normal_event::ParseBackgroundError>(b),
{
    let st = int_text(b.start_time as int);
    lemma_int_text_plain(b.start_time as int, ',');
    let text = background_text(b);
    match b.position {
        None => {
            let parts = seq![seq!['0'], st, b.file_name];
            assert forall|i: int| 0 <= i < parts.len() implies !(#[trigger] parts[i]).contains(',') by {
                if i == 0 {
                    if parts[i].contains(',') { assert(parts[i][0] == '0'); }
                } else if i == 1 { assert(parts[i] == st); } else { assert(parts[i] == b.file_name); }
            }
            assert(join(seq![seq!['0']], seq![',']) == seq!['0']);
            lemma_join_push(seq![seq!['0']], st);
            assert(seq![seq!['0']].push(st) =~= seq![seq!['0'], st]);
            lemma_join_push(seq![seq!['0'], st], b.file_name);
            assert(seq![seq!['0'], st].push(b.file_name) =~= parts);
            assert(join(parts, seq![',']) =~= text);
            lemma_split_join(parts, ',');
            lemma_join_first(parts);
            assert(text.take(1) == seq!['0']);
        },
        Some(pos) => {
            let x = int_text(pos.x as int);
            let y = int_text(pos.y as int);
            lemma_int_text_plain(pos.x as int, ',');
            lemma_int_text_plain(pos.y as int, ',');
            let parts = seq![seq!['0'], st, b.file_name, x, y];
            assert forall|i: int| 0 <= i < parts.len() implies !(#[trigger] parts[i]).contains(',') by {
                if i == 0 {
                    if parts[i].contains(',') { assert(parts[i][0] == '0'); }
                } else if i == 1 { assert(parts[i] == st); } else if i == 2 { assert(parts[i] == b.file_name); }
                else if i == 3 { assert(parts[i] == x); } else { assert(parts[i] == y); }
            }
            assert(join(seq![seq!['0']], seq![',']) == seq!['0']);
            lemma_join_push(seq![seq!['0']], st);
            assert(seq![seq!['0']].push(st) =~= seq![seq!['0'], st]);
            lemma_join_push(seq![seq!['0'], st], b.file_name);
            assert(seq![seq!['0'], st].push(b.file_name) =~= seq![seq!['0'], st, b.file_name]);
            lemma_join_push(seq![seq!['0'], st, b.file_name], x);
            assert(seq![seq!['0'], st, b.file_name].push(x) =~= seq![seq!['0'], st, b.file_name, x]);
            lemma_join_push(seq![seq!['0'], st, b.file_name, x], y);
            assert(seq![seq!['0'], st, b.file_name, x].push(y) =~= parts);
            assert(join(parts, seq![',']) =~= text);
            lemma_split_join(parts, ',');
            lemma_join_first(parts);
            assert(text.take(1) == seq!['0']);
            lemma_parse_int_text(pos.x as int, i32::MIN as int, i32::MAX as int);
            lemma_parse_int_text(pos.y as int, i32::MIN as int, i32::MAX as int);
            lemma_rest_last(parts, 4);
        },
    }
    lemma_parse_int_text(b.start_time as int, i32::MIN as int, i32::MAX as int);
}

/// Reading a written audio sample gives it back, where its volume is given
/// (a missing one is written as 100) and its file path holds no comma.
pub proof fn law_audio_sample_round_trip(a: AudioSampleView)
    requires
        a.volume matches Some(v) && 1 <= v <= 100,
        !a.filepath.contains(','),
    ensures
        audio_sample_parse(audio_sample_text(a)) == Ok::<AudioSampleView, crate::events::audio_sample::ParseAudioSampleError>(a),
{
    let w = seq!['S', 'a', 'm', 'p', 'l', 'e'];
    let t = int_text(a.time as int);
    let l = int_text(a.layer.number());
    let v = int_text(crate::events::audio_sample::volume_value(a.volume) as int);
    lemma_int_text_plain(a.time as int, ',');
    lemma_int_text_plain(a.layer.number(), ',');
    lemma_int_text_plain(crate::events::audio_sample::volume_value(a.volume) as int, ',');
    let parts = seq![w, t, l, a.filepath, v];
    assert(!w.contains(',')) by {
        if w.contains(',') {
            let i = choose|i: int| 0 <= i < w.len() && w[i] == ',';
        }
    }
    assert forall|i: int| 0 <= i < parts.len() implies !(#[trigger] parts[i]).contains(',') by {
        if i == 0 { assert(parts[i] == w); } else if i == 1 { assert(parts[i] == t); } else if i == 2 { assert(parts[i] == l); }
        else if i == 3 { assert(parts[i] == a.filepath); } else { assert(parts[i] == v); }
    }
    lemma_split_join(parts, ',');
    lemma_join_first(parts);
    lemma_parse_int_text(a.time as int, i32::MIN as int, i32::MAX as int);
    lemma_parse_int_text(a.layer.number(), 0, u32::MAX as int);
    lemma_parse_int_text(crate::events::audio_sample::volume_value(a.volume) as int, 0, 255);
}

proof fn lemma_name_end_plain(name: Seq<char>, rest: Seq<char>)
    requires
        !name.contains('='),
        !name.contains('\n'),
    ensures
        name_end(name + seq!['='] + rest) == Some(name.len()),
    decreases name.len(),
{
    let s = name + seq!['='] + rest;
    if name.len() == 0 {
        assert(s[0] == '=');
    } else {
        assert(s[0] == name[0]);
        assert(name[0] != '=' && name[0] != '\n') by {
            if name[0] == '=' { assert(name.contains('=')); }
            if name[0] == '\n' { assert(name.contains('\n')); }
        }
        let t = name.drop_first();
        assert(!t.contains('=')) by {
            if t.contains('=') {
                let i = choose|i: int| 0 <= i < t.len() && t[i] == '=';
                assert(name[i + 1] == '=');
            }
        }
        assert(!t.contains('\n')) by {
            if t.contains('\n') {
                let i = choose|i: int| 0 <= i < t.len() && t[i] == '\n';
                assert(name[i + 1] == '\n');
            }
        }
        lemma_name_end_plain(t, rest);
        assert(s.drop_first() =~= t + seq!['='] + rest);
    }
}

/// Reading a written variable gives it back, where its name holds no `=`
/// and no newline.
pub proof fn law_variable_round_trip(v: VariableView)
    requires
        !v.name.contains('='),
        !v.name.contains('\n'),
    ensures
        variable_parse(variable_text(v)) == Ok::<VariableView, crate::osb::ParseVariableError>(v),
{
    let s = variable_text(v);
    assert(s.drop_first() =~= v.name + seq!['='] + v.value);
    lemma_name_end_plain(v.name, v.value);
    let rest = s.drop_first();
    assert(rest[v.name.len() as int] == '=');
    assert(rest.take(v.name.len() as int) =~= v.name);
    assert(rest.skip((v.name.len() + 1) as int) =~= v.value);
}

/// Replacing a pattern that does not occur changes nothing.
pub proof fn law_replace_absent(s: Seq<char>, pat: Seq<char>, rep: Seq<char>)
    requires
        pat.len() > 0,
        !occurs(s, pat),
    ensures
        replace_all(s, pat, rep) == s,
    decreases s.len(),
{
    if s.len() >= pat.len() {
        assert(!crate::text::starts_with(s, pat));
        law_replace_absent(s.drop_first(), pat, rep);
        assert(seq![s[0]] + s.drop_first() =~= s);
    }
}

/// Joining one more part adds a comma and the part.
pub proof fn lemma_join_push(parts: Seq<Seq<char>>, x: Seq<char>)
    requires
        parts.len() >= 1,
    ensures
        join(parts.push(x), seq![',']) == join(parts, seq![',']) + seq![','] + x,
{
    assert(parts.push(x).drop_last() =~= parts);
}

proof fn lemma_command_parse_loop(s: Seq<char>)
    requires
        s.len() > 0,
        s[0] == 'L',
    ensures
        command_parse(s) == crate::events::storyboard::cmds::loop_parse(split(s, ',')),
{
    reveal(command_parse);
    assert(indent_len(s) == 0);
    assert(s.skip(0) =~= s);
}

/// Reading a written loop command gives it back (its nested commands are
/// read from the lines after it, so it has none here).
pub proof fn law_loop_command_round_trip(start_time: i32, loop_count: u32)
    ensures
        command_parse(command_text(CommandView {
            start_time,
            properties: CommandPropertiesView::Loop { loop_count, commands: Seq::empty() },
        })) == Ok::<CommandView, crate::events::storyboard::cmds::ParseCommandError>(CommandView {
            start_time,
            properties: CommandPropertiesView::Loop { loop_count, commands: Seq::empty() },
        }),
{
    let c = CommandView { start_time, properties: CommandPropertiesView::Loop { loop_count, commands: Seq::empty() } };
    let a = int_text(start_time as int);
    let b = int_text(loop_count as int);
    lemma_int_text_plain(start_time as int, ',');
    lemma_int_text_plain(loop_count as int, ',');
    let parts = seq![seq!['L'], a, b];
    assert forall|i: int| 0 <= i < parts.len() implies !(#[trigger] parts[i]).contains(',') by {
        if i == 0 {
            if parts[i].contains(',') { assert(parts[i][0] == 'L'); }
        } else if i == 1 { assert(parts[i] == a); } else { assert(parts[i] == b); }
    }
    let text = command_text(c);
    assert(text == join(parts, seq![',']));
    lemma_split_join(parts, ',');
    lemma_join_first(parts);
    assert(text.take(1) == seq!['L']);
    assert(text.take(1)[0] == text[0]);
    assert(text[0] == 'L');
    assert(indent_len(text) == 0);
    lemma_command_parse_loop(text);
    lemma_parse_int_text(start_time as int, i32::MIN as int, i32::MAX as int);
    lemma_parse_int_text(loop_count as int, 0, u32::MAX as int);
    lemma_rest_last(parts, 2);
}

/// Adding a command at indentation 1 puts it after the others, and its lines
/// come after theirs in the written text.
pub proof fn law_push_top_level(cs: Seq<CommandView>, c: CommandView, depth: usize)
    ensures
        push_indented(cs, c, 1) == Ok::<Seq<CommandView>, crate::events::storyboard::cmds::CommandPushError>(cs.push(c)),
        command_lines(cs.push(c), depth) == command_lines(cs, depth) + command_block(c, depth),
{
    assert(cs.push(c).drop_last() =~= cs);
}

pub proof fn lemma_line_end_digits(d: Seq<char>, rest: Seq<char>)
    requires
        !d.contains('\r'),
        !d.contains('\n'),
    ensures
        line_end(d + rest) == d.len() + line_end(rest),
    decreases d.len(),
{
    if d.len() > 0 {
        let t = d.drop_first();
        assert(d[0] != '\r' && d[0] != '\n') by {
            if d[0] == '\r' { assert(d.contains('\r')); }
            if d[0] == '\n' { assert(d.contains('\n')); }
        }
        assert(!t.contains('\r')) by {
            if t.contains('\r') {
                let i = choose|i: int| 0 <= i < t.len() && t[i] == '\r';
                assert(d[i + 1] == '\r');
            }
        }
        assert(!t.contains('\n')) by {
            if t.contains('\n') {
                let i = choose|i: int| 0 <= i < t.len() && t[i] == '\n';
                assert(d[i + 1] == '\n');
            }
        }
        lemma_line_end_digits(t, rest);
        assert((d + rest).drop_first() =~= t + rest);
        assert((d + rest)[0] == d[0]);
    } else {
        assert(d + rest =~= rest);
    }
}

/// A file with no sections, written and read back, gives a file with no
/// sections of the same version.
pub proof fn law_empty_file_round_trip(version: Version)
    requires
        3 <= version <= 14,
    ensures
        osu_file_parse(osu_file_text(empty_file(version))) == Ok::<OsuFileView, crate::types::Error<crate::osu_file::ParseError>>(
            empty_file(version),
        ),
{
    let f = empty_file(version);
    assert(file_blocks(f) =~= Seq::<Seq<char>>::empty());
    let d = int_text(version as int);
    let nl = seq!['\n', '\n'];
    let t = osu_file_text(f);
    assert(t =~= format_prefix() + d + nl);
    assert(t[0] == 'o');
    assert(multispace_len(t) == 0);
    assert(t.skip(0) =~= t);
    assert(t.take(17) =~= format_prefix());
    let b = t.skip(17);
    assert(b =~= d + nl);
    lemma_int_text_plain(version as int, '\r');
    lemma_int_text_plain(version as int, '\n');
    lemma_line_end_digits(d, nl);
    assert(line_end(nl) == 0);
    assert(b.take(d.len() as int) =~= d);
    assert(b.skip(d.len() as int) =~= nl);
    lemma_parse_int_text(version as int, 0, u32::MAX as int);
    assert(t.take(0) =~= Seq::<char>::empty());
    assert(split(Seq::<char>::empty(), '\n') == seq![Seq::<char>::empty()]);
    assert(crate::text::lines(Seq::<char>::empty()) =~= Seq::<Seq<char>>::empty());
    assert(version_line_parse(t) == Ok::<(usize, Seq<char>, nat), crate::osu_file::ParseError>((version, nl, 0nat)));
    let e = Seq::<char>::empty();
    assert(nl.drop_last() =~= seq!['\n']);
    assert(seq!['\n'].drop_last() =~= e);
    assert(split(seq!['\n'], '\n') =~= seq![e, e]);
    assert(split(nl, '\n') =~= seq![e, e, e]);
    let ls = crate::text::lines(nl);
    assert(ls =~= seq![e, e]);
    assert(crate::text::trim(e) =~= e);
    assert(!crate::osu_file::ends_preamble(e));
    assert(!crate::osu_file::unexpected_line(e));
    let none: Seq<Seq<char>> = Seq::empty();
    assert(ls.drop_first() =~= seq![e]);
    assert(seq![e].drop_first() =~= none);
    assert(seq![e][0] == e);
    assert(ls[0] == e);
    assert(crate::osu_file::preamble_len(none) == 0);
    assert(crate::osu_file::preamble_len(seq![e]) == 1);
    assert(crate::osu_file::preamble_len(ls) == 2);
    assert(ls.take(2) =~= ls);
    assert(crate::osu_file::first_unexpected(none) is None);
    assert(crate::osu_file::first_unexpected(seq![e]) is None);
    assert(crate::osu_file::first_unexpected(ls) is None);
    assert(crate::sections::sections_of(ls, 2) =~= Seq::<crate::sections::SectionText>::empty());
}

/// The decimal text of an integer is no word that starts with a letter.
pub proof fn lemma_int_text_not_word(v: int, w: Seq<char>)
    requires
        w.len() > 0,
        w[0] != '-',
        !is_digit(w[0]),
    ensures
        int_text(v) != w,
{
    lemma_int_text_plain(v, w[0]);
    if int_text(v) == w {
        assert(int_text(v)[0] == w[0]);
        assert(int_text(v).contains(w[0]));
    }
}

/// Reading a written countdown speed gives it back, in the versions that
/// have the field.
pub proof fn law_countdown_round_trip(c: Countdown, version: Version)
    requires
        !(3 <= version <= 4),
    ensures
        Countdown::parse_text(Countdown::text_of(c, version).unwrap(), version) == Ok::<
            Option<Countdown>,
            crate::general::types::ParseCountdownSpeedError,
        >(Some(c)),
{
    lemma_parse_int_text(c.number() as int, 0, u32::MAX as int);
}

/// Reading a written game mode gives it back, where the version knows the
/// mode (versions before 14 know only osu! and osu!mania).
pub proof fn law_mode_round_trip(m: Mode, version: Version)
    requires
        3 <= version <= 13 ==> (m == Mode::Osu || m == Mode::Mania),
    ensures
        Mode::parse_text(Mode::text_of(m, version).unwrap(), version) == Ok::<
            Option<Mode>,
            crate::general::types::ParseGameModeError,
        >(Some(m)),
{
    lemma_parse_int_text(m.number() as int, 0, u32::MAX as int);
}

/// Reading a written default sample set gives it back, where the version has
/// the field; from version 14 on, `None` reads back as `Normal`.
pub proof fn law_general_sample_set_round_trip(v: GeneralSampleSet, version: Version)
    requires
        version != 3,
        !(4 <= version <= 13) ==> v != GeneralSampleSet::NoSampleSet,
    ensures
        GeneralSampleSet::parse_text(GeneralSampleSet::text_of(v, version).unwrap(), version) == Ok::<
            Option<GeneralSampleSet>,
            crate::general::types::ParseSampleSetError,
        >(Some(v)),
{
    reveal_strlit("Normal");
    reveal_strlit("Soft");
    reveal_strlit("Drum");
    reveal_strlit("None");
    assert("Normal"@[0] == 'N' && "None"@[0] == 'N' && "Normal"@[1] == 'o' && "None"@[1] == 'o');
    assert("Normal"@.len() != "None"@.len());
    assert("Soft"@[0] != "Normal"@[0]);
    assert("Drum"@[0] != "Normal"@[0] && "Drum"@[0] != "Soft"@[0]);
    assert("None"@[0] != "Soft"@[0] && "None"@[0] != "Drum"@[0]);
}

/// Reading a written storyboard layer gives it back.
pub proof fn law_layer_round_trip(l: Layer, version: Version)
    ensures
        Layer::parse_text(Layer::text_of(l, version).unwrap(), version) == Ok::<
            Option<Layer>,
            crate::events::storyboard::sprites::ParseLayerError,
        >(Some(l)),
{
    let b = (Layer::Background).name();
    let f = (Layer::Fail).name();
    let p = (Layer::Pass).name();
    let g = (Layer::Foreground).name();
    assert(b[0] != f[0] && b[0] != p[0] && b[0] != g[0]);
    assert(f.len() != g.len() && f[0] != p[0]);
    assert(p[0] != g[0]);
    assert((Layer::Overlay).name()[0] != b[0] && (Layer::Overlay).name()[0] != f[0]);
    assert((Layer::Overlay).name()[0] != p[0] && (Layer::Overlay).name()[0] != g[0]);
}

/// Reading a written loop type gives it back.
pub proof fn law_loop_type_round_trip(t: LoopType, version: Version)
    ensures
        LoopType::parse_text(LoopType::text_of(t, version).unwrap(), version) == Ok::<
            Option<LoopType>,
            crate::events::storyboard::sprites::ParseLoopTypeError,
        >(Some(t)),
{
    assert((LoopType::LoopForever).name().len() != (LoopType::LoopOnce).name().len());
}

/// The number of an origin type names it.
pub proof fn law_origin_type_number(t: OriginType)
    ensures
        OriginType::from_number(t.number()) == Some(t),
{
}

/// No origin type is named by the decimal text of an integer.
pub proof fn lemma_int_text_no_origin_name(v: int)
    ensures
        OriginType::parse_name(int_text(v)) is None,
{
    lemma_int_text_not_word(v, (OriginType::TopLeft).name());
    lemma_int_text_not_word(v, (OriginType::Centre).name());
    lemma_int_text_not_word(v, (OriginType::CentreLeft).name());
    lemma_int_text_not_word(v, (OriginType::TopRight).name());
    lemma_int_text_not_word(v, (OriginType::BottomCentre).name());
    lemma_int_text_not_word(v, (OriginType::TopCentre).name());
    lemma_int_text_not_word(v, (OriginType::Custom).name());
    lemma_int_text_not_word(v, (OriginType::CentreRight).name());
    lemma_int_text_not_word(v, (OriginType::BottomLeft).name());
    lemma_int_text_not_word(v, (OriginType::BottomRight).name());
}

/// Reading the name of an origin type gives that type.
pub proof fn lemma_origin_name_parse(t: OriginType)
    ensures
        OriginType::parse_name(t.name()) == Some(t),
{
    let n0 = (OriginType::TopLeft).name();
    let n1 = (OriginType::Centre).name();
    let n2 = (OriginType::CentreLeft).name();
    let n3 = (OriginType::TopRight).name();
    let n4 = (OriginType::BottomCentre).name();
    let n5 = (OriginType::TopCentre).name();
    let n6 = (OriginType::Custom).name();
    let n7 = (OriginType::CentreRight).name();
    let n8 = (OriginType::BottomLeft).name();
    let n9 = (OriginType::BottomRight).name();
    assert(n0.len() == 7 && n1.len() == 6 && n2.len() == 10 && n3.len() == 8 && n4.len() == 12);
    assert(n5.len() == 9 && n6.len() == 6 && n7.len() == 11 && n8.len() == 10 && n9.len() == 11);
    assert(n1[1] != n6[1]);
    assert(n2[0] != n8[0]);
    assert(n7[0] != n9[0]);
}

/// Reading a written origin gives it back; an origin given by a number that
/// names no type is written and read as that number.
pub proof fn law_origin_round_trip(o: Origin, version: Version)
    requires
        o.type_ matches OriginValue::Number(n) ==> o.shorthand && OriginType::from_number(n as int) is None,
    ensures
        Origin::parse_text(Origin::text_of(o, version).unwrap(), version) == Ok::<
            Option<Origin>,
            crate::events::storyboard::sprites::ParseOriginError,
        >(Some(o)),
{
    match o.type_ {
        OriginValue::Named(t) => {
            if o.shorthand {
                lemma_int_text_no_origin_name(t.number());
                lemma_parse_int_text(t.number(), i32::MIN as int, i32::MAX as int);
            } else {
                lemma_origin_name_parse(t);
            }
        },
        OriginValue::Number(n) => {
            lemma_int_text_no_origin_name(n as int);
            lemma_parse_int_text(n as int, i32::MIN as int, i32::MAX as int);
        },
    }
}

/// The number of an easing gives it back, except that a number kept as
/// `Other` that has a name reads as the named easing.
pub proof fn law_easing_number_round_trip(e: Easing)
    requires
        e matches Easing::Other(v) ==> v > 34,
    ensures
        Easing::from_number(e.number() as usize) == e,
{
}

/// Reading the letter of a parameter gives it back.
pub proof fn law_parameter_round_trip(p: Parameter, version: Version)
    ensures
        Parameter::parse_text(Parameter::text_of(p, version).unwrap(), version) == Ok::<
            Option<Parameter>,
            crate::events::storyboard::types::ParseParameterError,
        >(Some(p)),
{
    assert(seq!['H'][0] != seq!['V'][0] && seq!['H'][0] != seq!['A'][0] && seq!['V'][0] != seq!['A'][0]);
}

/// Reading the name of a trigger's sample set gives it back.
pub proof fn law_trigger_sample_set_round_trip(v: StoryboardSampleSet, version: Version)
    ensures
        StoryboardSampleSet::parse_text(StoryboardSampleSet::text_of(v, version).unwrap(), version)
            == Ok::<Option<StoryboardSampleSet>, crate::events::storyboard::types::ParseSampleSetError>(
            Some(v),
        ),
{
    let a = (StoryboardSampleSet::All).name();
    let n = (StoryboardSampleSet::Normal).name();
    let so = (StoryboardSampleSet::Soft).name();
    let d = (StoryboardSampleSet::Drum).name();
    assert(a[0] != n[0] && a[0] != so[0] && a[0] != d[0] && n[0] != so[0] && n[0] != d[0] && so[0] != d[0]);
}

/// Reading the name of a trigger's addition gives it back.
pub proof fn law_addition_round_trip(v: Addition, version: Version)
    ensures
        Addition::parse_text(Addition::text_of(v, version).unwrap(), version) == Ok::<
            Option<Addition>,
            crate::events::storyboard::types::ParseAdditionError,
        >(Some(v)),
{
    let w = (Addition::Whistle).name();
    let f = (Addition::Finish).name();
    let c = (Addition::Clap).name();
    assert(w[0] != f[0] && w[0] != c[0] && f[0] != c[0]);
}

/// The number of an audio sample's layer names it.
pub proof fn law_sample_layer_number(l: SampleLayer)
    ensures
        SampleLayer::from_number(l.number()) == Some(l),
{
}

/// The number of a legacy layer names it.
pub proof fn law_layer_legacy_number(l: LayerLegacy)
    ensures
        LayerLegacy::from_number(l.number() as int) == Some(l),
{
}

/// The number of a legacy origin type names it.
pub proof fn law_origin_type_legacy_number(t: OriginTypeLegacy)
    ensures
        OriginTypeLegacy::from_number(t.number() as int) == Some(t),
{
}

/// The number of a hitsample's index gives it back, where an index of 0 is
/// not set (it stands for the timing point's index).
pub proof fn law_hit_sample_index_number(i: HitSampleIndex)
    requires
        i != HitSampleIndex::Index(0),
    ensures
        HitSampleIndex::from_number(i.number()) == i,
{
}

/// `skip_blank` stops at a character that is neither a space nor a tab.
proof fn lemma_skip_blank_stop(s: Seq<char>, i: int)
    requires
        0 <= i < s.len(),
        s[i] != ' ',
        s[i] != '\t',
    ensures
        skip_blank(s, i) == i,
{
}

/// `skip_digits` runs over a run of digits and stops after it.
proof fn lemma_skip_digits_run(s: Seq<char>, i: int, k: int)
    requires
        0 <= i,
        0 <= k,
        i + k <= s.len(),
        forall|j: int| i <= j < i + k ==> is_digit(#[trigger] s[j]),
        i + k == s.len() || !is_digit(s[i + k]),
    ensures
        skip_digits(s, i) == i + k,
    decreases k,
{
    if k > 0 {
        lemma_skip_digits_run(s, i + 1, k - 1);
    }
}

/// A text that neither starts nor ends with whitespace is its own trim.
pub proof fn lemma_trim_plain(s: Seq<char>)
    requires
        s.len() > 0,
        !is_ws(s[0]),
        !is_ws(s.last()),
    ensures
        trim(s) == s,
{
    assert(lead_ws(s) == 0);
    assert(trim_start(s) =~= s);
    assert(trail_ws(s) == 0);
    assert(trim_end(s) =~= s);
}

/// Reading `red,green,blue` finds the digits of a byte, followed by `rest`.
proof fn lemma_byte_digits(s: Seq<char>, i: int, v: u8)
    requires
        0 <= i,
        i + int_text(v as int).len() <= s.len(),
        s.subrange(i, i + int_text(v as int).len()) == int_text(v as int),
        i + int_text(v as int).len() == s.len() || !is_digit(s[i + int_text(v as int).len()]),
    ensures
        skip_digits(s, i) == i + int_text(v as int).len(),
        int_text(v as int).len() >= 1,
        byte_of(s.subrange(i, skip_digits(s, i))) == Some(v),
        is_digit(s[i]),
{
    let d = int_text(v as int);
    lemma_nat_text_digits(v as nat);
    assert forall|j: int| i <= j < i + d.len() implies is_digit(#[trigger] s[j]) by {
        assert(s[j] == s.subrange(i, i + d.len())[j - i]);
    }
    lemma_skip_digits_run(s, i, d.len() as int);
    lemma_parse_int_text(v as int, 0, 255);
    assert(s[i] == d[0]);
}

/// Reading the text of an RGB colour gives it back.
pub proof fn law_rgb_round_trip(c: Rgb)
    ensures
        rgb_parse(rgb_text(c)) == Ok::<Rgb, RGBParseError>(c),
{
    reveal(rgb_parse);
    let r = int_text(c.red as int);
    let g = int_text(c.green as int);
    let b = int_text(c.blue as int);
    let s = rgb_text(c);
    lemma_nat_text_digits(c.red as nat);
    lemma_nat_text_digits(c.green as nat);
    lemma_nat_text_digits(c.blue as nat);
    let p1 = r.len() as int;
    let p2 = p1 + 1 + g.len();
    assert(s.subrange(0, p1) =~= r);
    assert(s[p1] == ',');
    lemma_byte_digits(s, 0, c.red);
    lemma_skip_blank_stop(s, 0);
    lemma_skip_blank_stop(s, p1);
    assert(s.subrange(p1 + 1, p2) =~= g);
    assert(s[p2] == ',');
    lemma_byte_digits(s, p1 + 1, c.green);
    lemma_skip_blank_stop(s, p1 + 1);
    lemma_skip_blank_stop(s, p2);
    assert(s.subrange(p2 + 1, s.len() as int) =~= b);
    lemma_parse_int_text(c.blue as int, 0, 255);
    assert(is_digit(b[0]));
    assert(s[p2 + 1] == b[0]);
    lemma_skip_blank_stop(s, p2 + 1);
}

/// Reading the separator ` : ` that a colour line is written with.
proof fn lemma_colour_separator(s: Seq<char>, e: int, c: Rgb)
    requires
        0 <= e <= s.len(),
        s.skip(e) == seq![' ', ':', ' '] + rgb_text(c),
    ensures
        colour_rest(s, e) == Ok::<Rgb, ColourParseError>(c),
{
    let t = rgb_text(c);
    let sep = seq![' ', ':', ' '];
    assert(s.skip(e).len() == s.len() - e);
    assert((sep + t).len() == 3 + t.len());
    assert forall|k: int| 0 <= k < t.len() implies s[e + 3 + k] == #[trigger] t[k] by {
        assert(s[e + 3 + k] == s.skip(e)[3 + k]);
        assert((sep + t)[3 + k] == t[k]);
    }
    lemma_nat_text_digits(c.red as nat);
    assert(s.len() == e + 3 + t.len());
    assert(s[e] == s.skip(e)[0]);
    assert(s[e + 1] == s.skip(e)[1]);
    assert(s[e + 2] == s.skip(e)[2]);
    assert(s[e + 3] == s.skip(e)[3]);
    assert(t[0] == int_text(c.red as int)[0]);
    assert(skip_blank(s, e + 1) == e + 1);
    assert(skip_blank(s, e) == e + 1);
    assert(skip_blank(s, e + 3) == e + 3);
    assert(skip_blank(s, e + 2) == e + 3);
    assert(s.subrange(e + 3, s.len() as int) =~= t);
    law_rgb_round_trip(c);
}

/// The text of an RGB colour ends with a digit.
proof fn lemma_rgb_text_last(c: Rgb)
    ensures
        rgb_text(c).len() > 0,
        is_digit(rgb_text(c).last()),
{
    lemma_nat_text_digits(c.blue as nat);
    let b = int_text(c.blue as int);
    assert(rgb_text(c).last() == b.last());
}

proof fn lemma_combo_round_trip(n: i32, rgb: Rgb)
    requires
        n >= 0,
    ensures
        colour_parse(colour_text(Colour::Combo(n, rgb))) == Ok::<Colour, ColourParseError>(
            Colour::Combo(n, rgb),
        ),
{
    reveal(colour_parse);
    reveal_strlit("Combo");
    reveal_strlit(" : ");
    let s = colour_text(Colour::Combo(n, rgb));
    let sep = seq![' ', ':', ' '];
    assert(" : "@ =~= sep);
    let d = int_text(n as int);
    lemma_nat_text_digits(n as nat);
    lemma_rgb_text_last(rgb);
    assert(s =~= "Combo"@ + d + sep + rgb_text(rgb));
    assert(s.last() == rgb_text(rgb).last());
    lemma_trim_plain(s);
    assert(s.take(5) =~= "Combo"@);
    let e: int = 5 + d.len() as int;
    assert(s.subrange(5, e) =~= d);
    assert forall|j: int| 5 <= j < e implies is_digit(#[trigger] s[j]) by {
        assert(s[j] == d[j - 5]);
    }
    assert(s[e] == ' ');
    lemma_skip_digits_run(s, 5, d.len() as int);
    lemma_parse_int_text(n as int, i32::MIN as int, i32::MAX as int);
    assert(s.skip(e) =~= sep + rgb_text(rgb));
    lemma_colour_separator(s, e, rgb);
}

proof fn lemma_slider_track_round_trip(rgb: Rgb)
    ensures
        colour_parse(colour_text(Colour::SliderTrackOverride(rgb))) == Ok::<Colour, ColourParseError>(
            Colour::SliderTrackOverride(rgb),
        ),
{
    reveal(colour_parse);
    reveal_strlit("Combo");
    reveal_strlit("SliderTrackOverride : ");
    reveal_strlit("SliderTrackOverride");
    let s = colour_text(Colour::SliderTrackOverride(rgb));
    let sep = seq![' ', ':', ' '];
    lemma_rgb_text_last(rgb);
    assert(s =~= "SliderTrackOverride"@ + sep + rgb_text(rgb));
    assert(s.last() == rgb_text(rgb).last());
    lemma_trim_plain(s);
    assert(s.take(19) =~= "SliderTrackOverride"@);
    assert(s[0] != "Combo"@[0]);
    assert(s.skip(19) =~= sep + rgb_text(rgb));
    lemma_colour_separator(s, 19, rgb);
}

proof fn lemma_slider_border_round_trip(rgb: Rgb)
    ensures
        colour_parse(colour_text(Colour::SliderBorder(rgb))) == Ok::<Colour, ColourParseError>(
            Colour::SliderBorder(rgb),
        ),
{
    reveal(colour_parse);
    reveal_strlit("Combo");
    reveal_strlit("SliderBorder : ");
    reveal_strlit("SliderBorder");
    reveal_strlit("SliderTrackOverride");
    reveal_strlit("Slider");
    reveal_strlit("order");
    let s = colour_text(Colour::SliderBorder(rgb));
    let sep = seq![' ', ':', ' '];
    lemma_rgb_text_last(rgb);
    assert(s =~= "SliderBorder"@ + sep + rgb_text(rgb));
    assert(s.last() == rgb_text(rgb).last());
    lemma_trim_plain(s);
    assert(s[0] != "Combo"@[0]);
    assert(s[6] != "SliderTrackOverride"@[6]);
    assert(s.take(6) =~= "Slider"@);
    assert(s.subrange(7, 12) =~= "order"@);
    assert(s.skip(12) =~= sep + rgb_text(rgb));
    lemma_colour_separator(s, 12, rgb);
}

/// Reading a written colour line gives the colour back; combo numbers are
/// read as digits, so a negative one does not read back.
pub proof fn law_colour_round_trip(c: Colour, version: Version)
    requires
        c matches Colour::Combo(n, _) ==> n >= 0,
    ensures
        Colour::parse_text(Colour::text_of(c, version).unwrap(), version) == Ok::<
            Option<Colour>,
            ColourParseError,
        >(Some(c)),
{
    match c {
        Colour::Combo(n, rgb) => lemma_combo_round_trip(n, rgb),
        Colour::SliderTrackOverride(rgb) => lemma_slider_track_round_trip(rgb),
        Colour::SliderBorder(rgb) => lemma_slider_border_round_trip(rgb),
    }
}

/// A character found in neither of two texts is not in their concatenation.
pub proof fn lemma_concat_lacks(a: Seq<char>, b: Seq<char>, c: char)
    requires
        !a.contains(c),
        !b.contains(c),
    ensures
        !(a + b).contains(c),
{
    if (a + b).contains(c) {
        let i = choose|i: int| 0 <= i < (a + b).len() && (a + b)[i] == c;
        if i < a.len() {
            assert(a[i] == c);
        } else {
            assert(b[i - a.len()] == c);
        }
    }
}

/// Lines that hold no line break and do not end with a carriage return are
/// found again in the text that joins them with line breaks, unless the last
/// is empty.
pub proof fn lemma_lines_join(parts: Seq<Seq<char>>)
    requires
        forall|i: int| 0 <= i < parts.len() ==> !(#[trigger] parts[i]).contains('\n'),
        forall|i: int| 0 <= i < parts.len() ==> strip_cr(#[trigger] parts[i]) == parts[i],
        parts.len() == 0 || parts.last().len() > 0,
    ensures
        lines(join(parts, seq!['\n'])) == parts,
{
    if parts.len() == 0 {
        let e = Seq::<char>::empty();
        assert(split(e, '\n') == seq![e]);
        assert(lines(e) =~= parts);
    } else {
        lemma_split_join(parts, '\n');
        let t = join(parts, seq!['\n']);
        assert(split(t, '\n') == parts);
        assert(lines(t) =~= parts);
    }
}

/// What a colour line's text is made of: no line break, a letter first and a
/// digit last, so that it is its own trim.
proof fn lemma_colour_text_shape(c: Colour)
    ensures
        !colour_text(c).contains('\n'),
        strip_cr(colour_text(c)) == colour_text(c),
        trim(colour_text(c)).len() > 0,
        crate::section_laws::line_fits(colour_text(c)),
{
    reveal_strlit("Combo");
    reveal_strlit(" : ");
    reveal_strlit("SliderTrackOverride : ");
    reveal_strlit("SliderBorder : ");
    let t = colour_text(c);
    let rgb = match c {
        Colour::Combo(_, x) => x,
        Colour::SliderTrackOverride(x) => x,
        Colour::SliderBorder(x) => x,
    };
    lemma_rgb_text_last(rgb);
    lemma_int_text_plain(rgb.red as int, '\n');
    lemma_int_text_plain(rgb.green as int, '\n');
    lemma_int_text_plain(rgb.blue as int, '\n');
    let comma = seq![','];
    assert(!comma.contains('\n')) by {
        if comma.contains('\n') {
            let i = choose|i: int| 0 <= i < comma.len() && comma[i] == '\n';
            assert(comma[i] == ',');
        }
    }
    let r = int_text(rgb.red as int);
    let g = int_text(rgb.green as int);
    let b = int_text(rgb.blue as int);
    lemma_concat_lacks(r, comma, '\n');
    lemma_concat_lacks(r + comma, g, '\n');
    lemma_concat_lacks(r + comma + g, comma, '\n');
    lemma_concat_lacks(r + comma + g + comma, b, '\n');
    assert(rgb_text(rgb) == r + comma + g + comma + b);
    let head = match c {
        Colour::Combo(n, _) => "Combo"@ + int_text(n as int) + " : "@,
        Colour::SliderTrackOverride(_) => "SliderTrackOverride : "@,
        Colour::SliderBorder(_) => "SliderBorder : "@,
    };
    assert(!head.contains('\n')) by {
        if head.contains('\n') {
            let i = choose|i: int| 0 <= i < head.len() && head[i] == '\n';
            match c {
                Colour::Combo(n, _) => {
                    lemma_int_text_plain(n as int, '\n');
                    let d = int_text(n as int);
                    if 5 <= i < 5 + d.len() {
                        assert(d[i - 5] == '\n');
                    }
                },
                _ => {},
            }
        }
    }
    assert(t == head + rgb_text(rgb));
    lemma_concat_lacks(head, rgb_text(rgb), '\n');
    assert(t.last() == rgb_text(rgb).last());
    assert(head.len() > 0 && t[0] == head[0]);
    assert(head[0] == 'C' || head[0] == 'S');
    lemma_trim_plain(t);
}

/// Colour lines of a colour section, read in order.
proof fn lemma_colour_lines_of(v: Seq<Colour>)
    requires
        forall|i: int| 0 <= i < v.len() ==> ((#[trigger] v[i]) matches Colour::Combo(n, _) ==> n >= 0),
    ensures
        colour_lines_parse(v.map_values(|c: Colour| colour_text(c))) == Ok::<
            Seq<Colour>,
            crate::types::Error<crate::colours::ParseError>,
        >(v),
    decreases v.len(),
{
    let ts = v.map_values(|c: Colour| colour_text(c));
    if v.len() == 0 {
        assert(ts.len() == 0);
        assert(v =~= Seq::<Colour>::empty());
    } else {
        let init = v.drop_last();
        assert forall|i: int| 0 <= i < init.len() implies ((#[trigger] init[i]) matches Colour::Combo(n, _) ==> n >= 0) by {
            assert(init[i] == v[i]);
        }
        lemma_colour_lines_of(init);
        assert(ts.drop_last() =~= init.map_values(|c: Colour| colour_text(c)));
        assert(ts.last() == colour_text(v.last()));
        lemma_colour_text_shape(v.last());
        let last = v.last();
        assert(last == v[v.len() - 1]);
        match last {
            Colour::Combo(n, rgb) => lemma_combo_round_trip(n, rgb),
            Colour::SliderTrackOverride(rgb) => lemma_slider_track_round_trip(rgb),
            Colour::SliderBorder(rgb) => lemma_slider_border_round_trip(rgb),
        }
        assert(colour_parse(ts.last()) == Ok::<Colour, ColourParseError>(last));
        assert(trim(ts.last()).len() > 0);
        assert(colour_lines_parse(ts.drop_last()) == Ok::<Seq<Colour>, crate::types::Error<crate::colours::ParseError>>(init));
        assert(init.push(last) =~= v);
    }
}

/// Reading a written colour section gives the colours back, in the versions
/// that have the section.
pub proof fn law_colours_round_trip(v: Seq<Colour>, version: Version)
    requires
        !(3 <= version <= 4),
        forall|i: int| 0 <= i < v.len() ==> ((#[trigger] v[i]) matches Colour::Combo(n, _) ==> n >= 0),
    ensures
        Colours::parse_text(Colours::text_of(v, version).unwrap(), version) == Ok::<
            Option<Seq<Colour>>,
            crate::types::Error<crate::colours::ParseError>,
        >(Some(v)),
        crate::file_laws::text_plain(Colours::text_of(v, version).unwrap()),
{
    let ts = v.map_values(|c: Colour| colour_text(c));
    assert forall|i: int| 0 <= i < ts.len() implies !(#[trigger] ts[i]).contains('\n') && strip_cr(ts[i]) == ts[i] by {
        lemma_colour_text_shape(v[i]);
    }
    if v.len() > 0 {
        lemma_colour_text_shape(v.last());
        assert(ts.last() == colour_text(v.last()));
    }
    lemma_lines_join(ts);
    lemma_colour_lines_of(v);
    assert forall|i: int| 0 <= i < ts.len() implies crate::section_laws::line_fits(#[trigger] ts[i]) by {
        lemma_colour_text_shape(v[i]);
    }
    crate::file_laws::lemma_text_plain_of_lines(ts);
}

/// A character found in no part and not in the separator is not in the join.
pub proof fn lemma_join_lacks(parts: Seq<Seq<char>>, sep: Seq<char>, c: char)
    requires
        forall|i: int| 0 <= i < parts.len() ==> !(#[trigger] parts[i]).contains(c),
        !sep.contains(c),
    ensures
        !join(parts, sep).contains(c),
    decreases parts.len(),
{
    if parts.len() == 1 {
        assert(join(parts, sep) == parts[0]);
    } else if parts.len() > 1 {
        let init = parts.drop_last();
        assert forall|i: int| 0 <= i < init.len() implies !(#[trigger] init[i]).contains(c) by {
            assert(init[i] == parts[i]);
        }
        lemma_join_lacks(init, sep, c);
        assert(parts.last() == parts[parts.len() - 1]);
        lemma_concat_lacks(join(init, sep), sep, c);
        lemma_concat_lacks(join(init, sep) + sep, parts.last(), c);
    }
}

/// The join ends as its last part does.
pub proof fn lemma_join_last(parts: Seq<Seq<char>>, sep: Seq<char>)
    requires
        parts.len() > 0,
        parts.last().len() > 0,
    ensures
        join(parts, sep).len() > 0,
        join(parts, sep).last() == parts.last().last(),
{
    if parts.len() == 1 {
        assert(parts.last() == parts[0]);
    }
}

/// A comma is no line break.
pub proof fn lemma_comma_no_newline()
    ensures
        !seq![','].contains('\n'),
{
    if seq![','].contains('\n') {
        let i = choose|i: int| 0 <= i < seq![','].len() && seq![','][i] == '\n';
        assert(seq![','][i] == ',');
    }
}

/// The text of a timing point sits on one line, when its beat length's does.
proof fn lemma_timing_point_text_shape(t: TimingPointView)
    requires
        !t.beat_length.text().contains('\n'),
    ensures
        !timing_point_text(t).contains('\n'),
        timing_point_text(t).len() > 0,
        strip_cr(timing_point_text(t)) == timing_point_text(t),
        crate::section_laws::line_fits(timing_point_text(t)),
{
    lemma_int_text_first(t.time as int);
    let parts = seq![
        int_text(t.time as int),
        t.beat_length.text(),
        int_text(t.meter as int),
        int_text(t.sample_set.number() as int),
        int_text(t.sample_index.number() as int),
        int_text(t.volume as int),
        bool_text(t.uninherited),
        int_text(effects_number(t.effects) as int),
    ];
    lemma_int_text_plain(t.time as int, '\n');
    lemma_int_text_plain(t.meter as int, '\n');
    lemma_int_text_plain(t.sample_set.number() as int, '\n');
    lemma_int_text_plain(t.sample_index.number() as int, '\n');
    lemma_int_text_plain(t.volume as int, '\n');
    lemma_int_text_plain(effects_number(t.effects) as int, '\n');
    assert(!bool_text(t.uninherited).contains('\n')) by {
        if bool_text(t.uninherited).contains('\n') {
            let i = choose|i: int| 0 <= i < bool_text(t.uninherited).len() && bool_text(t.uninherited)[i] == '\n';
        }
    }
    assert forall|i: int| 0 <= i < parts.len() implies !(#[trigger] parts[i]).contains('\n') by {
    }
    lemma_comma_no_newline();
    lemma_join_lacks(parts, seq![','], '\n');
    lemma_nat_text_digits(effects_number(t.effects));
    lemma_join_last(parts, seq![',']);
    assert(timing_point_text(t) == join(parts, seq![',']));
    let e = int_text(effects_number(t.effects) as int);
    assert(is_digit(e.last()));
    lemma_join_first(parts);
    assert(timing_point_text(t)[0] == join(parts, seq![',']).take(parts[0].len() as int)[0]);
    lemma_trim_nonempty(timing_point_text(t));
}

/// The decimal text of an integer ends with a digit.
pub proof fn lemma_int_text_end(v: int)
    ensures
        int_text(v).len() > 0,
        is_digit(int_text(v).last()),
        int_text(v).last() != '\r',
{
    let n = if v < 0 { (-v) as nat } else { v as nat };
    lemma_nat_text_digits(n);
    assert(int_text(v).last() == nat_text(n).last());
}

/// The decimal text of an integer starts with a digit or a minus sign.
pub proof fn lemma_int_text_first(v: int)
    ensures
        int_text(v).len() > 0,
        !is_ws(int_text(v)[0]),
        int_text(v)[0] != '[',
{
    let n = if v < 0 { (-v) as nat } else { v as nat };
    lemma_nat_text_digits(n);
    if v >= 0 {
        assert(is_digit(int_text(v)[0]));
    }
}

/// The timing point lines of a section, read in order.
proof fn lemma_timing_lines_of(v: Seq<TimingPointView>)
    requires
        forall|i: int| 0 <= i < v.len() ==> timing_point_fits(#[trigger] v[i]),
    ensures
        timing_lines_parse(v.map_values(|t: TimingPointView| timing_point_text(t))) == Ok::<
            Seq<TimingPointView>,
            crate::types::Error<crate::timingpoints::TimingPointsParseError>,
        >(v),
    decreases v.len(),
{
    let ts = v.map_values(|t: TimingPointView| timing_point_text(t));
    if v.len() == 0 {
        assert(ts.len() == 0);
        assert(v =~= Seq::<TimingPointView>::empty());
    } else {
        let init = v.drop_last();
        assert forall|i: int| 0 <= i < init.len() implies timing_point_fits(#[trigger] init[i]) by {
            assert(init[i] == v[i]);
        }
        lemma_timing_lines_of(init);
        assert(ts.drop_last() =~= init.map_values(|t: TimingPointView| timing_point_text(t)));
        let last = v.last();
        assert(last == v[v.len() - 1]);
        assert(ts.last() == timing_point_text(last));
        lemma_timing_point_text_shape(last);
        law_timing_point_round_trip(last);
        assert(init.push(last) =~= v);
    }
}

/// What the timing points law asks of a timing point, and that its beat
/// length's text holds no line break.
pub open spec fn timing_point_fits(t: TimingPointView) -> bool {
    &&& reads_back(t.beat_length)
    &&& !t.beat_length.text().contains('\n')
    &&& t.volume <= 100
    &&& t.sample_index.number() <= i32::MAX
    &&& t.sample_index != TimingSampleIndex::Index(0)
}

/// Reading a written timing points section gives the timing points back,
/// for timing points that the line law covers.
pub proof fn law_timing_points_round_trip(v: Seq<TimingPointView>, version: Version)
    requires
        forall|i: int| 0 <= i < v.len() ==> timing_point_fits(#[trigger] v[i]),
    ensures
        TimingPoints::parse_text(TimingPoints::text_of(v, version).unwrap(), version) == Ok::<
            Option<Seq<TimingPointView>>,
            crate::types::Error<crate::timingpoints::TimingPointsParseError>,
        >(Some(v)),
        crate::file_laws::text_plain(TimingPoints::text_of(v, version).unwrap()),
{
    let ts = v.map_values(|t: TimingPointView| timing_point_text(t));
    assert forall|i: int| 0 <= i < ts.len() implies !(#[trigger] ts[i]).contains('\n') && strip_cr(ts[i]) == ts[i] by {
        lemma_timing_point_text_shape(v[i]);
    }
    if v.len() > 0 {
        lemma_timing_point_text_shape(v.last());
        assert(ts.last() == timing_point_text(v.last()));
    }
    lemma_lines_join(ts);
    lemma_timing_lines_of(v);
    assert forall|i: int| 0 <= i < ts.len() implies crate::section_laws::line_fits(#[trigger] ts[i]) by {
        lemma_timing_point_text_shape(v[i]);
    }
    crate::file_laws::lemma_text_plain_of_lines(ts);
}

/// Digits followed by `:` that start with `0:` are the number 0.
proof fn lemma_zero_before_colon(s: Seq<char>, j: int, x: nat, w: Seq<char>)
    requires
        0 <= j <= s.len(),
        s.skip(j) == nat_text(x) + seq![':'] + w,
        j + 1 < s.len(),
        s[j] == '0',
        s[j + 1] == ':',
    ensures
        x == 0,
        nat_text(x).len() == 1,
{
    lemma_nat_text_digits(x);
    let t = nat_text(x);
    assert(s[j] == s.skip(j)[0]);
    assert(s[j + 1] == s.skip(j)[1]);
    if t.len() >= 2 {
        assert(s.skip(j)[1] == t[1]);
        assert(is_digit(t[1]));
    }
    assert(t.len() == 1);
    assert(t[0] == '0');
    assert(t.drop_last().len() == 0);
    assert(digits_value(t) == digits_value(t.drop_last()) * 10 + digit_value(t.last()));
}

/// Whether a hitsample's numbers are all 0, which is how the default
/// hitsample is written.
pub open spec fn zero_numbers(h: HitSampleView) -> bool {
    h.normal_set.number() == 0 && h.addition_set.number() == 0 && h.index.number() == 0
        && HitVolume::number(h.volume) == 0
}

/// The five parts of a hitsample's text, from version 12 on.
pub open spec fn hitsample_parts(h: HitSampleView) -> Seq<Seq<char>> {
    seq![
        int_text(h.normal_set.number() as int),
        int_text(h.addition_set.number() as int),
        int_text(h.index.number() as int),
        int_text(HitVolume::number(h.volume)),
        h.filename,
    ]
}

proof fn lemma_hitsample_split(h: HitSampleView, version: Version)
    requires
        version >= 12,
        !h.filename.contains(':'),
    ensures
        split(hitsample_text(h, version).unwrap(), ':') == hitsample_parts(h),
        hitsample_text(h, version).unwrap() == join(hitsample_parts(h), seq![':']),
{
    let parts = hitsample_parts(h);
    let col = seq![':'];
    let t = hitsample_text(h, version).unwrap();
    assert(t =~= parts[0] + col + parts[1] + col + parts[2] + col + parts[3] + col + parts[4]);
    reveal_with_fuel(join, 6);
    assert(join(parts, col) =~= t);
    lemma_int_text_plain(h.normal_set.number() as int, ':');
    lemma_int_text_plain(h.addition_set.number() as int, ':');
    lemma_int_text_plain(h.index.number() as int, ':');
    lemma_int_text_plain(HitVolume::number(h.volume), ':');
    assert forall|i: int| 0 <= i < parts.len() implies !(#[trigger] parts[i]).contains(':') by {}
    lemma_split_join(parts, ':');
}

proof fn lemma_hitsample_not_zeros(h: HitSampleView, version: Version)
    requires
        version >= 12,
        !zero_numbers(h),
    ensures
        !(hitsample_text(h, version).unwrap().len() >= 8 && hitsample_text(h, version).unwrap().take(8)
            == seq!['0', ':', '0', ':', '0', ':', '0', ':']),
{
    let a = int_text(h.normal_set.number() as int);
    let b = int_text(h.addition_set.number() as int);
    let c = int_text(h.index.number() as int);
    let d = int_text(HitVolume::number(h.volume));
    let f = h.filename;
    let col = seq![':'];
    let t = hitsample_text(h, version).unwrap();
    let zeros = seq!['0', ':', '0', ':', '0', ':', '0', ':'];
    assert(t =~= a + col + b + col + c + col + d + col + f);
    if t.len() >= 8 && t.take(8) == zeros {
        assert(t.take(8)[0] == t[0] && t.take(8)[1] == t[1] && t.take(8)[2] == t[2] && t.take(8)[3] == t[3]);
        assert(t.take(8)[4] == t[4] && t.take(8)[5] == t[5] && t.take(8)[6] == t[6] && t.take(8)[7] == t[7]);
        assert(t.skip(0) =~= a + col + (b + col + c + col + d + col + f));
        lemma_zero_before_colon(t, 0, h.normal_set.number(), b + col + c + col + d + col + f);
        assert(t.skip(2) =~= b + col + (c + col + d + col + f));
        lemma_zero_before_colon(t, 2, h.addition_set.number(), c + col + d + col + f);
        assert(t.skip(4) =~= c + col + (d + col + f));
        lemma_zero_before_colon(t, 4, h.index.number(), d + col + f);
        assert(t.skip(6) =~= d + col + f);
        lemma_zero_before_colon(t, 6, HitVolume::number(h.volume) as nat, f);
    }
}

proof fn lemma_hitsample_fields(h: HitSampleView, version: Version)
    requires
        version >= 12,
        !h.filename.contains(':'),
        h.index != HitSampleIndex::Index(0),
        h.index.number() <= u32::MAX,
        h.volume matches Some(v) ==> 1 <= v <= 100,
    ensures
        ({
            let p = split(hitsample_text(h, version).unwrap(), ':');
            &&& HitSampleSet::parse_text(p[0], 0) == Ok::<Option<HitSampleSet>, crate::hitobjects::error::ParseSampleSetError>(Some(h.normal_set))
            &&& sample_field(p, 1) == Some(p[1])
            &&& HitSampleSet::parse_text(p[1], 0) == Ok::<Option<HitSampleSet>, crate::hitobjects::error::ParseSampleSetError>(Some(h.addition_set))
            &&& sample_field(p, 2) == Some(p[2])
            &&& HitSampleIndex::parse_text(p[2], 0) == Ok::<Option<HitSampleIndex>, crate::text::ParseIntError>(Some(h.index))
            &&& sample_field(p, 3) == Some(p[3])
            &&& volume_parse(p[3]) == Ok::<Option<u8>, crate::hitobjects::error::ParseVolumeError>(h.volume)
            &&& (match sample_field(p, 4) {
                None => Seq::<char>::empty(),
                Some(f) => f,
            }) == h.filename
        }),
{
    lemma_hitsample_split(h, version);
    let p = split(hitsample_text(h, version).unwrap(), ':');
    law_hitobject_sample_set_round_trip(h.normal_set, 0);
    law_hitobject_sample_set_round_trip(h.addition_set, 0);
    lemma_parse_int_text(h.index.number() as int, 0, u32::MAX as int);
    assert(HitSampleIndex::from_number(h.index.number()) == h.index);
    lemma_parse_int_text(HitVolume::number(h.volume), 0, 255);
    if h.filename.len() == 0 {
        assert(sample_field(p, 4) is None);
        assert(h.filename =~= Seq::<char>::empty());
    }
}

/// Reading a hitsample written in version 10 or 11 gives it back, where it
/// has no volume and no file name (those versions write neither).
proof fn lemma_short_hitsample_round_trip(h: HitSampleView, version: Version)
    requires
        10 <= version <= 11,
        h.index != HitSampleIndex::Index(0),
        h.index.number() <= u32::MAX,
        h.volume is None,
        h.filename.len() == 0,
    ensures
        hitsample_parse(hitsample_text(h, version).unwrap()) == Ok::<HitSampleView, crate::hitobjects::error::ParseHitSampleError>(h),
{
    let a = int_text(h.normal_set.number() as int);
    let b = int_text(h.addition_set.number() as int);
    let c = int_text(h.index.number() as int);
    let col = seq![':'];
    let t = hitsample_text(h, version).unwrap();
    let parts = seq![a, b, c];
    assert(t =~= a + col + b + col + c);
    reveal_with_fuel(join, 4);
    assert(join(parts, col) =~= t);
    lemma_int_text_plain(h.normal_set.number() as int, ':');
    lemma_int_text_plain(h.addition_set.number() as int, ':');
    lemma_int_text_plain(h.index.number() as int, ':');
    assert forall|i: int| 0 <= i < parts.len() implies !(#[trigger] parts[i]).contains(':') by {}
    lemma_split_join(parts, ':');
    let p = split(t, ':');
    law_hitobject_sample_set_round_trip(h.normal_set, 0);
    law_hitobject_sample_set_round_trip(h.addition_set, 0);
    lemma_parse_int_text(h.index.number() as int, 0, u32::MAX as int);
    assert(HitSampleIndex::from_number(h.index.number()) == h.index);
    lemma_nat_text_digits(h.normal_set.number());
    lemma_nat_text_digits(h.addition_set.number());
    lemma_nat_text_digits(h.index.number());
    assert(a.len() == 1 && b.len() == 1);
    assert(h.filename =~= Seq::<char>::empty());
    if t.len() >= 8 && t.take(8) == seq!['0', ':', '0', ':', '0', ':', '0', ':'] {
        assert(t.take(8)[5] == t[5]);
        assert(t[5] == c[1]);
        assert(is_digit(c[1]));
    }
    assert(sample_field(p, 3) is None);
    assert(sample_field(p, 4) is None);
    assert(sample_field(p, 1) == Some(b));
    assert(sample_field(p, 2) == Some(c));
}

/// Whether a hitsample is read back from its text in a version that writes
/// one (10 on): it fits the hitsample law, and before version 12, which
/// writes no volume or file name, it has neither.
pub open spec fn hitsample_fits_in(h: HitSampleView, version: Version) -> bool {
    &&& hitsample_fits(h)
    &&& (version < 12 ==> h.volume is None && h.filename.len() == 0)
}

/// Reading a written hitsample gives it back, from version 10 on (earlier
/// versions write none), where it fits the hitsample law in the version (see
/// `hitsample_fits_in`): its file name holds no `:`; an index of 0 is not set
/// (it stands for the timing point's index); a hitsample whose numbers are
/// all 0 has no file name, as the text `0:0:0:0:` reads as the default
/// hitsample whatever follows it; and before version 12 it has no volume and
/// no file name.
pub proof fn law_hitsample_round_trip(h: HitSampleView, version: Version)
    requires
        version >= 10,
        hitsample_fits_in(h, version),
    ensures
        hitsample_parse(hitsample_text(h, version).unwrap()) == Ok::<HitSampleView, crate::hitobjects::error::ParseHitSampleError>(h),
{
    if version < 12 {
        lemma_short_hitsample_round_trip(h, version);
    } else {
        let t = hitsample_text(h, version).unwrap();
        let zeros = seq!['0', ':', '0', ':', '0', ':', '0', ':'];
        if zero_numbers(h) {
            lemma_nat_text_digits(0);
            assert(int_text(0) =~= seq!['0']);
            assert(h.filename =~= Seq::<char>::empty());
            assert(t =~= zeros);
            assert(t.take(8) =~= zeros);
            assert(h.normal_set == HitSampleSet::NoCustomSampleSet);
            assert(h.addition_set == HitSampleSet::NoCustomSampleSet);
            assert(h.index == HitSampleIndex::TimingPointSampleIndex);
            assert(h.volume is None);
        } else {
            lemma_hitsample_not_zeros(h, version);
            lemma_hitsample_fields(h, version);
            lemma_hitsample_split(h, version);
        }
    }
}

/// Joining the parts of a split gives the text back.
pub proof fn lemma_join_split(s: Seq<char>, sep: char)
    ensures
        join(split(s, sep), seq![sep]) == s,
    decreases s.len(),
{
    lemma_split_len(s, sep);
    if s.len() == 0 {
        assert(split(s, sep) == seq![Seq::<char>::empty()]);
        assert(join(seq![Seq::<char>::empty()], seq![sep]) == Seq::<char>::empty());
        assert(s =~= Seq::<char>::empty());
    } else {
        let s0 = s.drop_last();
        let c = s.last();
        lemma_join_split(s0, sep);
        lemma_split_len(s0, sep);
        let prev = split(s0, sep);
        if c == sep {
            let q = prev.push(Seq::<char>::empty());
            assert(split(s, sep) == q);
            assert(q.drop_last() =~= prev);
            assert(join(q, seq![sep]) == join(prev, seq![sep]) + seq![sep] + Seq::<char>::empty());
            assert(join(q, seq![sep]) =~= s);
        } else {
            let q = prev.update(prev.len() - 1, prev.last().push(c));
            assert(split(s, sep) == q);
            if prev.len() == 1 {
                assert(join(prev, seq![sep]) == prev[0]);
                assert(prev.last() == prev[0]);
                assert(s =~= s0.push(c));
                assert(q.len() == 1);
                assert(q[0] == prev.last().push(c));
                assert(prev[0] == s0);
                assert(q[0] =~= s);
                assert(join(q, seq![sep]) == q[0]);
            } else {
                assert(q.drop_last() =~= prev.drop_last());
                assert(q.last() == prev.last().push(c));
                assert(join(prev, seq![sep]) == join(prev.drop_last(), seq![sep]) + seq![sep] + prev.last());
                assert(join(q, seq![sep]) == join(q.drop_last(), seq![sep]) + seq![sep] + q.last());
                assert(join(prev, seq![sep]) == s0);
                assert(s =~= s0.push(c));
                assert(join(q, seq![sep]) =~= join(prev, seq![sep]).push(c));
            }
        }
    }
}

/// Splitting the join of parts without the separator, followed by the
/// separator and more text, gives the parts and then the split of the rest.
pub proof fn lemma_split_prefix(parts: Seq<Seq<char>>, b: Seq<char>, sep: char)
    requires
        parts.len() >= 1,
        forall|i: int| 0 <= i < parts.len() ==> !(#[trigger] parts[i]).contains(sep),
    ensures
        split(join(parts, seq![sep]) + seq![sep] + b, sep) == parts + split(b, sep),
    decreases b.len(),
{
    let j = join(parts, seq![sep]);
    lemma_split_join(parts, sep);
    if b.len() == 0 {
        assert(j + seq![sep] + b =~= j.push(sep));
        lemma_split_push_sep(j, sep);
        assert(split(b, sep) == seq![Seq::<char>::empty()]);
        assert(parts.push(Seq::<char>::empty()) =~= parts + split(b, sep));
    } else {
        let b0 = b.drop_last();
        let c = b.last();
        lemma_split_prefix(parts, b0, sep);
        lemma_split_len(b0, sep);
        let x = j + seq![sep] + b;
        assert(x.drop_last() =~= j + seq![sep] + b0);
        assert(x.last() == c);
        assert(b.drop_last() == b0);
        let prev = split(b0, sep);
        if c == sep {
            assert(split(b, sep) == prev.push(Seq::<char>::empty()));
            assert((parts + prev).push(Seq::<char>::empty()) =~= parts + prev.push(Seq::<char>::empty()));
        } else {
            assert(split(b, sep) == prev.update(prev.len() - 1, prev.last().push(c)));
            let all = parts + prev;
            assert(all.last() == prev.last());
            assert(all.update(all.len() - 1, all.last().push(c)) =~= parts + prev.update(
                prev.len() - 1,
                prev.last().push(c),
            ));
        }
    }
}

/// What the hitsample law asks of a hitsample.
pub open spec fn hitsample_fits(h: HitSampleView) -> bool {
    &&& !h.filename.contains(':')
    &&& h.index != HitSampleIndex::Index(0)
    &&& h.index.number() <= u32::MAX
    &&& (h.volume matches Some(v) ==> 1 <= v <= 100)
    &&& (zero_numbers(h) ==> h.filename.len() == 0)
}

/// The bits of a hitobject's `type` number tell its kind, whether it starts
/// a new combo, and its combo skip count.
pub proof fn lemma_type_bits(h: HitObjectView)
    requires
        h.combo_skip_count <= 7,
    ensures
        i32::MIN <= type_number(h) <= i32::MAX,
        type_bit(type_number(h) as i32, 0) == (h.obj_params is HitCircle),
        type_bit(type_number(h) as i32, 1) == (h.obj_params is Slider),
        type_bit(type_number(h) as i32, 3) == (h.obj_params is Spinner),
        type_bit(type_number(h) as i32, 7) == (h.obj_params is OsuManiaHold),
        type_bit(type_number(h) as i32, 2) == h.new_combo,
        ((type_number(h) as i32 as i64 >> 4i64) & 7) as u8 == h.combo_skip_count,
{
    let k = h.combo_skip_count;
    let nc: i64 = if h.new_combo { 4 } else { 0 };
    let base: i64 = match h.obj_params {
        HitObjectParamsView::HitCircle => 1,
        HitObjectParamsView::Slider(_) => 2,
        HitObjectParamsView::Spinner { .. } => 8,
        HitObjectParamsView::OsuManiaHold { .. } => 128,
    };
    let t: i64 = (base + nc + 16 * (k as i64)) as i64;
    assert(t == type_number(h));
    assert((((t >> 0i64) & 1) == 1) == (base == 1) && (((t >> 1i64) & 1) == 1) == (base == 2)
        && (((t >> 3i64) & 1) == 1) == (base == 8) && (((t >> 7i64) & 1) == 1) == (base == 128)
        && (((t >> 2i64) & 1) == 1) == (nc == 4) && ((t >> 4i64) & 7) == k as i64) by (bit_vector)
        requires
            t == base + nc + 16 * (k as i64),
            base == 1 || base == 2 || base == 8 || base == 128,
            nc == 0 || nc == 4,
            k <= 7,
    ;
}

/// The five common fields of a written hitobject read back.
pub proof fn lemma_common_fields_read(h: HitObjectView, version: Version, p: Seq<Seq<char>>)
    requires
        time_fits(h.time, version),
        h.combo_skip_count <= 7,
        p.len() >= 5,
        p.take(5) == common_fields(h, version),
    ensures
        i32_field(p[0]) == Some(h.position.x),
        i32_field(p[1]) == Some(h.position.y),
        time_field(p[2], has_time_offset(version)) == Some(h.time),
        i32_field(p[3]) == Some(type_number(h) as i32),
        HitSound::parse_text(p[4], version) == Ok::<Option<HitSoundFlags>, crate::hitobjects::error::ParseHitSoundError>(Some(h.hitsound)),
{
    let c = common_fields(h, version);
    assert(p[0] == c[0] && p[1] == c[1] && p[2] == c[2] && p[3] == c[3] && p[4] == c[4]);
    lemma_parse_int_text(h.position.x as int, i32::MIN as int, i32::MAX as int);
    lemma_parse_int_text(h.position.y as int, i32::MIN as int, i32::MAX as int);
    law_time_round_trip(h.time, version);
    lemma_type_bits(h);
    lemma_parse_int_text(type_number(h), i32::MIN as int, i32::MAX as int);
    law_hitsound_round_trip(h.hitsound, version);
}

/// No common field of a hitobject holds a comma.
pub proof fn lemma_common_fields_plain(h: HitObjectView, version: Version)
    ensures
        forall|i: int| 0 <= i < 5 ==> !(#[trigger] common_fields(h, version)[i]).contains(','),
        forall|i: int| 0 <= i < 5 ==> !(#[trigger] common_fields(h, version)[i]).contains(':'),
{
    lemma_int_text_plain(h.position.x as int, ',');
    lemma_int_text_plain(h.position.y as int, ',');
    lemma_int_text_plain(written_time(h.time, version), ',');
    lemma_int_text_plain(type_number(h), ',');
    lemma_int_text_plain(hitsound_mask(h.hitsound) as int, ',');
    lemma_int_text_plain(h.position.x as int, ':');
    lemma_int_text_plain(h.position.y as int, ':');
    lemma_int_text_plain(written_time(h.time, version), ':');
    lemma_int_text_plain(type_number(h), ':');
    lemma_int_text_plain(hitsound_mask(h.hitsound) as int, ':');
}

/// The parts of a hitobject line made of `fields` and an optional hitsample
/// after them, and what follows the fields.
pub proof fn lemma_fields_then_hitsample(fields: Seq<Seq<char>>, hs: Option<Seq<char>>)
    requires
        fields.len() >= 1,
        forall|i: int| 0 <= i < fields.len() ==> !(#[trigger] fields[i]).contains(','),
    ensures
        ({
            let p = split(join(fields + opt_seq(hs), seq![',']), ',');
            &&& p.take(fields.len() as int) == fields
            &&& (hs is None ==> p.len() == fields.len())
            &&& (hs matches Some(t) ==> p.len() > fields.len() && rest_from(p, fields.len() as int, ',') == t)
        }),
{
    match hs {
        None => {
            assert(fields + opt_seq(hs) =~= fields);
            lemma_split_join(fields, ',');
            assert(fields.take(fields.len() as int) =~= fields);
        },
        Some(t) => {
            let all = fields.push(t);
            assert(fields + opt_seq(hs) =~= all);
            assert(all.drop_last() =~= fields);
            assert(join(all, seq![',']) == join(fields, seq![',']) + seq![','] + t);
            lemma_split_prefix(fields, t, ',');
            let p = fields + split(t, ',');
            lemma_split_len(t, ',');
            assert(p.take(fields.len() as int) =~= fields);
            assert(p.skip(fields.len() as int) =~= split(t, ','));
            lemma_join_split(t, ',');
        },
    }
}

/// Whether a version 3 circle, whose text ends with a comma and so reads
/// the default hitsample.
pub open spec fn trailing_comma(h: HitObjectView, version: Version) -> bool {
    version == 3 && h.obj_params is HitCircle
}

/// Whether a hitobject's hitsample is read back from its text in the
/// version: from version 10 on one that fits the hitsample law there (see
/// `hitsample_fits_in`); before, when none is written, none, but for an
/// osu!mania hold, whose text always ends with a hitsample, and a version 3
/// circle, whose text ends with an empty field: both read the default
/// hitsample, which they then have.
pub open spec fn sample_fits_in(h: HitObjectView, version: Version) -> bool {
    match h.hitsample {
        Some(hs) => if version >= 10 {
            hitsample_fits_in(hs, version)
        } else {
            (h.obj_params is OsuManiaHold || trailing_comma(h, version)) && hs == default_hitsample()
        },
        None => !(h.obj_params is OsuManiaHold) && !trailing_comma(h, version),
    }
}

/// What the hitobject law asks of a hitobject in a version: its combo skip
/// count fits 3 bits, its times survive being written in the version (see
/// `time_fits`), its hitsample is read back in the version (see
/// `sample_fits_in`), and a slider fits the slider law.
pub open spec fn hitobject_fits(h: HitObjectView, version: Version) -> bool {
    &&& h.combo_skip_count <= 7
    &&& time_fits(h.time, version)
    &&& (h.obj_params matches HitObjectParamsView::Spinner { end_time } ==> time_fits(end_time, version))
    &&& (h.obj_params matches HitObjectParamsView::OsuManiaHold { end_time } ==> time_fits(end_time, version))
    &&& sample_fits_in(h, version)
    &&& (h.obj_params matches HitObjectParamsView::Slider(sp) ==> crate::slider_laws::slider_fits(h, sp))
}

proof fn lemma_circle_or_spinner_round_trip(h: HitObjectView, version: Version)
    requires
        hitobject_fits(h, version),
        h.obj_params is HitCircle || h.obj_params is Spinner,
    ensures
        hitobject_parse(hitobject_text(h, version), version) == Ok::<HitObjectView, ParseHitObjectError>(h),
{
    reveal(hitobject_text);
    reveal(hitobject_parse);
    let c = common_fields(h, version);
    let hs = hs_text(h.hitsample, version);
    lemma_common_fields_plain(h, version);
    let fields = match h.obj_params {
        HitObjectParamsView::Spinner { end_time } => c.push(int_text(written_time(end_time, version))),
        _ => c,
    };
    match h.obj_params {
        HitObjectParamsView::Spinner { end_time } => {
            lemma_int_text_plain(written_time(end_time, version), ',');
            assert forall|i: int| 0 <= i < fields.len() implies !(#[trigger] fields[i]).contains(',') by {
                if i < 5 {
                    assert(fields[i] == c[i]);
                }
            }
        },
        _ => {},
    }
    let hs = if trailing_comma(h, version) {
        Some(Seq::<char>::empty())
    } else {
        hs
    };
    lemma_fields_then_hitsample(fields, hs);
    let p = split(join(fields + opt_seq(hs), seq![',']), ',');
    if trailing_comma(h, version) {
        assert(hs_text(h.hitsample, version) is None);
        assert(fields + opt_seq(hs) =~= c.push(Seq::<char>::empty()));
        lemma_join_push(c, Seq::<char>::empty());
        assert(c + opt_seq(hs_text(h.hitsample, version)) =~= c);
        assert(hitobject_text(h, version) =~= join(fields + opt_seq(hs), seq![',']));
        assert(hitsample_parse(Seq::<char>::empty()) == Ok::<HitSampleView, crate::hitobjects::error::ParseHitSampleError>(default_hitsample()));
    }
    assert(hitobject_text(h, version) == join(fields + opt_seq(hs), seq![',']));
    assert(p.take(5) =~= c) by {
        assert(p.take(fields.len() as int) == fields);
        assert forall|i: int| 0 <= i < 5 implies p.take(5)[i] == c[i] by {
            assert(p.take(fields.len() as int)[i] == fields[i]);
        }
    }
    lemma_common_fields_read(h, version, p);
    lemma_type_bits(h);
    match h.hitsample {
        Some(x) => {
            if version >= 10 {
                law_hitsample_round_trip(x, version);
            }
        },
        None => {},
    }
    match h.obj_params {
        HitObjectParamsView::Spinner { end_time } => {
            assert(p[5] == p.take(fields.len() as int)[5]);
            law_time_round_trip(end_time, version);
        },
        _ => {},
    }
}

/// The parts of a written osu!mania hold, and what follows its common fields.
proof fn lemma_mania_tail(h: HitObjectView, version: Version)
    requires
        hitobject_fits(h, version),
        h.obj_params is OsuManiaHold,
    ensures
        ({
            let p = split(hitobject_text(h, version), ',');
            &&& p.len() >= 5
            &&& p.take(5) == common_fields(h, version)
            &&& mania_parse(p, version) == Ok::<(i32, Option<HitSampleView>), ParseHitObjectError>(
                (h.obj_params->OsuManiaHold_end_time, h.hitsample),
            )
        }),
{
    reveal(hitobject_text);
    let c = common_fields(h, version);
    let x = h.hitsample.unwrap();
    let hs = match hitsample_text(x, version) {
        Some(t) => t,
        None => Seq::<char>::empty(),
    };
    let end_time = h.obj_params->OsuManiaHold_end_time;
    let e = int_text(written_time(end_time, version));
    lemma_common_fields_plain(h, version);
    lemma_int_text_plain(written_time(end_time, version), ',');
    lemma_int_text_plain(written_time(end_time, version), ':');
    let tail = e + seq![':'] + hs;
    let fields = c.push(e);
    assert(fields.drop_last() =~= c);
    assert(join(fields, seq![',']) == join(c, seq![',']) + seq![','] + e);
    assert(hitobject_text(h, version) =~= join(c, seq![',']) + seq![','] + tail);
    lemma_split_prefix(c, tail, ',');
    let p = c + split(tail, ',');
    lemma_split_len(tail, ',');
    assert(p.take(5) =~= c);
    assert(p.skip(5) =~= split(tail, ','));
    lemma_join_split(tail, ',');
    assert(rest_from(p, 5, ',') == tail);
    lemma_split_prefix(seq![e], hs, ':');
    assert(join(seq![e], seq![':']) == e);
    let q = seq![e] + split(hs, ':');
    assert(split(tail, ':') == q);
    lemma_split_len(hs, ':');
    assert(q[0] == e);
    law_time_round_trip(end_time, version);
    assert(q.skip(1) =~= split(hs, ':'));
    lemma_join_split(hs, ':');
    if version >= 10 {
        law_hitsample_round_trip(x, version);
    } else {
        assert(hs =~= Seq::<char>::empty());
    }
}

proof fn lemma_mania_round_trip(h: HitObjectView, version: Version)
    requires
        hitobject_fits(h, version),
        h.obj_params is OsuManiaHold,
    ensures
        hitobject_parse(hitobject_text(h, version), version) == Ok::<HitObjectView, ParseHitObjectError>(h),
{
    reveal(hitobject_parse);
    lemma_mania_tail(h, version);
    let p = split(hitobject_text(h, version), ',');
    lemma_common_fields_read(h, version, p);
    lemma_type_bits(h);
}

/// Reading a written hitobject gives it back; see `hitobject_fits` for what
/// is asked of it in the version (versions 3 and 4 write times early, so a
/// time must leave room for that, and a version 3 circle reads the default
/// hitsample from the empty field its text ends with).
pub proof fn law_hitobject_round_trip(h: HitObjectView, version: Version)
    requires
        hitobject_fits(h, version),
    ensures
        HitObject::parse_text(HitObject::text_of(h, version).unwrap(), version) == Ok::<
            Option<HitObjectView>,
            ParseHitObjectError,
        >(Some(h)),
{
    match h.obj_params {
        HitObjectParamsView::OsuManiaHold { .. } => lemma_mania_round_trip(h, version),
        HitObjectParamsView::Slider(sp) => lemma_slider_round_trip(h, sp, version),
        _ => lemma_circle_or_spinner_round_trip(h, version),
    }
}

proof fn lemma_slider_round_trip(h: HitObjectView, sp: crate::hitobjects::SlideParamsView, version: Version)
    requires
        hitobject_fits(h, version),
        h.obj_params == HitObjectParamsView::Slider(sp),
    ensures
        hitobject_parse(hitobject_text(h, version), version) == Ok::<HitObjectView, ParseHitObjectError>(h),
{
    reveal(hitobject_parse);
    crate::slider_laws::lemma_slider_parse(h, sp, version);
    let p = split(hitobject_text(h, version), ',');
    lemma_common_fields_read(h, version, p);
    lemma_type_bits(h);
}

/// A text that does not start with whitespace does not trim to nothing.
pub proof fn lemma_trim_nonempty(s: Seq<char>)
    requires
        s.len() > 0,
        !is_ws(s[0]),
    ensures
        trim(s).len() > 0,
{
    assert(lead_ws(s) == 0);
    assert(trim_start(s) =~= s);
    crate::text::lemma_trail_ws_bound(s);
    if trail_ws(s) == s.len() {
        assert(is_ws(s[0]));
    }
}

/// Whether a hitobject's hitsample keeps its text on one line: its file name
/// holds no line break and does not end with a carriage return.
pub open spec fn hitsample_on_line(h: HitObjectView) -> bool {
    h.hitsample matches Some(x) ==> !x.filename.contains('\n') && (x.filename.len() == 0
        || x.filename.last() != '\r')
}

/// Whether a hitobject keeps its text on one line: its hitsample does, and
/// so does a slider's length.
pub open spec fn hitobject_on_line(h: HitObjectView) -> bool {
    &&& hitsample_on_line(h)
    &&& (h.obj_params matches HitObjectParamsView::Slider(sp) ==> crate::slider_laws::length_on_line(sp))
}

/// The text of a hitsample sits on one line and ends neither with a line
/// break nor a carriage return.
pub proof fn lemma_hitsample_text_line(x: HitSampleView, version: Version)
    requires
        version >= 10,
        !x.filename.contains(':'),
        !x.filename.contains('\n'),
        x.filename.len() == 0 || x.filename.last() != '\r',
    ensures
        !hitsample_text(x, version).unwrap().contains('\n'),
        hitsample_text(x, version).unwrap().len() > 0,
        hitsample_text(x, version).unwrap().last() != '\r',
{
    let t = hitsample_text(x, version).unwrap();
    let col = seq![':'];
    let a = int_text(x.normal_set.number() as int);
    let b = int_text(x.addition_set.number() as int);
    let c = int_text(x.index.number() as int);
    lemma_int_text_plain(x.normal_set.number() as int, '\n');
    lemma_int_text_plain(x.addition_set.number() as int, '\n');
    lemma_int_text_plain(x.index.number() as int, '\n');
    assert(!seq![':'].contains('\n')) by {
        if seq![':'].contains('\n') {
            let i = choose|i: int| 0 <= i < 1 && seq![':'][i] == '\n';
            assert(seq![':'][i] == ':');
        }
    }
    if version < 12 {
        let parts = seq![a, b, c];
        assert(t =~= a + col + b + col + c);
        reveal_with_fuel(join, 4);
        assert(join(parts, col) =~= t);
        assert forall|i: int| 0 <= i < parts.len() implies !(#[trigger] parts[i]).contains('\n') by {}
        lemma_join_lacks(parts, col, '\n');
        lemma_int_text_end(x.index.number() as int);
        assert(t.last() == c.last());
    } else {
        lemma_hitsample_split(x, version);
        let parts = hitsample_parts(x);
        lemma_int_text_plain(HitVolume::number(x.volume), '\n');
        assert forall|i: int| 0 <= i < parts.len() implies !(#[trigger] parts[i]).contains('\n') by {}
        lemma_join_lacks(parts, col, '\n');
        let d = int_text(HitVolume::number(x.volume));
        assert(t =~= a + col + b + col + c + col + d + col + x.filename);
        if x.filename.len() == 0 {
            assert(t.last() == ':');
        } else {
            assert(t.last() == x.filename.last());
        }
    }
}

/// The text of a written hitobject sits on one line and reads as a line
/// that is not blank.
proof fn lemma_hitobject_text_line(h: HitObjectView, version: Version)
    requires
        hitobject_fits(h, version),
        hitobject_on_line(h),
    ensures
        !hitobject_text(h, version).contains('\n'),
        strip_cr(hitobject_text(h, version)) == hitobject_text(h, version),
        trim(hitobject_text(h, version)).len() > 0,
        hitobject_text(h, version).len() > 0,
        crate::section_laws::line_fits(hitobject_text(h, version)),
{
    match h.obj_params {
        HitObjectParamsView::Slider(sp) => crate::slider_laws::lemma_slider_text_line(h, sp, version),
        _ => lemma_plain_hitobject_text_line(h, version),
    }
}

/// The text of a written circle, spinner or osu!mania hold sits on one line
/// and reads as a line that is not blank.
proof fn lemma_plain_hitobject_text_line(h: HitObjectView, version: Version)
    requires
        hitobject_fits(h, version),
        hitsample_on_line(h),
        !(h.obj_params is Slider),
    ensures
        !hitobject_text(h, version).contains('\n'),
        strip_cr(hitobject_text(h, version)) == hitobject_text(h, version),
        trim(hitobject_text(h, version)).len() > 0,
        hitobject_text(h, version).len() > 0,
        crate::section_laws::line_fits(hitobject_text(h, version)),
{
    reveal(hitobject_text);
    lemma_int_text_first(h.position.x as int);
    let c = common_fields(h, version);
    let t = hitobject_text(h, version);
    lemma_int_text_plain(h.position.x as int, '\n');
    lemma_int_text_plain(h.position.y as int, '\n');
    lemma_int_text_plain(written_time(h.time, version), '\n');
    lemma_int_text_plain(type_number(h), '\n');
    lemma_int_text_plain(hitsound_mask(h.hitsound) as int, '\n');
    lemma_comma_no_newline();
    let xt = int_text(h.position.x as int);
    let n = if h.position.x < 0 { (-h.position.x) as nat } else { h.position.x as nat };
    lemma_nat_text_digits(n);
    assert(xt.len() > 0 && !is_ws(xt[0])) by {
        if h.position.x >= 0 {
            assert(is_digit(xt[0]));
        }
    }
    lemma_nat_text_digits(hitsound_mask(h.hitsound));
    match h.hitsample {
        Some(x) => {
            if version >= 10 {
                lemma_hitsample_text_line(x, version);
            }
        },
        None => {},
    }
    let hs = opt_seq(hs_text(h.hitsample, version));
    let fields = match h.obj_params {
        HitObjectParamsView::Spinner { end_time } => c.push(int_text(written_time(end_time, version))),
        HitObjectParamsView::OsuManiaHold { end_time } => c.push(int_text(written_time(end_time, version))),
        _ => c,
    };
    match h.obj_params {
        HitObjectParamsView::Spinner { end_time } => {
            lemma_int_text_plain(written_time(end_time, version), '\n');
            lemma_nat_text_digits(if end_time < 0 { (-end_time) as nat } else { end_time as nat });
        },
        HitObjectParamsView::OsuManiaHold { end_time } => {
            lemma_int_text_plain(written_time(end_time, version), '\n');
        },
        _ => {},
    }
    assert forall|i: int| 0 <= i < fields.len() implies !(#[trigger] fields[i]).contains('\n') by {
        if i < 5 {
            assert(fields[i] == c[i]);
        }
    }
    lemma_join_first(fields);
    assert(fields[0] == xt);
    match h.obj_params {
        HitObjectParamsView::OsuManiaHold { .. } => {
            let x = h.hitsample.unwrap();
            let hst = match hitsample_text(x, version) {
                Some(w) => w,
                None => Seq::<char>::empty(),
            };
            lemma_join_lacks(fields, seq![','], '\n');
            let j = join(fields, seq![',']);
            assert(t == j + seq![':'] + hst);
            assert(!seq![':'].contains('\n')) by {
                if seq![':'].contains('\n') {
                    let i = choose|i: int| 0 <= i < 1 && seq![':'][i] == '\n';
                    assert(seq![':'][i] == ':');
                }
            }
            lemma_concat_lacks(j, seq![':'], '\n');
            if version < 10 {
                assert(hst =~= Seq::<char>::empty());
                assert(!hst.contains('\n'));
            }
            lemma_concat_lacks(j + seq![':'], hst, '\n');
            if version < 10 {
                assert(t.last() == ':');
            } else {
                assert(t.last() == hst.last());
            }
            assert(t[0] == j[0]);
            assert(j.take(xt.len() as int)[0] == j[0]);
        },
        _ => {
            let all = fields + hs;
            assert forall|i: int| 0 <= i < all.len() implies !(#[trigger] all[i]).contains('\n') by {
                if i < fields.len() {
                    assert(all[i] == fields[i]);
                }
            }
            lemma_join_lacks(all, seq![','], '\n');
            let j = join(all, seq![',']);
            assert(all[0] == fields[0]);
            lemma_join_first(all);
            assert(all.last().len() > 0);
            lemma_join_last(all, seq![',']);
            if trailing_comma(h, version) {
                assert(t == j.push(','));
                assert(!t.contains('\n')) by {
                    if t.contains('\n') {
                        let i = choose|i: int| 0 <= i < t.len() && t[i] == '\n';
                        if i < j.len() {
                            assert(j[i] == t[i]);
                        }
                    }
                }
                assert(j.take(xt.len() as int)[0] == j[0]);
                assert(t[0] == j[0]);
                assert(t.last() == ',');
            } else if hs.len() == 0 {
                assert(t == j);
                assert(t.take(xt.len() as int)[0] == t[0]);
                assert(all.last() == fields.last());
                match h.obj_params {
                    HitObjectParamsView::Spinner { end_time } => {
                        let e = int_text(written_time(end_time, version));
                        assert(fields.last() == e);
                        let m = if written_time(end_time, version) < 0 { (-written_time(end_time, version)) as nat } else { written_time(end_time, version) as nat };
                        lemma_nat_text_digits(m);
                        assert(is_digit(e.last()));
                    },
                    _ => {
                        assert(fields.last() == int_text(hitsound_mask(h.hitsound) as int));
                    },
                }
            } else {
                assert(t == j);
                assert(t.take(xt.len() as int)[0] == t[0]);
                assert(all.last() == hs_text(h.hitsample, version).unwrap());
            }
        },
    }
    lemma_trim_nonempty(t);
}

/// The hitobject lines of a section, read in order.
proof fn lemma_hitobject_lines_of(v: Seq<HitObjectView>, version: Version)
    requires
        forall|i: int| 0 <= i < v.len() ==> hitobject_fits(#[trigger] v[i], version) && hitobject_on_line(v[i]),
    ensures
        hitobject_lines_parse(vtexts::<HitObject>(v, version), version) == Ok::<
            Seq<HitObjectView>,
            crate::types::Error<crate::hitobjects::error::ParseError>,
        >(v),
    decreases v.len(),
{
    let ts = vtexts::<HitObject>(v, version);
    if v.len() == 0 {
        assert(ts.len() == 0);
        assert(v =~= Seq::<HitObjectView>::empty());
    } else {
        let init = v.drop_last();
        assert forall|i: int| 0 <= i < init.len() implies hitobject_fits(#[trigger] init[i], version) && hitobject_on_line(init[i]) by {
            assert(init[i] == v[i]);
        }
        lemma_hitobject_lines_of(init, version);
        assert(ts.drop_last() =~= vtexts::<HitObject>(init, version));
        let last = v.last();
        assert(last == v[v.len() - 1]);
        assert(ts.last() == hitobject_text(last, version));
        lemma_hitobject_text_line(last, version);
        law_hitobject_round_trip(last, version);
        assert(init.push(last) =~= v);
    }
}

/// Reading a written hitobjects section gives the hitobjects back, for
/// hitobjects that the hitobject law covers in the version and whose texts
/// keep to one line.
pub proof fn law_hitobjects_round_trip(v: Seq<HitObjectView>, version: Version)
    requires
        forall|i: int| 0 <= i < v.len() ==> hitobject_fits(#[trigger] v[i], version) && hitobject_on_line(v[i]),
    ensures
        HitObjects::parse_text(HitObjects::text_of(v, version).unwrap(), version) == Ok::<
            Option<Seq<HitObjectView>>,
            crate::types::Error<crate::hitobjects::error::ParseError>,
        >(Some(v)),
        crate::file_laws::text_plain(HitObjects::text_of(v, version).unwrap()),
{
    let ts = vtexts::<HitObject>(v, version);
    assert forall|i: int| 0 <= i < ts.len() implies !(#[trigger] ts[i]).contains('\n') && strip_cr(ts[i]) == ts[i] by {
        lemma_hitobject_text_line(v[i], version);
    }
    if v.len() > 0 {
        lemma_hitobject_text_line(v.last(), version);
        assert(ts.last() == hitobject_text(v.last(), version));
    }
    lemma_lines_join(ts);
    lemma_hitobject_lines_of(v, version);
    assert forall|i: int| 0 <= i < ts.len() implies crate::section_laws::line_fits(#[trigger] ts[i]) by {
        lemma_hitobject_text_line(v[i], version);
    }
    crate::file_laws::lemma_text_plain_of_lines(ts);
}

/// Whether a value text stands on a `key: value` line as written: empty, or
/// neither starting nor ending with whitespace, and without line breaks.
pub open spec fn value_plain(t: Seq<char>) -> bool {
    &&& (t.len() == 0 || (!is_ws(t[0]) && !is_ws(t.last())))
    &&& !t.contains('\n')
}

/// Whether a key can be written on a `key: value` line and found again.
pub open spec fn key_plain(k: Seq<char>) -> bool {
    &&& k.len() > 0
    &&& !k.contains(':')
    &&& !k.contains('\n')
    &&& !is_ws(k[0])
    &&& k[0] != '['
    &&& !is_ws(k.last())
}

/// Leading spaces are counted by `lead_ws`.
proof fn lemma_lead_ws_spaces(n: nat, t: Seq<char>)
    requires
        t.len() == 0 || !is_ws(t[0]),
    ensures
        lead_ws(spaces(n) + t) == n,
    decreases n,
{
    if n == 0 {
        assert(spaces(0) + t =~= t);
    } else {
        let s = spaces(n) + t;
        assert(s[0] == ' ');
        assert(s.drop_first() =~= spaces((n - 1) as nat) + t);
        lemma_lead_ws_spaces((n - 1) as nat, t);
    }
}

/// A `key: value` line as written reads back as its key, its spacing and its
/// value, and is not blank.
pub proof fn lemma_kv_line(key: Seq<char>, n: nat, t: Seq<char>)
    requires
        key_plain(key),
        value_plain(t),
    ensures
        colon_line(key + seq![':'] + spaces(n) + t) == Some((key, n, t)),
        trim(key + seq![':'] + spaces(n) + t).len() > 0,
        !(key + seq![':'] + spaces(n) + t).contains('\n'),
        strip_cr(key + seq![':'] + spaces(n) + t) == key + seq![':'] + spaces(n) + t,
        (key + seq![':'] + spaces(n) + t).len() > 0,
        (key + seq![':'] + spaces(n) + t)[0] == key[0],
{
    let rest = spaces(n) + t;
    let line = key + seq![':'] + spaces(n) + t;
    assert(line =~= join(seq![key], seq![':']) + seq![':'] + rest);
    lemma_split_prefix(seq![key], rest, ':');
    let p = seq![key] + split(rest, ':');
    lemma_split_len(rest, ':');
    assert(split(line, ':') == p);
    assert(p[0] == key);
    lemma_trim_plain(key);
    assert(p.skip(1) =~= split(rest, ':'));
    lemma_join_split(rest, ':');
    lemma_lead_ws_spaces(n, t);
    assert(trim_start(rest) =~= t);
    if t.len() > 0 {
        assert(trail_ws(t) == 0);
    } else {
        assert(trail_ws(t) == 0);
    }
    assert(trim_end(t) =~= t);
    assert(line[0] == key[0]);
    lemma_trim_nonempty(line);
    assert(!spaces(n).contains('\n')) by {
        if spaces(n).contains('\n') {
            let i = choose|i: int| 0 <= i < spaces(n).len() && spaces(n)[i] == '\n';
        }
    }
    assert(!seq![':'].contains('\n')) by {
        if seq![':'].contains('\n') {
            let i = choose|i: int| 0 <= i < 1 && seq![':'][i] == '\n';
            assert(seq![':'][i] == ':');
        }
    }
    lemma_concat_lacks(key, seq![':'], '\n');
    lemma_concat_lacks(key + seq![':'], spaces(n), '\n');
    lemma_concat_lacks(key + seq![':'] + spaces(n), t, '\n');
    if t.len() > 0 {
        assert(line.last() == t.last());
    } else if n > 0 {
        assert(line.last() == ' ');
    } else {
        assert(line.last() == ':');
    }
}

} // verus!
