//! Laws of the `key: value` sections: reading a written section gives it back.
use vstd::prelude::*;

use crate::decimal::{reads_back, Decimal};
use crate::laws::{key_plain, lemma_kv_line, value_plain};
use crate::section::{colon_line, line_of, ov_text, spaces, AudioHash, Bookmarks, Tags};
use crate::types::Integer;
use crate::editor::{EditorView, SectionSpacing as EditorSpacing};
use crate::metadata::{MetadataView, SectionSpacing as MetadataSpacing};
use crate::general::{GeneralView, SectionSpacing as GeneralSpacing};
use crate::general::types::{Countdown, Mode, OverlayPosition, SampleSet as GeneralSampleSet};
use crate::text::{int_text, is_ws, lines, strip_cr, trim};
use crate::types::{Version, VersionedFromStr, VersionedToString};
use crate::difficulty::{
    apply_field as difficulty_apply, empty_view as difficulty_empty, field_lines as difficulty_field_lines,
    key_index as difficulty_key_index, lines_parse as difficulty_lines_parse, Difficulty,
    DifficultyView, SectionSpacing as DifficultySpacing,
};

verus! {

/// Whether a line stands alone when lines are joined: no line break in it,
/// no carriage return at its end, and not blank.
pub open spec fn line_fits(l: Seq<char>) -> bool {
    &&& !l.contains('\n')
    &&& strip_cr(l) == l
    &&& l.len() > 0
    &&& trim(l).len() > 0
    &&& !is_ws(l[0])
    &&& l[0] != '['
}

/// Whether a line stands alone and reads as a `key: value` line of `key`.
pub open spec fn kv_read(l: Seq<char>, key: Seq<char>) -> bool {
    &&& line_fits(l)
    &&& colon_line(l) matches Some((name, _, _)) && name == key
}

/// Whether a field is written and read back as it is: a present value has its
/// spacing set, has a text in the version that stands on the line as written,
/// and reads back from it; an absent value has no spacing.
pub open spec fn field_fits<T: VersionedFromStr + VersionedToString>(
    value: Option<<T as View>::V>,
    sp: Option<usize>,
    version: Version,
) -> bool {
    match value {
        None => sp is None,
        Some(x) => {
            &&& sp is Some
            &&& T::text_of(x, version) is Some
            &&& value_plain(T::text_of(x, version).unwrap())
            &&& T::parse_text(T::text_of(x, version).unwrap(), version) == Ok::<
                Option<<T as View>::V>,
                <T as VersionedFromStr>::Err,
            >(Some(x))
        },
    }
}

/// Whether a decimal value reads back from its text, and its text stands on a
/// `key: value` line as written.
pub open spec fn decimal_plain(d: Decimal) -> bool {
    reads_back(d) && value_plain(d.text())
}

/// Whether a decimal field is written and read back as it is: a present value
/// has its spacing set and reads back, an absent one has none.
pub open spec fn decimal_field_fits(value: Option<Decimal>, sp: Option<usize>) -> bool {
    match value {
        None => sp is None,
        Some(d) => sp is Some && decimal_plain(d),
    }
}

// ---------------------------------------------------------------------------
// [Difficulty]

/// The key of field `j` of the difficulty section.
pub open spec fn difficulty_key(j: nat) -> Seq<char> {
    if j == 0 {
        "HPDrainRate"@
    } else if j == 1 {
        "CircleSize"@
    } else if j == 2 {
        "OverallDifficulty"@
    } else if j == 3 {
        "ApproachRate"@
    } else if j == 4 {
        "SliderMultiplier"@
    } else {
        "SliderTickRate"@
    }
}

/// The value of field `j`.
pub open spec fn difficulty_value(v: DifficultyView, j: nat) -> Option<Decimal> {
    if j == 0 {
        v.hp_drain_rate
    } else if j == 1 {
        v.circle_size
    } else if j == 2 {
        v.overall_difficulty
    } else if j == 3 {
        v.approach_rate
    } else if j == 4 {
        v.slider_multiplier
    } else {
        v.slider_tickrate
    }
}

/// The spacing of field `j`.
pub open spec fn difficulty_spacing(v: DifficultyView, j: nat) -> Option<usize> {
    if j == 0 {
        v.spacing.hp_drain_rate
    } else if j == 1 {
        v.spacing.circle_size
    } else if j == 2 {
        v.spacing.overall_difficulty
    } else if j == 3 {
        v.spacing.approach_rate
    } else if j == 4 {
        v.spacing.slider_multiplier
    } else {
        v.spacing.slider_tickrate
    }
}

/// The line written for field `j`, if any.
pub open spec fn difficulty_line(v: DifficultyView, version: Version, j: nat) -> Seq<Seq<char>> {
    line_of(difficulty_key(j), difficulty_spacing(v, j), 0, ov_text::<Decimal>(difficulty_value(v, j), version))
}

/// The lines written for the first `j` fields.
pub open spec fn difficulty_prefix(v: DifficultyView, version: Version, j: nat) -> Seq<Seq<char>>
    decreases j,
{
    if j == 0 {
        Seq::empty()
    } else {
        difficulty_prefix(v, version, (j - 1) as nat) + difficulty_line(v, version, (j - 1) as nat)
    }
}

/// The section with only its first `j` fields.
pub open spec fn difficulty_upto(v: DifficultyView, j: nat) -> DifficultyView {
    DifficultyView {
        spacing: DifficultySpacing {
            hp_drain_rate: if 0 < j { v.spacing.hp_drain_rate } else { None },
            circle_size: if 1 < j { v.spacing.circle_size } else { None },
            overall_difficulty: if 2 < j { v.spacing.overall_difficulty } else { None },
            approach_rate: if 3 < j { v.spacing.approach_rate } else { None },
            slider_multiplier: if 4 < j { v.spacing.slider_multiplier } else { None },
            slider_tickrate: if 5 < j { v.spacing.slider_tickrate } else { None },
        },
        hp_drain_rate: if 0 < j { v.hp_drain_rate } else { None },
        circle_size: if 1 < j { v.circle_size } else { None },
        overall_difficulty: if 2 < j { v.overall_difficulty } else { None },
        approach_rate: if 3 < j { v.approach_rate } else { None },
        slider_multiplier: if 4 < j { v.slider_multiplier } else { None },
        slider_tickrate: if 5 < j { v.slider_tickrate } else { None },
    }
}

/// The fields among the first `j` that are present, in order.
pub open spec fn difficulty_seen(v: DifficultyView, j: nat) -> Seq<usize>
    decreases j,
{
    if j == 0 {
        Seq::empty()
    } else {
        difficulty_seen(v, (j - 1) as nat) + (if difficulty_value(v, (j - 1) as nat) is Some {
            seq![(j - 1) as usize]
        } else {
            Seq::empty()
        })
    }
}

/// Whether every field of the section is written and read back as it is.
pub open spec fn difficulty_fits(v: DifficultyView) -> bool {
    forall|j: nat| j < 6 ==> decimal_field_fits(#[trigger] difficulty_value(v, j), difficulty_spacing(v, j))
}

proof fn lemma_difficulty_keys(j: nat)
    requires
        j < 6,
    ensures
        key_plain(difficulty_key(j)),
        difficulty_key_index(difficulty_key(j)) == Some(j),
{
    reveal_strlit("HPDrainRate");
    reveal_strlit("CircleSize");
    reveal_strlit("OverallDifficulty");
    reveal_strlit("ApproachRate");
    reveal_strlit("SliderMultiplier");
    reveal_strlit("SliderTickRate");
    let k = difficulty_key(j);
    assert(!k.contains(':') && !k.contains('\n')) by {
        if k.contains(':') || k.contains('\n') {
            let i = choose|i: int| 0 <= i < k.len() && (k[i] == ':' || k[i] == '\n');
        }
    }
    assert("HPDrainRate"@.len() == 11 && "CircleSize"@.len() == 10 && "OverallDifficulty"@.len() == 17);
    assert("ApproachRate"@.len() == 12 && "SliderMultiplier"@.len() == 16 && "SliderTickRate"@.len() == 14);
}

proof fn lemma_difficulty_prefix(v: DifficultyView, version: Version, j: nat)
    requires
        difficulty_fits(v),
        j <= 6,
    ensures
        difficulty_lines_parse(difficulty_prefix(v, version, j), version) == Ok::<
            (DifficultyView, Seq<usize>),
            crate::types::Error<crate::difficulty::ParseError>,
        >((difficulty_upto(v, j), difficulty_seen(v, j))),
        forall|x: usize| #[trigger] difficulty_seen(v, j).contains(x) ==> x < j,
        forall|i: int| 0 <= i < difficulty_prefix(v, version, j).len() ==> line_fits(#[trigger] difficulty_prefix(v, version, j)[i]),
    decreases j,
{
    if j == 0 {
        assert(difficulty_upto(v, 0) == difficulty_empty());
        assert(difficulty_prefix(v, version, 0) =~= Seq::<Seq<char>>::empty());
    } else {
        let i = (j - 1) as nat;
        lemma_difficulty_prefix(v, version, i);
        let pre = difficulty_prefix(v, version, i);
        let seen = difficulty_seen(v, i);
        assert(decimal_field_fits(difficulty_value(v, i), difficulty_spacing(v, i)));
        match difficulty_value(v, i) {
            None => {
                assert(difficulty_line(v, version, i) =~= Seq::<Seq<char>>::empty());
                assert(difficulty_prefix(v, version, j) =~= pre);
                assert(difficulty_seen(v, j) =~= seen);
                assert(difficulty_upto(v, j) == difficulty_upto(v, i));
            },
            Some(d) => {
                let n = difficulty_spacing(v, i).unwrap();
                let key = difficulty_key(i);
                let line = key + seq![':'] + spaces(n as nat) + d.text();
                lemma_difficulty_keys(i);
                lemma_kv_line(key, n as nat, d.text());
                assert(difficulty_line(v, version, i) == seq![line]);
                let all = difficulty_prefix(v, version, j);
                assert(all =~= pre.push(line));
                assert(all.drop_last() =~= pre);
                assert(all.last() == line);
                assert(!seen.contains(i as usize));
                assert(difficulty_seen(v, j) =~= seen.push(i as usize));
                assert(difficulty_apply(difficulty_upto(v, i), i, n as nat, d.text(), version) == Ok::<
                    DifficultyView,
                    crate::difficulty::ParseError,
                >(difficulty_upto(v, j)));
                assert forall|x: usize| #[trigger] difficulty_seen(v, j).contains(x) implies x < j by {
                    if x != i {
                        let k = choose|k: int| 0 <= k < difficulty_seen(v, j).len() && difficulty_seen(v, j)[k] == x;
                        assert(seen[k] == x);
                        assert(seen.contains(x));
                    }
                }
                assert forall|k: int| 0 <= k < all.len() implies line_fits(#[trigger] all[k]) by {
                    if k < pre.len() {
                        assert(all[k] == pre[k]);
                    }
                }
            },
        }
    }
}

/// Reading a written difficulty section gives it back, where each present
/// value reads back from its text and has its spacing set, and each absent
/// value has none (an unset spacing is written as no space and read back as
/// set).
pub proof fn law_difficulty_round_trip(v: DifficultyView, version: Version)
    requires
        difficulty_fits(v),
    ensures
        Difficulty::parse_text(Difficulty::text_of(v, version).unwrap(), version) == Ok::<
            Option<DifficultyView>,
            crate::types::Error<crate::difficulty::ParseError>,
        >(Some(v)),
        crate::file_laws::text_plain(Difficulty::text_of(v, version).unwrap()),
{
    lemma_difficulty_prefix(v, version, 6);
    reveal_with_fuel(difficulty_prefix, 7);
    let ls = difficulty_field_lines(v, version);
    assert(ls =~= difficulty_prefix(v, version, 6));
    if ls.len() > 0 {
        assert(ls.last() == ls[ls.len() - 1]);
    }
    crate::laws::lemma_lines_join(ls);
    crate::file_laws::lemma_text_plain_of_lines(ls);
    assert(difficulty_upto(v, 6) == v);
}

// ---------------------------------------------------------------------------
// [Editor]

/// The key of field `j` of the section.
pub open spec fn editor_key(j: nat) -> Seq<char> {
    if j == 0 {
        "Bookmarks"@
    } else if j == 1 {
        "DistanceSpacing"@
    } else if j == 2 {
        "BeatDivisor"@
    } else if j == 3 {
        "GridSize"@
    } else {
        "TimelineZoom"@
    }
}

/// The line written for field `j`, if any.
pub open spec fn editor_line(v: EditorView, version: Version, j: nat) -> Seq<Seq<char>> {
    if j == 0 {
        line_of("Bookmarks"@, v.spacing.bookmarks, 1, ov_text::<Bookmarks>(v.bookmarks, version))
    } else if j == 1 {
        line_of("DistanceSpacing"@, v.spacing.distance_spacing, 1, ov_text::<Decimal>(v.distance_spacing, version))
    } else if j == 2 {
        line_of("BeatDivisor"@, v.spacing.beat_divisor, 1, ov_text::<Decimal>(v.beat_divisor, version))
    } else if j == 3 {
        line_of("GridSize"@, v.spacing.grid_size, 1, ov_text::<Integer>(v.grid_size, version))
    } else {
        line_of("TimelineZoom"@, v.spacing.timeline_zoom, 1, ov_text::<Decimal>(v.timeline_zoom, version))
    }
}

/// Whether field `j` is present.
pub open spec fn editor_present(v: EditorView, j: nat) -> bool {
    if j == 0 {
        v.bookmarks is Some
    } else if j == 1 {
        v.distance_spacing is Some
    } else if j == 2 {
        v.beat_divisor is Some
    } else if j == 3 {
        v.grid_size is Some
    } else {
        v.timeline_zoom is Some
    }
}

/// Whether every field of the section is written and read back as it is.
pub open spec fn editor_fits(v: EditorView, version: Version) -> bool {
    &&& field_fits::<Bookmarks>(v.bookmarks, v.spacing.bookmarks, version)
    &&& field_fits::<Decimal>(v.distance_spacing, v.spacing.distance_spacing, version)
    &&& field_fits::<Decimal>(v.beat_divisor, v.spacing.beat_divisor, version)
    &&& field_fits::<Integer>(v.grid_size, v.spacing.grid_size, version)
    &&& field_fits::<Decimal>(v.timeline_zoom, v.spacing.timeline_zoom, version)
}

/// The lines written for the first `j` fields.
pub open spec fn editor_prefix(v: EditorView, version: Version, j: nat) -> Seq<Seq<char>>
    decreases j,
{
    if j == 0 {
        Seq::empty()
    } else {
        editor_prefix(v, version, (j - 1) as nat) + editor_line(v, version, (j - 1) as nat)
    }
}

/// The section with only its first `j` fields.
pub open spec fn editor_upto(v: EditorView, j: nat) -> EditorView {
    EditorView {
        spacing: EditorSpacing {
            bookmarks: if 0 < j { v.spacing.bookmarks } else { None },
            distance_spacing: if 1 < j { v.spacing.distance_spacing } else { None },
            beat_divisor: if 2 < j { v.spacing.beat_divisor } else { None },
            grid_size: if 3 < j { v.spacing.grid_size } else { None },
            timeline_zoom: if 4 < j { v.spacing.timeline_zoom } else { None },
        },
        bookmarks: if 0 < j { v.bookmarks } else { None },
        distance_spacing: if 1 < j { v.distance_spacing } else { None },
        beat_divisor: if 2 < j { v.beat_divisor } else { None },
        grid_size: if 3 < j { v.grid_size } else { None },
        timeline_zoom: if 4 < j { v.timeline_zoom } else { None },
    }
}

/// The fields among the first `j` that are present, in order.
pub open spec fn editor_seen(v: EditorView, j: nat) -> Seq<usize>
    decreases j,
{
    if j == 0 {
        Seq::empty()
    } else {
        editor_seen(v, (j - 1) as nat) + (if editor_present(v, (j - 1) as nat) {
            seq![(j - 1) as usize]
        } else {
            Seq::empty()
        })
    }
}

proof fn lemma_editor_keys(j: nat)
    requires
        j < 5,
    ensures
        key_plain(editor_key(j)),
        crate::editor::key_index(editor_key(j)) == Some(j),
{
    reveal_strlit("Bookmarks");
    reveal_strlit("DistanceSpacing");
    reveal_strlit("BeatDivisor");
    reveal_strlit("GridSize");
    reveal_strlit("TimelineZoom");
    assert("Bookmarks"@.len() == 9 && "Bookmarks"@[0] == 'B');
    assert("DistanceSpacing"@.len() == 15 && "DistanceSpacing"@[0] == 'D');
    assert("BeatDivisor"@.len() == 11 && "BeatDivisor"@[0] == 'B');
    assert("GridSize"@.len() == 8 && "GridSize"@[0] == 'G');
    assert("TimelineZoom"@.len() == 12 && "TimelineZoom"@[0] == 'T');
    let k = editor_key(j);
    assert(!k.contains(':') && !k.contains('\n')) by {
        if k.contains(':') || k.contains('\n') {
            let i = choose|i: int| 0 <= i < k.len() && (k[i] == ':' || k[i] == '\n');
        }
    }
}

proof fn lemma_editor_step_bookmarks(v: EditorView, version: Version)
    requires
        field_fits::<Bookmarks>(v.bookmarks, v.spacing.bookmarks, version),
    ensures
        editor_present(v, 0nat) ==> editor_line(v, version, 0nat).len() == 1 && kv_read(
            editor_line(v, version, 0nat)[0],
            editor_key(0nat),
        ) && (colon_line(editor_line(v, version, 0nat)[0]) matches Some((_, sp, val)) && crate::editor::apply_field(
            editor_upto(v, 0nat),
            0nat,
            sp,
            val,
            version,
        ) == Ok::<EditorView, crate::editor::ParseError>(editor_upto(v, 0nat + 1))),
        !editor_present(v, 0nat) ==> editor_line(v, version, 0nat).len() == 0 && editor_upto(v, 0nat + 1) == editor_upto(v, 0nat),
{
    lemma_editor_keys(0);
    match v.bookmarks {
        None => {},
        Some(x) => {
            let t = <Bookmarks as VersionedToString>::text_of(x, version).unwrap();
            let n = v.spacing.bookmarks.unwrap();
            lemma_kv_line(editor_key(0), n as nat, t);
            assert(editor_line(v, version, 0) == seq![editor_key(0) + seq![':'] + spaces(n as nat) + t]);
        },
    }
}

proof fn lemma_editor_step_distance_spacing(v: EditorView, version: Version)
    requires
        field_fits::<Decimal>(v.distance_spacing, v.spacing.distance_spacing, version),
    ensures
        editor_present(v, 1nat) ==> editor_line(v, version, 1nat).len() == 1 && kv_read(
            editor_line(v, version, 1nat)[0],
            editor_key(1nat),
        ) && (colon_line(editor_line(v, version, 1nat)[0]) matches Some((_, sp, val)) && crate::editor::apply_field(
            editor_upto(v, 1nat),
            1nat,
            sp,
            val,
            version,
        ) == Ok::<EditorView, crate::editor::ParseError>(editor_upto(v, 1nat + 1))),
        !editor_present(v, 1nat) ==> editor_line(v, version, 1nat).len() == 0 && editor_upto(v, 1nat + 1) == editor_upto(v, 1nat),
{
    lemma_editor_keys(1);
    match v.distance_spacing {
        None => {},
        Some(x) => {
            let t = <Decimal as VersionedToString>::text_of(x, version).unwrap();
            let n = v.spacing.distance_spacing.unwrap();
            lemma_kv_line(editor_key(1), n as nat, t);
            assert(editor_line(v, version, 1) == seq![editor_key(1) + seq![':'] + spaces(n as nat) + t]);
        },
    }
}

proof fn lemma_editor_step_beat_divisor(v: EditorView, version: Version)
    requires
        field_fits::<Decimal>(v.beat_divisor, v.spacing.beat_divisor, version),
    ensures
        editor_present(v, 2nat) ==> editor_line(v, version, 2nat).len() == 1 && kv_read(
            editor_line(v, version, 2nat)[0],
            editor_key(2nat),
        ) && (colon_line(editor_line(v, version, 2nat)[0]) matches Some((_, sp, val)) && crate::editor::apply_field(
            editor_upto(v, 2nat),
            2nat,
            sp,
            val,
            version,
        ) == Ok::<EditorView, crate::editor::ParseError>(editor_upto(v, 2nat + 1))),
        !editor_present(v, 2nat) ==> editor_line(v, version, 2nat).len() == 0 && editor_upto(v, 2nat + 1) == editor_upto(v, 2nat),
{
    lemma_editor_keys(2);
    match v.beat_divisor {
        None => {},
        Some(x) => {
            let t = <Decimal as VersionedToString>::text_of(x, version).unwrap();
            let n = v.spacing.beat_divisor.unwrap();
            lemma_kv_line(editor_key(2), n as nat, t);
            assert(editor_line(v, version, 2) == seq![editor_key(2) + seq![':'] + spaces(n as nat) + t]);
        },
    }
}

proof fn lemma_editor_step_grid_size(v: EditorView, version: Version)
    requires
        field_fits::<Integer>(v.grid_size, v.spacing.grid_size, version),
    ensures
        editor_present(v, 3nat) ==> editor_line(v, version, 3nat).len() == 1 && kv_read(
            editor_line(v, version, 3nat)[0],
            editor_key(3nat),
        ) && (colon_line(editor_line(v, version, 3nat)[0]) matches Some((_, sp, val)) && crate::editor::apply_field(
            editor_upto(v, 3nat),
            3nat,
            sp,
            val,
            version,
        ) == Ok::<EditorView, crate::editor::ParseError>(editor_upto(v, 3nat + 1))),
        !editor_present(v, 3nat) ==> editor_line(v, version, 3nat).len() == 0 && editor_upto(v, 3nat + 1) == editor_upto(v, 3nat),
{
    lemma_editor_keys(3);
    match v.grid_size {
        None => {},
        Some(x) => {
            let t = <Integer as VersionedToString>::text_of(x, version).unwrap();
            let n = v.spacing.grid_size.unwrap();
            lemma_kv_line(editor_key(3), n as nat, t);
            assert(editor_line(v, version, 3) == seq![editor_key(3) + seq![':'] + spaces(n as nat) + t]);
        },
    }
}

proof fn lemma_editor_step_timeline_zoom(v: EditorView, version: Version)
    requires
        field_fits::<Decimal>(v.timeline_zoom, v.spacing.timeline_zoom, version),
    ensures
        editor_present(v, 4nat) ==> editor_line(v, version, 4nat).len() == 1 && kv_read(
            editor_line(v, version, 4nat)[0],
            editor_key(4nat),
        ) && (colon_line(editor_line(v, version, 4nat)[0]) matches Some((_, sp, val)) && crate::editor::apply_field(
            editor_upto(v, 4nat),
            4nat,
            sp,
            val,
            version,
        ) == Ok::<EditorView, crate::editor::ParseError>(editor_upto(v, 4nat + 1))),
        !editor_present(v, 4nat) ==> editor_line(v, version, 4nat).len() == 0 && editor_upto(v, 4nat + 1) == editor_upto(v, 4nat),
{
    lemma_editor_keys(4);
    match v.timeline_zoom {
        None => {},
        Some(x) => {
            let t = <Decimal as VersionedToString>::text_of(x, version).unwrap();
            let n = v.spacing.timeline_zoom.unwrap();
            lemma_kv_line(editor_key(4), n as nat, t);
            assert(editor_line(v, version, 4) == seq![editor_key(4) + seq![':'] + spaces(n as nat) + t]);
        },
    }
}

proof fn lemma_editor_step(v: EditorView, version: Version, i: nat)
    requires
        editor_fits(v, version),
        i < 5,
    ensures
        editor_present(v, i) ==> editor_line(v, version, i).len() == 1 && kv_read(
            editor_line(v, version, i)[0],
            editor_key(i),
        ) && (colon_line(editor_line(v, version, i)[0]) matches Some((_, sp, val)) && crate::editor::apply_field(
            editor_upto(v, i),
            i,
            sp,
            val,
            version,
        ) == Ok::<EditorView, crate::editor::ParseError>(editor_upto(v, i + 1))),
        !editor_present(v, i) ==> editor_line(v, version, i).len() == 0 && editor_upto(v, i + 1) == editor_upto(v, i),
{
    if i == 0 {
        lemma_editor_step_bookmarks(v, version);
    } else if i == 1 {
        lemma_editor_step_distance_spacing(v, version);
    } else if i == 2 {
        lemma_editor_step_beat_divisor(v, version);
    } else if i == 3 {
        lemma_editor_step_grid_size(v, version);
    } else if i == 4 {
        lemma_editor_step_timeline_zoom(v, version);
    }
}

proof fn lemma_editor_prefix(v: EditorView, version: Version, j: nat)
    requires
        editor_fits(v, version),
        j <= 5,
    ensures
        crate::editor::lines_parse(editor_prefix(v, version, j), version) == Ok::<
            (EditorView, Seq<usize>),
            crate::types::Error<crate::editor::ParseError>,
        >((editor_upto(v, j), editor_seen(v, j))),
        forall|x: usize| #[trigger] editor_seen(v, j).contains(x) ==> x < j,
        forall|i: int| 0 <= i < editor_prefix(v, version, j).len() ==> line_fits(#[trigger] editor_prefix(v, version, j)[i]),
    decreases j,
{
    if j == 0 {
        assert(editor_upto(v, 0) == crate::editor::empty_view());
        assert(editor_prefix(v, version, 0) =~= Seq::<Seq<char>>::empty());
    } else {
        let i = (j - 1) as nat;
        lemma_editor_prefix(v, version, i);
        lemma_editor_step(v, version, i);
        lemma_editor_keys(i);
        let pre = editor_prefix(v, version, i);
        let seen = editor_seen(v, i);
        if !editor_present(v, i) {
            assert(editor_prefix(v, version, j) =~= pre);
            assert(editor_seen(v, j) =~= seen);
        } else {
            let line = editor_line(v, version, i)[0];
            let all = editor_prefix(v, version, j);
            assert(all =~= pre.push(line));
            assert(all.drop_last() =~= pre);
            assert(all.last() == line);
            assert(!seen.contains(i as usize));
            assert(editor_seen(v, j) =~= seen.push(i as usize));
            assert forall|x: usize| #[trigger] editor_seen(v, j).contains(x) implies x < j by {
                if x != i {
                    let k = choose|k: int| 0 <= k < editor_seen(v, j).len() && editor_seen(v, j)[k] == x;
                    assert(seen[k] == x);
                    assert(seen.contains(x));
                }
            }
            assert forall|k: int| 0 <= k < all.len() implies line_fits(#[trigger] all[k]) by {
                if k < pre.len() {
                    assert(all[k] == pre[k]);
                }
            }
        }
    }
}

/// Reading a written section gives it back, where each present value reads
/// back from its text, its text stands on the line as written, and its
/// spacing is set, and each absent value has no spacing (an unset spacing is
/// written as the default and read back as set).
pub proof fn law_editor_round_trip(v: EditorView, version: Version)
    requires
        editor_fits(v, version),
    ensures
        crate::editor::Editor::parse_text(crate::editor::Editor::text_of(v, version).unwrap(), version) == Ok::<
            Option<EditorView>,
            crate::types::Error<crate::editor::ParseError>,
        >(Some(v)),
        crate::file_laws::text_plain(crate::editor::Editor::text_of(v, version).unwrap()),
{
    lemma_editor_prefix(v, version, 5);
    reveal_with_fuel(editor_prefix, 6);
    let ls = crate::editor::field_lines(v, version);
    assert(ls =~= editor_prefix(v, version, 5));
    if ls.len() > 0 {
        assert(ls.last() == ls[ls.len() - 1]);
    }
    crate::laws::lemma_lines_join(ls);
    crate::file_laws::lemma_text_plain_of_lines(ls);
    assert(editor_upto(v, 5) == v);
}

// ---------------------------------------------------------------------------
// [Metadata]

/// The key of field `j` of the section.
pub open spec fn metadata_key(j: nat) -> Seq<char> {
    if j == 0 {
        "Title"@
    } else if j == 1 {
        "TitleUnicode"@
    } else if j == 2 {
        "Artist"@
    } else if j == 3 {
        "ArtistUnicode"@
    } else if j == 4 {
        "Creator"@
    } else if j == 5 {
        "Version"@
    } else if j == 6 {
        "Source"@
    } else if j == 7 {
        "Tags"@
    } else if j == 8 {
        "BeatmapID"@
    } else {
        "BeatmapSetID"@
    }
}

/// The line written for field `j`, if any.
pub open spec fn metadata_line(v: MetadataView, version: Version, j: nat) -> Seq<Seq<char>> {
    if j == 0 {
        line_of("Title"@, v.spacing.title, 0, ov_text::<String>(v.title, version))
    } else if j == 1 {
        line_of("TitleUnicode"@, v.spacing.title_unicode, 0, ov_text::<String>(v.title_unicode, version))
    } else if j == 2 {
        line_of("Artist"@, v.spacing.artist, 0, ov_text::<String>(v.artist, version))
    } else if j == 3 {
        line_of("ArtistUnicode"@, v.spacing.artist_unicode, 0, ov_text::<String>(v.artist_unicode, version))
    } else if j == 4 {
        line_of("Creator"@, v.spacing.creator, 0, ov_text::<String>(v.creator, version))
    } else if j == 5 {
        line_of("Version"@, v.spacing.version, 0, ov_text::<String>(v.version, version))
    } else if j == 6 {
        line_of("Source"@, v.spacing.source, 0, ov_text::<String>(v.source, version))
    } else if j == 7 {
        line_of("Tags"@, v.spacing.tags, 0, ov_text::<Tags>(v.tags, version))
    } else if j == 8 {
        line_of("BeatmapID"@, v.spacing.beatmap_id, 0, ov_text::<Integer>(v.beatmap_id, version))
    } else {
        line_of("BeatmapSetID"@, v.spacing.beatmap_set_id, 0, ov_text::<Integer>(v.beatmap_set_id, version))
    }
}

/// Whether field `j` is present.
pub open spec fn metadata_present(v: MetadataView, j: nat) -> bool {
    if j == 0 {
        v.title is Some
    } else if j == 1 {
        v.title_unicode is Some
    } else if j == 2 {
        v.artist is Some
    } else if j == 3 {
        v.artist_unicode is Some
    } else if j == 4 {
        v.creator is Some
    } else if j == 5 {
        v.version is Some
    } else if j == 6 {
        v.source is Some
    } else if j == 7 {
        v.tags is Some
    } else if j == 8 {
        v.beatmap_id is Some
    } else {
        v.beatmap_set_id is Some
    }
}

/// Whether every field of the section is written and read back as it is.
pub open spec fn metadata_fits(v: MetadataView, version: Version) -> bool {
    &&& field_fits::<String>(v.title, v.spacing.title, version)
    &&& field_fits::<String>(v.title_unicode, v.spacing.title_unicode, version)
    &&& field_fits::<String>(v.artist, v.spacing.artist, version)
    &&& field_fits::<String>(v.artist_unicode, v.spacing.artist_unicode, version)
    &&& field_fits::<String>(v.creator, v.spacing.creator, version)
    &&& field_fits::<String>(v.version, v.spacing.version, version)
    &&& field_fits::<String>(v.source, v.spacing.source, version)
    &&& field_fits::<Tags>(v.tags, v.spacing.tags, version)
    &&& field_fits::<Integer>(v.beatmap_id, v.spacing.beatmap_id, version)
    &&& field_fits::<Integer>(v.beatmap_set_id, v.spacing.beatmap_set_id, version)
}

/// The lines written for the first `j` fields.
pub open spec fn metadata_prefix(v: MetadataView, version: Version, j: nat) -> Seq<Seq<char>>
    decreases j,
{
    if j == 0 {
        Seq::empty()
    } else {
        metadata_prefix(v, version, (j - 1) as nat) + metadata_line(v, version, (j - 1) as nat)
    }
}

/// The section with only its first `j` fields.
pub open spec fn metadata_upto(v: MetadataView, j: nat) -> MetadataView {
    MetadataView {
        spacing: MetadataSpacing {
            title: if 0 < j { v.spacing.title } else { None },
            title_unicode: if 1 < j { v.spacing.title_unicode } else { None },
            artist: if 2 < j { v.spacing.artist } else { None },
            artist_unicode: if 3 < j { v.spacing.artist_unicode } else { None },
            creator: if 4 < j { v.spacing.creator } else { None },
            version: if 5 < j { v.spacing.version } else { None },
            source: if 6 < j { v.spacing.source } else { None },
            tags: if 7 < j { v.spacing.tags } else { None },
            beatmap_id: if 8 < j { v.spacing.beatmap_id } else { None },
            beatmap_set_id: if 9 < j { v.spacing.beatmap_set_id } else { None },
        },
        title: if 0 < j { v.title } else { None },
        title_unicode: if 1 < j { v.title_unicode } else { None },
        artist: if 2 < j { v.artist } else { None },
        artist_unicode: if 3 < j { v.artist_unicode } else { None },
        creator: if 4 < j { v.creator } else { None },
        version: if 5 < j { v.version } else { None },
        source: if 6 < j { v.source } else { None },
        tags: if 7 < j { v.tags } else { None },
        beatmap_id: if 8 < j { v.beatmap_id } else { None },
        beatmap_set_id: if 9 < j { v.beatmap_set_id } else { None },
    }
}

/// The fields among the first `j` that are present, in order.
pub open spec fn metadata_seen(v: MetadataView, j: nat) -> Seq<usize>
    decreases j,
{
    if j == 0 {
        Seq::empty()
    } else {
        metadata_seen(v, (j - 1) as nat) + (if metadata_present(v, (j - 1) as nat) {
            seq![(j - 1) as usize]
        } else {
            Seq::empty()
        })
    }
}

proof fn lemma_metadata_keys(j: nat)
    requires
        j < 10,
    ensures
        key_plain(metadata_key(j)),
        crate::metadata::key_index(metadata_key(j)) == Some(j),
{
    reveal_strlit("Title");
    reveal_strlit("TitleUnicode");
    reveal_strlit("Artist");
    reveal_strlit("ArtistUnicode");
    reveal_strlit("Creator");
    reveal_strlit("Version");
    reveal_strlit("Source");
    reveal_strlit("Tags");
    reveal_strlit("BeatmapID");
    reveal_strlit("BeatmapSetID");
    assert("Title"@.len() == 5 && "Title"@[0] == 'T');
    assert("TitleUnicode"@.len() == 12 && "TitleUnicode"@[0] == 'T');
    assert("Artist"@.len() == 6 && "Artist"@[0] == 'A');
    assert("ArtistUnicode"@.len() == 13 && "ArtistUnicode"@[0] == 'A');
    assert("Creator"@.len() == 7 && "Creator"@[0] == 'C');
    assert("Version"@.len() == 7 && "Version"@[0] == 'V');
    assert("Source"@.len() == 6 && "Source"@[0] == 'S');
    assert("Tags"@.len() == 4 && "Tags"@[0] == 'T');
    assert("BeatmapID"@.len() == 9 && "BeatmapID"@[0] == 'B');
    assert("BeatmapSetID"@.len() == 12 && "BeatmapSetID"@[0] == 'B');
    let k = metadata_key(j);
    assert(!k.contains(':') && !k.contains('\n')) by {
        if k.contains(':') || k.contains('\n') {
            let i = choose|i: int| 0 <= i < k.len() && (k[i] == ':' || k[i] == '\n');
        }
    }
}

proof fn lemma_metadata_step_title(v: MetadataView, version: Version)
    requires
        field_fits::<String>(v.title, v.spacing.title, version),
    ensures
        metadata_present(v, 0nat) ==> metadata_line(v, version, 0nat).len() == 1 && kv_read(
            metadata_line(v, version, 0nat)[0],
            metadata_key(0nat),
        ) && (colon_line(metadata_line(v, version, 0nat)[0]) matches Some((_, sp, val)) && crate::metadata::apply_field(
            metadata_upto(v, 0nat),
            0nat,
            sp,
            val,
            version,
        ) == Ok::<MetadataView, crate::metadata::ParseError>(metadata_upto(v, 0nat + 1))),
        !metadata_present(v, 0nat) ==> metadata_line(v, version, 0nat).len() == 0 && metadata_upto(v, 0nat + 1) == metadata_upto(v, 0nat),
{
    lemma_metadata_keys(0);
    match v.title {
        None => {},
        Some(x) => {
            let t = <String as VersionedToString>::text_of(x, version).unwrap();
            let n = v.spacing.title.unwrap();
            lemma_kv_line(metadata_key(0), n as nat, t);
            assert(metadata_line(v, version, 0) == seq![metadata_key(0) + seq![':'] + spaces(n as nat) + t]);
        },
    }
}

proof fn lemma_metadata_step_title_unicode(v: MetadataView, version: Version)
    requires
        field_fits::<String>(v.title_unicode, v.spacing.title_unicode, version),
    ensures
        metadata_present(v, 1nat) ==> metadata_line(v, version, 1nat).len() == 1 && kv_read(
            metadata_line(v, version, 1nat)[0],
            metadata_key(1nat),
        ) && (colon_line(metadata_line(v, version, 1nat)[0]) matches Some((_, sp, val)) && crate::metadata::apply_field(
            metadata_upto(v, 1nat),
            1nat,
            sp,
            val,
            version,
        ) == Ok::<MetadataView, crate::metadata::ParseError>(metadata_upto(v, 1nat + 1))),
        !metadata_present(v, 1nat) ==> metadata_line(v, version, 1nat).len() == 0 && metadata_upto(v, 1nat + 1) == metadata_upto(v, 1nat),
{
    lemma_metadata_keys(1);
    match v.title_unicode {
        None => {},
        Some(x) => {
            let t = <String as VersionedToString>::text_of(x, version).unwrap();
            let n = v.spacing.title_unicode.unwrap();
            lemma_kv_line(metadata_key(1), n as nat, t);
            assert(metadata_line(v, version, 1) == seq![metadata_key(1) + seq![':'] + spaces(n as nat) + t]);
        },
    }
}

proof fn lemma_metadata_step_artist(v: MetadataView, version: Version)
    requires
        field_fits::<String>(v.artist, v.spacing.artist, version),
    ensures
        metadata_present(v, 2nat) ==> metadata_line(v, version, 2nat).len() == 1 && kv_read(
            metadata_line(v, version, 2nat)[0],
            metadata_key(2nat),
        ) && (colon_line(metadata_line(v, version, 2nat)[0]) matches Some((_, sp, val)) && crate::metadata::apply_field(
            metadata_upto(v, 2nat),
            2nat,
            sp,
            val,
            version,
        ) == Ok::<MetadataView, crate::metadata::ParseError>(metadata_upto(v, 2nat + 1))),
        !metadata_present(v, 2nat) ==> metadata_line(v, version, 2nat).len() == 0 && metadata_upto(v, 2nat + 1) == metadata_upto(v, 2nat),
{
    lemma_metadata_keys(2);
    match v.artist {
        None => {},
        Some(x) => {
            let t = <String as VersionedToString>::text_of(x, version).unwrap();
            let n = v.spacing.artist.unwrap();
            lemma_kv_line(metadata_key(2), n as nat, t);
            assert(metadata_line(v, version, 2) == seq![metadata_key(2) + seq![':'] + spaces(n as nat) + t]);
        },
    }
}

proof fn lemma_metadata_step_artist_unicode(v: MetadataView, version: Version)
    requires
        field_fits::<String>(v.artist_unicode, v.spacing.artist_unicode, version),
    ensures
        metadata_present(v, 3nat) ==> metadata_line(v, version, 3nat).len() == 1 && kv_read(
            metadata_line(v, version, 3nat)[0],
            metadata_key(3nat),
        ) && (colon_line(metadata_line(v, version, 3nat)[0]) matches Some((_, sp, val)) && crate::metadata::apply_field(
            metadata_upto(v, 3nat),
            3nat,
            sp,
            val,
            version,
        ) == Ok::<MetadataView, crate::metadata::ParseError>(metadata_upto(v, 3nat + 1))),
        !metadata_present(v, 3nat) ==> metadata_line(v, version, 3nat).len() == 0 && metadata_upto(v, 3nat + 1) == metadata_upto(v, 3nat),
{
    lemma_metadata_keys(3);
    match v.artist_unicode {
        None => {},
        Some(x) => {
            let t = <String as VersionedToString>::text_of(x, version).unwrap();
            let n = v.spacing.artist_unicode.unwrap();
            lemma_kv_line(metadata_key(3), n as nat, t);
            assert(metadata_line(v, version, 3) == seq![metadata_key(3) + seq![':'] + spaces(n as nat) + t]);
        },
    }
}

proof fn lemma_metadata_step_creator(v: MetadataView, version: Version)
    requires
        field_fits::<String>(v.creator, v.spacing.creator, version),
    ensures
        metadata_present(v, 4nat) ==> metadata_line(v, version, 4nat).len() == 1 && kv_read(
            metadata_line(v, version, 4nat)[0],
            metadata_key(4nat),
        ) && (colon_line(metadata_line(v, version, 4nat)[0]) matches Some((_, sp, val)) && crate::metadata::apply_field(
            metadata_upto(v, 4nat),
            4nat,
            sp,
            val,
            version,
        ) == Ok::<MetadataView, crate::metadata::ParseError>(metadata_upto(v, 4nat + 1))),
        !metadata_present(v, 4nat) ==> metadata_line(v, version, 4nat).len() == 0 && metadata_upto(v, 4nat + 1) == metadata_upto(v, 4nat),
{
    lemma_metadata_keys(4);
    match v.creator {
        None => {},
        Some(x) => {
            let t = <String as VersionedToString>::text_of(x, version).unwrap();
            let n = v.spacing.creator.unwrap();
            lemma_kv_line(metadata_key(4), n as nat, t);
            assert(metadata_line(v, version, 4) == seq![metadata_key(4) + seq![':'] + spaces(n as nat) + t]);
        },
    }
}

proof fn lemma_metadata_step_version(v: MetadataView, version: Version)
    requires
        field_fits::<String>(v.version, v.spacing.version, version),
    ensures
        metadata_present(v, 5nat) ==> metadata_line(v, version, 5nat).len() == 1 && kv_read(
            metadata_line(v, version, 5nat)[0],
            metadata_key(5nat),
        ) && (colon_line(metadata_line(v, version, 5nat)[0]) matches Some((_, sp, val)) && crate::metadata::apply_field(
            metadata_upto(v, 5nat),
            5nat,
            sp,
            val,
            version,
        ) == Ok::<MetadataView, crate::metadata::ParseError>(metadata_upto(v, 5nat + 1))),
        !metadata_present(v, 5nat) ==> metadata_line(v, version, 5nat).len() == 0 && metadata_upto(v, 5nat + 1) == metadata_upto(v, 5nat),
{
    lemma_metadata_keys(5);
    match v.version {
        None => {},
        Some(x) => {
            let t = <String as VersionedToString>::text_of(x, version).unwrap();
            let n = v.spacing.version.unwrap();
            lemma_kv_line(metadata_key(5), n as nat, t);
            assert(metadata_line(v, version, 5) == seq![metadata_key(5) + seq![':'] + spaces(n as nat) + t]);
        },
    }
}

proof fn lemma_metadata_step_source(v: MetadataView, version: Version)
    requires
        field_fits::<String>(v.source, v.spacing.source, version),
    ensures
        metadata_present(v, 6nat) ==> metadata_line(v, version, 6nat).len() == 1 && kv_read(
            metadata_line(v, version, 6nat)[0],
            metadata_key(6nat),
        ) && (colon_line(metadata_line(v, version, 6nat)[0]) matches Some((_, sp, val)) && crate::metadata::apply_field(
            metadata_upto(v, 6nat),
            6nat,
            sp,
            val,
            version,
        ) == Ok::<MetadataView, crate::metadata::ParseError>(metadata_upto(v, 6nat + 1))),
        !metadata_present(v, 6nat) ==> metadata_line(v, version, 6nat).len() == 0 && metadata_upto(v, 6nat + 1) == metadata_upto(v, 6nat),
{
    lemma_metadata_keys(6);
    match v.source {
        None => {},
        Some(x) => {
            let t = <String as VersionedToString>::text_of(x, version).unwrap();
            let n = v.spacing.source.unwrap();
            lemma_kv_line(metadata_key(6), n as nat, t);
            assert(metadata_line(v, version, 6) == seq![metadata_key(6) + seq![':'] + spaces(n as nat) + t]);
        },
    }
}

proof fn lemma_metadata_step_tags(v: MetadataView, version: Version)
    requires
        field_fits::<Tags>(v.tags, v.spacing.tags, version),
    ensures
        metadata_present(v, 7nat) ==> metadata_line(v, version, 7nat).len() == 1 && kv_read(
            metadata_line(v, version, 7nat)[0],
            metadata_key(7nat),
        ) && (colon_line(metadata_line(v, version, 7nat)[0]) matches Some((_, sp, val)) && crate::metadata::apply_field(
            metadata_upto(v, 7nat),
            7nat,
            sp,
            val,
            version,
        ) == Ok::<MetadataView, crate::metadata::ParseError>(metadata_upto(v, 7nat + 1))),
        !metadata_present(v, 7nat) ==> metadata_line(v, version, 7nat).len() == 0 && metadata_upto(v, 7nat + 1) == metadata_upto(v, 7nat),
{
    lemma_metadata_keys(7);
    match v.tags {
        None => {},
        Some(x) => {
            let t = <Tags as VersionedToString>::text_of(x, version).unwrap();
            let n = v.spacing.tags.unwrap();
            lemma_kv_line(metadata_key(7), n as nat, t);
            assert(metadata_line(v, version, 7) == seq![metadata_key(7) + seq![':'] + spaces(n as nat) + t]);
        },
    }
}

proof fn lemma_metadata_step_beatmap_id(v: MetadataView, version: Version)
    requires
        field_fits::<Integer>(v.beatmap_id, v.spacing.beatmap_id, version),
    ensures
        metadata_present(v, 8nat) ==> metadata_line(v, version, 8nat).len() == 1 && kv_read(
            metadata_line(v, version, 8nat)[0],
            metadata_key(8nat),
        ) && (colon_line(metadata_line(v, version, 8nat)[0]) matches Some((_, sp, val)) && crate::metadata::apply_field(
            metadata_upto(v, 8nat),
            8nat,
            sp,
            val,
            version,
        ) == Ok::<MetadataView, crate::metadata::ParseError>(metadata_upto(v, 8nat + 1))),
        !metadata_present(v, 8nat) ==> metadata_line(v, version, 8nat).len() == 0 && metadata_upto(v, 8nat + 1) == metadata_upto(v, 8nat),
{
    lemma_metadata_keys(8);
    match v.beatmap_id {
        None => {},
        Some(x) => {
            let t = <Integer as VersionedToString>::text_of(x, version).unwrap();
            let n = v.spacing.beatmap_id.unwrap();
            lemma_kv_line(metadata_key(8), n as nat, t);
            assert(metadata_line(v, version, 8) == seq![metadata_key(8) + seq![':'] + spaces(n as nat) + t]);
        },
    }
}

proof fn lemma_metadata_step_beatmap_set_id(v: MetadataView, version: Version)
    requires
        field_fits::<Integer>(v.beatmap_set_id, v.spacing.beatmap_set_id, version),
    ensures
        metadata_present(v, 9nat) ==> metadata_line(v, version, 9nat).len() == 1 && kv_read(
            metadata_line(v, version, 9nat)[0],
            metadata_key(9nat),
        ) && (colon_line(metadata_line(v, version, 9nat)[0]) matches Some((_, sp, val)) && crate::metadata::apply_field(
            metadata_upto(v, 9nat),
            9nat,
            sp,
            val,
            version,
        ) == Ok::<MetadataView, crate::metadata::ParseError>(metadata_upto(v, 9nat + 1))),
        !metadata_present(v, 9nat) ==> metadata_line(v, version, 9nat).len() == 0 && metadata_upto(v, 9nat + 1) == metadata_upto(v, 9nat),
{
    lemma_metadata_keys(9);
    match v.beatmap_set_id {
        None => {},
        Some(x) => {
            let t = <Integer as VersionedToString>::text_of(x, version).unwrap();
            let n = v.spacing.beatmap_set_id.unwrap();
            lemma_kv_line(metadata_key(9), n as nat, t);
            assert(metadata_line(v, version, 9) == seq![metadata_key(9) + seq![':'] + spaces(n as nat) + t]);
        },
    }
}

proof fn lemma_metadata_step(v: MetadataView, version: Version, i: nat)
    requires
        metadata_fits(v, version),
        i < 10,
    ensures
        metadata_present(v, i) ==> metadata_line(v, version, i).len() == 1 && kv_read(
            metadata_line(v, version, i)[0],
            metadata_key(i),
        ) && (colon_line(metadata_line(v, version, i)[0]) matches Some((_, sp, val)) && crate::metadata::apply_field(
            metadata_upto(v, i),
            i,
            sp,
            val,
            version,
        ) == Ok::<MetadataView, crate::metadata::ParseError>(metadata_upto(v, i + 1))),
        !metadata_present(v, i) ==> metadata_line(v, version, i).len() == 0 && metadata_upto(v, i + 1) == metadata_upto(v, i),
{
    if i == 0 {
        lemma_metadata_step_title(v, version);
    } else if i == 1 {
        lemma_metadata_step_title_unicode(v, version);
    } else if i == 2 {
        lemma_metadata_step_artist(v, version);
    } else if i == 3 {
        lemma_metadata_step_artist_unicode(v, version);
    } else if i == 4 {
        lemma_metadata_step_creator(v, version);
    } else if i == 5 {
        lemma_metadata_step_version(v, version);
    } else if i == 6 {
        lemma_metadata_step_source(v, version);
    } else if i == 7 {
        lemma_metadata_step_tags(v, version);
    } else if i == 8 {
        lemma_metadata_step_beatmap_id(v, version);
    } else if i == 9 {
        lemma_metadata_step_beatmap_set_id(v, version);
    }
}

proof fn lemma_metadata_prefix(v: MetadataView, version: Version, j: nat)
    requires
        metadata_fits(v, version),
        j <= 10,
    ensures
        crate::metadata::lines_parse(metadata_prefix(v, version, j), version) == Ok::<
            (MetadataView, Seq<usize>),
            crate::types::Error<crate::metadata::ParseError>,
        >((metadata_upto(v, j), metadata_seen(v, j))),
        forall|x: usize| #[trigger] metadata_seen(v, j).contains(x) ==> x < j,
        forall|i: int| 0 <= i < metadata_prefix(v, version, j).len() ==> line_fits(#[trigger] metadata_prefix(v, version, j)[i]),
    decreases j,
{
    if j == 0 {
        assert(metadata_upto(v, 0) == crate::metadata::empty_view());
        assert(metadata_prefix(v, version, 0) =~= Seq::<Seq<char>>::empty());
    } else {
        let i = (j - 1) as nat;
        lemma_metadata_prefix(v, version, i);
        lemma_metadata_step(v, version, i);
        lemma_metadata_keys(i);
        let pre = metadata_prefix(v, version, i);
        let seen = metadata_seen(v, i);
        if !metadata_present(v, i) {
            assert(metadata_prefix(v, version, j) =~= pre);
            assert(metadata_seen(v, j) =~= seen);
        } else {
            let line = metadata_line(v, version, i)[0];
            let all = metadata_prefix(v, version, j);
            assert(all =~= pre.push(line));
            assert(all.drop_last() =~= pre);
            assert(all.last() == line);
            assert(!seen.contains(i as usize));
            assert(metadata_seen(v, j) =~= seen.push(i as usize));
            assert forall|x: usize| #[trigger] metadata_seen(v, j).contains(x) implies x < j by {
                if x != i {
                    let k = choose|k: int| 0 <= k < metadata_seen(v, j).len() && metadata_seen(v, j)[k] == x;
                    assert(seen[k] == x);
                    assert(seen.contains(x));
                }
            }
            assert forall|k: int| 0 <= k < all.len() implies line_fits(#[trigger] all[k]) by {
                if k < pre.len() {
                    assert(all[k] == pre[k]);
                }
            }
        }
    }
}

/// Reading a written section gives it back, where each present value reads
/// back from its text, its text stands on the line as written, and its
/// spacing is set, and each absent value has no spacing (an unset spacing is
/// written as the default and read back as set).
pub proof fn law_metadata_round_trip(v: MetadataView, version: Version)
    requires
        metadata_fits(v, version),
    ensures
        crate::metadata::Metadata::parse_text(crate::metadata::Metadata::text_of(v, version).unwrap(), version) == Ok::<
            Option<MetadataView>,
            crate::types::Error<crate::metadata::ParseError>,
        >(Some(v)),
        crate::file_laws::text_plain(crate::metadata::Metadata::text_of(v, version).unwrap()),
{
    lemma_metadata_prefix(v, version, 10);
    reveal_with_fuel(metadata_prefix, 11);
    let ls = crate::metadata::field_lines(v, version);
    assert(ls =~= metadata_prefix(v, version, 10));
    if ls.len() > 0 {
        assert(ls.last() == ls[ls.len() - 1]);
    }
    crate::laws::lemma_lines_join(ls);
    crate::file_laws::lemma_text_plain_of_lines(ls);
    assert(metadata_upto(v, 10) == v);
}

// ---------------------------------------------------------------------------
// [General]

/// The key of field `j` of the section.
pub open spec fn general_key(j: nat) -> Seq<char> {
    if j == 0 {
        "AudioFilename"@
    } else if j == 1 {
        "AudioLeadIn"@
    } else if j == 2 {
        "AudioHash"@
    } else if j == 3 {
        "PreviewTime"@
    } else if j == 4 {
        "Countdown"@
    } else if j == 5 {
        "SampleSet"@
    } else if j == 6 {
        "StackLeniency"@
    } else if j == 7 {
        "Mode"@
    } else if j == 8 {
        "LetterboxInBreaks"@
    } else if j == 9 {
        "StoryFireInFront"@
    } else if j == 10 {
        "UseSkinSprites"@
    } else if j == 11 {
        "AlwaysShowPlayfield"@
    } else if j == 12 {
        "OverlayPosition"@
    } else if j == 13 {
        "SkinPreference"@
    } else if j == 14 {
        "EpilepsyWarning"@
    } else if j == 15 {
        "CountdownOffset"@
    } else if j == 16 {
        "SpecialStyle"@
    } else if j == 17 {
        "WidescreenStoryboard"@
    } else {
        "SamplesMatchPlaybackRate"@
    }
}

/// The line written for field `j`, if any.
pub open spec fn general_line(v: GeneralView, version: Version, j: nat) -> Seq<Seq<char>> {
    if j == 0 {
        line_of("AudioFilename"@, v.spacing.audio_filename, 1, ov_text::<String>(v.audio_filename, version))
    } else if j == 1 {
        line_of("AudioLeadIn"@, v.spacing.audio_lead_in, 1, ov_text::<Integer>(v.audio_lead_in, version))
    } else if j == 2 {
        line_of("AudioHash"@, v.spacing.audio_hash, 1, ov_text::<AudioHash>(v.audio_hash, version))
    } else if j == 3 {
        line_of("PreviewTime"@, v.spacing.preview_time, 1, ov_text::<Integer>(v.preview_time, version))
    } else if j == 4 {
        line_of("Countdown"@, v.spacing.countdown, 1, ov_text::<Countdown>(v.countdown, version))
    } else if j == 5 {
        line_of("SampleSet"@, v.spacing.sample_set, 1, ov_text::<GeneralSampleSet>(v.sample_set, version))
    } else if j == 6 {
        line_of("StackLeniency"@, v.spacing.stack_leniency, 1, ov_text::<Decimal>(v.stack_leniency, version))
    } else if j == 7 {
        line_of("Mode"@, v.spacing.mode, 1, ov_text::<Mode>(v.mode, version))
    } else if j == 8 {
        line_of("LetterboxInBreaks"@, v.spacing.letterbox_in_breaks, 1, ov_text::<bool>(v.letterbox_in_breaks, version))
    } else if j == 9 {
        line_of("StoryFireInFront"@, v.spacing.story_fire_in_front, 1, ov_text::<bool>(v.story_fire_in_front, version))
    } else if j == 10 {
        line_of("UseSkinSprites"@, v.spacing.use_skin_sprites, 1, ov_text::<bool>(v.use_skin_sprites, version))
    } else if j == 11 {
        line_of("AlwaysShowPlayfield"@, v.spacing.always_show_playfield, 1, ov_text::<bool>(v.always_show_playfield, version))
    } else if j == 12 {
        line_of("OverlayPosition"@, v.spacing.overlay_position, 1, ov_text::<OverlayPosition>(v.overlay_position, version))
    } else if j == 13 {
        line_of("SkinPreference"@, v.spacing.skin_preference, 1, ov_text::<String>(v.skin_preference, version))
    } else if j == 14 {
        line_of("EpilepsyWarning"@, v.spacing.epilepsy_warning, 1, ov_text::<bool>(v.epilepsy_warning, version))
    } else if j == 15 {
        line_of("CountdownOffset"@, v.spacing.countdown_offset, 1, ov_text::<Integer>(v.countdown_offset, version))
    } else if j == 16 {
        line_of("SpecialStyle"@, v.spacing.special_style, 1, ov_text::<bool>(v.special_style, version))
    } else if j == 17 {
        line_of("WidescreenStoryboard"@, v.spacing.widescreen_storyboard, 1, ov_text::<bool>(v.widescreen_storyboard, version))
    } else {
        line_of("SamplesMatchPlaybackRate"@, v.spacing.samples_match_playback_rate, 1, ov_text::<bool>(v.samples_match_playback_rate, version))
    }
}

/// Whether field `j` is present.
pub open spec fn general_present(v: GeneralView, j: nat) -> bool {
    if j == 0 {
        v.audio_filename is Some
    } else if j == 1 {
        v.audio_lead_in is Some
    } else if j == 2 {
        v.audio_hash is Some
    } else if j == 3 {
        v.preview_time is Some
    } else if j == 4 {
        v.countdown is Some
    } else if j == 5 {
        v.sample_set is Some
    } else if j == 6 {
        v.stack_leniency is Some
    } else if j == 7 {
        v.mode is Some
    } else if j == 8 {
        v.letterbox_in_breaks is Some
    } else if j == 9 {
        v.story_fire_in_front is Some
    } else if j == 10 {
        v.use_skin_sprites is Some
    } else if j == 11 {
        v.always_show_playfield is Some
    } else if j == 12 {
        v.overlay_position is Some
    } else if j == 13 {
        v.skin_preference is Some
    } else if j == 14 {
        v.epilepsy_warning is Some
    } else if j == 15 {
        v.countdown_offset is Some
    } else if j == 16 {
        v.special_style is Some
    } else if j == 17 {
        v.widescreen_storyboard is Some
    } else {
        v.samples_match_playback_rate is Some
    }
}

/// Whether every field of the section is written and read back as it is.
pub open spec fn general_fits(v: GeneralView, version: Version) -> bool {
    &&& field_fits::<String>(v.audio_filename, v.spacing.audio_filename, version)
    &&& field_fits::<Integer>(v.audio_lead_in, v.spacing.audio_lead_in, version)
    &&& field_fits::<AudioHash>(v.audio_hash, v.spacing.audio_hash, version)
    &&& field_fits::<Integer>(v.preview_time, v.spacing.preview_time, version)
    &&& field_fits::<Countdown>(v.countdown, v.spacing.countdown, version)
    &&& field_fits::<GeneralSampleSet>(v.sample_set, v.spacing.sample_set, version)
    &&& field_fits::<Decimal>(v.stack_leniency, v.spacing.stack_leniency, version)
    &&& field_fits::<Mode>(v.mode, v.spacing.mode, version)
    &&& field_fits::<bool>(v.letterbox_in_breaks, v.spacing.letterbox_in_breaks, version)
    &&& field_fits::<bool>(v.story_fire_in_front, v.spacing.story_fire_in_front, version)
    &&& field_fits::<bool>(v.use_skin_sprites, v.spacing.use_skin_sprites, version)
    &&& field_fits::<bool>(v.always_show_playfield, v.spacing.always_show_playfield, version)
    &&& field_fits::<OverlayPosition>(v.overlay_position, v.spacing.overlay_position, version)
    &&& field_fits::<String>(v.skin_preference, v.spacing.skin_preference, version)
    &&& field_fits::<bool>(v.epilepsy_warning, v.spacing.epilepsy_warning, version)
    &&& field_fits::<Integer>(v.countdown_offset, v.spacing.countdown_offset, version)
    &&& field_fits::<bool>(v.special_style, v.spacing.special_style, version)
    &&& field_fits::<bool>(v.widescreen_storyboard, v.spacing.widescreen_storyboard, version)
    &&& field_fits::<bool>(v.samples_match_playback_rate, v.spacing.samples_match_playback_rate, version)
}

/// The lines written for the first `j` fields.
pub open spec fn general_prefix(v: GeneralView, version: Version, j: nat) -> Seq<Seq<char>>
    decreases j,
{
    if j == 0 {
        Seq::empty()
    } else {
        general_prefix(v, version, (j - 1) as nat) + general_line(v, version, (j - 1) as nat)
    }
}

/// The section with only its first `j` fields.
pub open spec fn general_upto(v: GeneralView, j: nat) -> GeneralView {
    GeneralView {
        spacing: GeneralSpacing {
            audio_filename: if 0 < j { v.spacing.audio_filename } else { None },
            audio_lead_in: if 1 < j { v.spacing.audio_lead_in } else { None },
            audio_hash: if 2 < j { v.spacing.audio_hash } else { None },
            preview_time: if 3 < j { v.spacing.preview_time } else { None },
            countdown: if 4 < j { v.spacing.countdown } else { None },
            sample_set: if 5 < j { v.spacing.sample_set } else { None },
            stack_leniency: if 6 < j { v.spacing.stack_leniency } else { None },
            mode: if 7 < j { v.spacing.mode } else { None },
            letterbox_in_breaks: if 8 < j { v.spacing.letterbox_in_breaks } else { None },
            story_fire_in_front: if 9 < j { v.spacing.story_fire_in_front } else { None },
            use_skin_sprites: if 10 < j { v.spacing.use_skin_sprites } else { None },
            always_show_playfield: if 11 < j { v.spacing.always_show_playfield } else { None },
            overlay_position: if 12 < j { v.spacing.overlay_position } else { None },
            skin_preference: if 13 < j { v.spacing.skin_preference } else { None },
            epilepsy_warning: if 14 < j { v.spacing.epilepsy_warning } else { None },
            countdown_offset: if 15 < j { v.spacing.countdown_offset } else { None },
            special_style: if 16 < j { v.spacing.special_style } else { None },
            widescreen_storyboard: if 17 < j { v.spacing.widescreen_storyboard } else { None },
            samples_match_playback_rate: if 18 < j { v.spacing.samples_match_playback_rate } else { None },
        },
        audio_filename: if 0 < j { v.audio_filename } else { None },
        audio_lead_in: if 1 < j { v.audio_lead_in } else { None },
        audio_hash: if 2 < j { v.audio_hash } else { None },
        preview_time: if 3 < j { v.preview_time } else { None },
        countdown: if 4 < j { v.countdown } else { None },
        sample_set: if 5 < j { v.sample_set } else { None },
        stack_leniency: if 6 < j { v.stack_leniency } else { None },
        mode: if 7 < j { v.mode } else { None },
        letterbox_in_breaks: if 8 < j { v.letterbox_in_breaks } else { None },
        story_fire_in_front: if 9 < j { v.story_fire_in_front } else { None },
        use_skin_sprites: if 10 < j { v.use_skin_sprites } else { None },
        always_show_playfield: if 11 < j { v.always_show_playfield } else { None },
        overlay_position: if 12 < j { v.overlay_position } else { None },
        skin_preference: if 13 < j { v.skin_preference } else { None },
        epilepsy_warning: if 14 < j { v.epilepsy_warning } else { None },
        countdown_offset: if 15 < j { v.countdown_offset } else { None },
        special_style: if 16 < j { v.special_style } else { None },
        widescreen_storyboard: if 17 < j { v.widescreen_storyboard } else { None },
        samples_match_playback_rate: if 18 < j { v.samples_match_playback_rate } else { None },
    }
}

/// The fields among the first `j` that are present, in order.
pub open spec fn general_seen(v: GeneralView, j: nat) -> Seq<usize>
    decreases j,
{
    if j == 0 {
        Seq::empty()
    } else {
        general_seen(v, (j - 1) as nat) + (if general_present(v, (j - 1) as nat) {
            seq![(j - 1) as usize]
        } else {
            Seq::empty()
        })
    }
}

proof fn lemma_general_keys(j: nat)
    requires
        j < 19,
    ensures
        key_plain(general_key(j)),
        crate::general::key_index(general_key(j)) == Some(j),
{
    reveal_strlit("AudioFilename");
    reveal_strlit("AudioLeadIn");
    reveal_strlit("AudioHash");
    reveal_strlit("PreviewTime");
    reveal_strlit("Countdown");
    reveal_strlit("SampleSet");
    reveal_strlit("StackLeniency");
    reveal_strlit("Mode");
    reveal_strlit("LetterboxInBreaks");
    reveal_strlit("StoryFireInFront");
    reveal_strlit("UseSkinSprites");
    reveal_strlit("AlwaysShowPlayfield");
    reveal_strlit("OverlayPosition");
    reveal_strlit("SkinPreference");
    reveal_strlit("EpilepsyWarning");
    reveal_strlit("CountdownOffset");
    reveal_strlit("SpecialStyle");
    reveal_strlit("WidescreenStoryboard");
    reveal_strlit("SamplesMatchPlaybackRate");
    assert("AudioFilename"@.len() == 13 && "AudioFilename"@[0] == 'A');
    assert("AudioLeadIn"@.len() == 11 && "AudioLeadIn"@[0] == 'A');
    assert("AudioHash"@.len() == 9 && "AudioHash"@[0] == 'A');
    assert("PreviewTime"@.len() == 11 && "PreviewTime"@[0] == 'P');
    assert("Countdown"@.len() == 9 && "Countdown"@[0] == 'C');
    assert("SampleSet"@.len() == 9 && "SampleSet"@[0] == 'S');
    assert("StackLeniency"@.len() == 13 && "StackLeniency"@[0] == 'S');
    assert("Mode"@.len() == 4 && "Mode"@[0] == 'M');
    assert("LetterboxInBreaks"@.len() == 17 && "LetterboxInBreaks"@[0] == 'L');
    assert("StoryFireInFront"@.len() == 16 && "StoryFireInFront"@[0] == 'S');
    assert("UseSkinSprites"@.len() == 14 && "UseSkinSprites"@[0] == 'U');
    assert("AlwaysShowPlayfield"@.len() == 19 && "AlwaysShowPlayfield"@[0] == 'A');
    assert("OverlayPosition"@.len() == 15 && "OverlayPosition"@[0] == 'O');
    assert("SkinPreference"@.len() == 14 && "SkinPreference"@[0] == 'S');
    assert("EpilepsyWarning"@.len() == 15 && "EpilepsyWarning"@[0] == 'E');
    assert("CountdownOffset"@.len() == 15 && "CountdownOffset"@[0] == 'C');
    assert("SpecialStyle"@.len() == 12 && "SpecialStyle"@[0] == 'S');
    assert("WidescreenStoryboard"@.len() == 20 && "WidescreenStoryboard"@[0] == 'W');
    assert("SamplesMatchPlaybackRate"@.len() == 24 && "SamplesMatchPlaybackRate"@[0] == 'S');
    let k = general_key(j);
    assert(!k.contains(':') && !k.contains('\n')) by {
        if k.contains(':') || k.contains('\n') {
            let i = choose|i: int| 0 <= i < k.len() && (k[i] == ':' || k[i] == '\n');
        }
    }
}

proof fn lemma_general_step_audio_filename(v: GeneralView, version: Version)
    requires
        field_fits::<String>(v.audio_filename, v.spacing.audio_filename, version),
    ensures
        general_present(v, 0nat) ==> general_line(v, version, 0nat).len() == 1 && kv_read(
            general_line(v, version, 0nat)[0],
            general_key(0nat),
        ) && (colon_line(general_line(v, version, 0nat)[0]) matches Some((_, sp, val)) && crate::general::apply_field(
            general_upto(v, 0nat),
            0nat,
            sp,
            val,
            version,
        ) == Ok::<GeneralView, crate::general::ParseError>(general_upto(v, 0nat + 1))),
        !general_present(v, 0nat) ==> general_line(v, version, 0nat).len() == 0 && general_upto(v, 0nat + 1) == general_upto(v, 0nat),
{
    lemma_general_keys(0);
    match v.audio_filename {
        None => {},
        Some(x) => {
            let t = <String as VersionedToString>::text_of(x, version).unwrap();
            let n = v.spacing.audio_filename.unwrap();
            lemma_kv_line(general_key(0), n as nat, t);
            assert(general_line(v, version, 0) == seq![general_key(0) + seq![':'] + spaces(n as nat) + t]);
        },
    }
}

proof fn lemma_general_step_audio_lead_in(v: GeneralView, version: Version)
    requires
        field_fits::<Integer>(v.audio_lead_in, v.spacing.audio_lead_in, version),
    ensures
        general_present(v, 1nat) ==> general_line(v, version, 1nat).len() == 1 && kv_read(
            general_line(v, version, 1nat)[0],
            general_key(1nat),
        ) && (colon_line(general_line(v, version, 1nat)[0]) matches Some((_, sp, val)) && crate::general::apply_field(
            general_upto(v, 1nat),
            1nat,
            sp,
            val,
            version,
        ) == Ok::<GeneralView, crate::general::ParseError>(general_upto(v, 1nat + 1))),
        !general_present(v, 1nat) ==> general_line(v, version, 1nat).len() == 0 && general_upto(v, 1nat + 1) == general_upto(v, 1nat),
{
    lemma_general_keys(1);
    match v.audio_lead_in {
        None => {},
        Some(x) => {
            let t = <Integer as VersionedToString>::text_of(x, version).unwrap();
            let n = v.spacing.audio_lead_in.unwrap();
            lemma_kv_line(general_key(1), n as nat, t);
            assert(general_line(v, version, 1) == seq![general_key(1) + seq![':'] + spaces(n as nat) + t]);
        },
    }
}

proof fn lemma_general_step_audio_hash(v: GeneralView, version: Version)
    requires
        field_fits::<AudioHash>(v.audio_hash, v.spacing.audio_hash, version),
    ensures
        general_present(v, 2nat) ==> general_line(v, version, 2nat).len() == 1 && kv_read(
            general_line(v, version, 2nat)[0],
            general_key(2nat),
        ) && (colon_line(general_line(v, version, 2nat)[0]) matches Some((_, sp, val)) && crate::general::apply_field(
            general_upto(v, 2nat),
            2nat,
            sp,
            val,
            version,
        ) == Ok::<GeneralView, crate::general::ParseError>(general_upto(v, 2nat + 1))),
        !general_present(v, 2nat) ==> general_line(v, version, 2nat).len() == 0 && general_upto(v, 2nat + 1) == general_upto(v, 2nat),
{
    lemma_general_keys(2);
    match v.audio_hash {
        None => {},
        Some(x) => {
            let t = <AudioHash as VersionedToString>::text_of(x, version).unwrap();
            let n = v.spacing.audio_hash.unwrap();
            lemma_kv_line(general_key(2), n as nat, t);
            assert(general_line(v, version, 2) == seq![general_key(2) + seq![':'] + spaces(n as nat) + t]);
        },
    }
}

proof fn lemma_general_step_preview_time(v: GeneralView, version: Version)
    requires
        field_fits::<Integer>(v.preview_time, v.spacing.preview_time, version),
    ensures
        general_present(v, 3nat) ==> general_line(v, version, 3nat).len() == 1 && kv_read(
            general_line(v, version, 3nat)[0],
            general_key(3nat),
        ) && (colon_line(general_line(v, version, 3nat)[0]) matches Some((_, sp, val)) && crate::general::apply_field(
            general_upto(v, 3nat),
            3nat,
            sp,
            val,
            version,
        ) == Ok::<GeneralView, crate::general::ParseError>(general_upto(v, 3nat + 1))),
        !general_present(v, 3nat) ==> general_line(v, version, 3nat).len() == 0 && general_upto(v, 3nat + 1) == general_upto(v, 3nat),
{
    lemma_general_keys(3);
    match v.preview_time {
        None => {},
        Some(x) => {
            let t = <Integer as VersionedToString>::text_of(x, version).unwrap();
            let n = v.spacing.preview_time.unwrap();
            lemma_kv_line(general_key(3), n as nat, t);
            assert(general_line(v, version, 3) == seq![general_key(3) + seq![':'] + spaces(n as nat) + t]);
        },
    }
}

proof fn lemma_general_step_countdown(v: GeneralView, version: Version)
    requires
        field_fits::<Countdown>(v.countdown, v.spacing.countdown, version),
    ensures
        general_present(v, 4nat) ==> general_line(v, version, 4nat).len() == 1 && kv_read(
            general_line(v, version, 4nat)[0],
            general_key(4nat),
        ) && (colon_line(general_line(v, version, 4nat)[0]) matches Some((_, sp, val)) && crate::general::apply_field(
            general_upto(v, 4nat),
            4nat,
            sp,
            val,
            version,
        ) == Ok::<GeneralView, crate::general::ParseError>(general_upto(v, 4nat + 1))),
        !general_present(v, 4nat) ==> general_line(v, version, 4nat).len() == 0 && general_upto(v, 4nat + 1) == general_upto(v, 4nat),
{
    lemma_general_keys(4);
    match v.countdown {
        None => {},
        Some(x) => {
            let t = <Countdown as VersionedToString>::text_of(x, version).unwrap();
            let n = v.spacing.countdown.unwrap();
            lemma_kv_line(general_key(4), n as nat, t);
            assert(general_line(v, version, 4) == seq![general_key(4) + seq![':'] + spaces(n as nat) + t]);
        },
    }
}

proof fn lemma_general_step_sample_set(v: GeneralView, version: Version)
    requires
        field_fits::<GeneralSampleSet>(v.sample_set, v.spacing.sample_set, version),
    ensures
        general_present(v, 5nat) ==> general_line(v, version, 5nat).len() == 1 && kv_read(
            general_line(v, version, 5nat)[0],
            general_key(5nat),
        ) && (colon_line(general_line(v, version, 5nat)[0]) matches Some((_, sp, val)) && crate::general::apply_field(
            general_upto(v, 5nat),
            5nat,
            sp,
            val,
            version,
        ) == Ok::<GeneralView, crate::general::ParseError>(general_upto(v, 5nat + 1))),
        !general_present(v, 5nat) ==> general_line(v, version, 5nat).len() == 0 && general_upto(v, 5nat + 1) == general_upto(v, 5nat),
{
    lemma_general_keys(5);
    match v.sample_set {
        None => {},
        Some(x) => {
            let t = <GeneralSampleSet as VersionedToString>::text_of(x, version).unwrap();
            let n = v.spacing.sample_set.unwrap();
            lemma_kv_line(general_key(5), n as nat, t);
            assert(general_line(v, version, 5) == seq![general_key(5) + seq![':'] + spaces(n as nat) + t]);
        },
    }
}

proof fn lemma_general_step_stack_leniency(v: GeneralView, version: Version)
    requires
        field_fits::<Decimal>(v.stack_leniency, v.spacing.stack_leniency, version),
    ensures
        general_present(v, 6nat) ==> general_line(v, version, 6nat).len() == 1 && kv_read(
            general_line(v, version, 6nat)[0],
            general_key(6nat),
        ) && (colon_line(general_line(v, version, 6nat)[0]) matches Some((_, sp, val)) && crate::general::apply_field(
            general_upto(v, 6nat),
            6nat,
            sp,
            val,
            version,
        ) == Ok::<GeneralView, crate::general::ParseError>(general_upto(v, 6nat + 1))),
        !general_present(v, 6nat) ==> general_line(v, version, 6nat).len() == 0 && general_upto(v, 6nat + 1) == general_upto(v, 6nat),
{
    lemma_general_keys(6);
    match v.stack_leniency {
        None => {},
        Some(x) => {
            let t = <Decimal as VersionedToString>::text_of(x, version).unwrap();
            let n = v.spacing.stack_leniency.unwrap();
            lemma_kv_line(general_key(6), n as nat, t);
            assert(general_line(v, version, 6) == seq![general_key(6) + seq![':'] + spaces(n as nat) + t]);
        },
    }
}

proof fn lemma_general_step_mode(v: GeneralView, version: Version)
    requires
        field_fits::<Mode>(v.mode, v.spacing.mode, version),
    ensures
        general_present(v, 7nat) ==> general_line(v, version, 7nat).len() == 1 && kv_read(
            general_line(v, version, 7nat)[0],
            general_key(7nat),
        ) && (colon_line(general_line(v, version, 7nat)[0]) matches Some((_, sp, val)) && crate::general::apply_field(
            general_upto(v, 7nat),
            7nat,
            sp,
            val,
            version,
        ) == Ok::<GeneralView, crate::general::ParseError>(general_upto(v, 7nat + 1))),
        !general_present(v, 7nat) ==> general_line(v, version, 7nat).len() == 0 && general_upto(v, 7nat + 1) == general_upto(v, 7nat),
{
    lemma_general_keys(7);
    match v.mode {
        None => {},
        Some(x) => {
            let t = <Mode as VersionedToString>::text_of(x, version).unwrap();
            let n = v.spacing.mode.unwrap();
            lemma_kv_line(general_key(7), n as nat, t);
            assert(general_line(v, version, 7) == seq![general_key(7) + seq![':'] + spaces(n as nat) + t]);
        },
    }
}

proof fn lemma_general_step_letterbox_in_breaks(v: GeneralView, version: Version)
    requires
        field_fits::<bool>(v.letterbox_in_breaks, v.spacing.letterbox_in_breaks, version),
    ensures
        general_present(v, 8nat) ==> general_line(v, version, 8nat).len() == 1 && kv_read(
            general_line(v, version, 8nat)[0],
            general_key(8nat),
        ) && (colon_line(general_line(v, version, 8nat)[0]) matches Some((_, sp, val)) && crate::general::apply_field(
            general_upto(v, 8nat),
            8nat,
            sp,
            val,
            version,
        ) == Ok::<GeneralView, crate::general::ParseError>(general_upto(v, 8nat + 1))),
        !general_present(v, 8nat) ==> general_line(v, version, 8nat).len() == 0 && general_upto(v, 8nat + 1) == general_upto(v, 8nat),
{
    lemma_general_keys(8);
    match v.letterbox_in_breaks {
        None => {},
        Some(x) => {
            let t = <bool as VersionedToString>::text_of(x, version).unwrap();
            let n = v.spacing.letterbox_in_breaks.unwrap();
            lemma_kv_line(general_key(8), n as nat, t);
            assert(general_line(v, version, 8) == seq![general_key(8) + seq![':'] + spaces(n as nat) + t]);
        },
    }
}

proof fn lemma_general_step_story_fire_in_front(v: GeneralView, version: Version)
    requires
        field_fits::<bool>(v.story_fire_in_front, v.spacing.story_fire_in_front, version),
    ensures
        general_present(v, 9nat) ==> general_line(v, version, 9nat).len() == 1 && kv_read(
            general_line(v, version, 9nat)[0],
            general_key(9nat),
        ) && (colon_line(general_line(v, version, 9nat)[0]) matches Some((_, sp, val)) && crate::general::apply_field(
            general_upto(v, 9nat),
            9nat,
            sp,
            val,
            version,
        ) == Ok::<GeneralView, crate::general::ParseError>(general_upto(v, 9nat + 1))),
        !general_present(v, 9nat) ==> general_line(v, version, 9nat).len() == 0 && general_upto(v, 9nat + 1) == general_upto(v, 9nat),
{
    lemma_general_keys(9);
    match v.story_fire_in_front {
        None => {},
        Some(x) => {
            let t = <bool as VersionedToString>::text_of(x, version).unwrap();
            let n = v.spacing.story_fire_in_front.unwrap();
            lemma_kv_line(general_key(9), n as nat, t);
            assert(general_line(v, version, 9) == seq![general_key(9) + seq![':'] + spaces(n as nat) + t]);
        },
    }
}

proof fn lemma_general_step_use_skin_sprites(v: GeneralView, version: Version)
    requires
        field_fits::<bool>(v.use_skin_sprites, v.spacing.use_skin_sprites, version),
    ensures
        general_present(v, 10nat) ==> general_line(v, version, 10nat).len() == 1 && kv_read(
            general_line(v, version, 10nat)[0],
            general_key(10nat),
        ) && (colon_line(general_line(v, version, 10nat)[0]) matches Some((_, sp, val)) && crate::general::apply_field(
            general_upto(v, 10nat),
            10nat,
            sp,
            val,
            version,
        ) == Ok::<GeneralView, crate::general::ParseError>(general_upto(v, 10nat + 1))),
        !general_present(v, 10nat) ==> general_line(v, version, 10nat).len() == 0 && general_upto(v, 10nat + 1) == general_upto(v, 10nat),
{
    lemma_general_keys(10);
    match v.use_skin_sprites {
        None => {},
        Some(x) => {
            let t = <bool as VersionedToString>::text_of(x, version).unwrap();
            let n = v.spacing.use_skin_sprites.unwrap();
            lemma_kv_line(general_key(10), n as nat, t);
            assert(general_line(v, version, 10) == seq![general_key(10) + seq![':'] + spaces(n as nat) + t]);
        },
    }
}

proof fn lemma_general_step_always_show_playfield(v: GeneralView, version: Version)
    requires
        field_fits::<bool>(v.always_show_playfield, v.spacing.always_show_playfield, version),
    ensures
        general_present(v, 11nat) ==> general_line(v, version, 11nat).len() == 1 && kv_read(
            general_line(v, version, 11nat)[0],
            general_key(11nat),
        ) && (colon_line(general_line(v, version, 11nat)[0]) matches Some((_, sp, val)) && crate::general::apply_field(
            general_upto(v, 11nat),
            11nat,
            sp,
            val,
            version,
        ) == Ok::<GeneralView, crate::general::ParseError>(general_upto(v, 11nat + 1))),
        !general_present(v, 11nat) ==> general_line(v, version, 11nat).len() == 0 && general_upto(v, 11nat + 1) == general_upto(v, 11nat),
{
    lemma_general_keys(11);
    match v.always_show_playfield {
        None => {},
        Some(x) => {
            let t = <bool as VersionedToString>::text_of(x, version).unwrap();
            let n = v.spacing.always_show_playfield.unwrap();
            lemma_kv_line(general_key(11), n as nat, t);
            assert(general_line(v, version, 11) == seq![general_key(11) + seq![':'] + spaces(n as nat) + t]);
        },
    }
}

proof fn lemma_general_step_overlay_position(v: GeneralView, version: Version)
    requires
        field_fits::<OverlayPosition>(v.overlay_position, v.spacing.overlay_position, version),
    ensures
        general_present(v, 12nat) ==> general_line(v, version, 12nat).len() == 1 && kv_read(
            general_line(v, version, 12nat)[0],
            general_key(12nat),
        ) && (colon_line(general_line(v, version, 12nat)[0]) matches Some((_, sp, val)) && crate::general::apply_field(
            general_upto(v, 12nat),
            12nat,
            sp,
            val,
            version,
        ) == Ok::<GeneralView, crate::general::ParseError>(general_upto(v, 12nat + 1))),
        !general_present(v, 12nat) ==> general_line(v, version, 12nat).len() == 0 && general_upto(v, 12nat + 1) == general_upto(v, 12nat),
{
    lemma_general_keys(12);
    match v.overlay_position {
        None => {},
        Some(x) => {
            let t = <OverlayPosition as VersionedToString>::text_of(x, version).unwrap();
            let n = v.spacing.overlay_position.unwrap();
            lemma_kv_line(general_key(12), n as nat, t);
            assert(general_line(v, version, 12) == seq![general_key(12) + seq![':'] + spaces(n as nat) + t]);
        },
    }
}

proof fn lemma_general_step_skin_preference(v: GeneralView, version: Version)
    requires
        field_fits::<String>(v.skin_preference, v.spacing.skin_preference, version),
    ensures
        general_present(v, 13nat) ==> general_line(v, version, 13nat).len() == 1 && kv_read(
            general_line(v, version, 13nat)[0],
            general_key(13nat),
        ) && (colon_line(general_line(v, version, 13nat)[0]) matches Some((_, sp, val)) && crate::general::apply_field(
            general_upto(v, 13nat),
            13nat,
            sp,
            val,
            version,
        ) == Ok::<GeneralView, crate::general::ParseError>(general_upto(v, 13nat + 1))),
        !general_present(v, 13nat) ==> general_line(v, version, 13nat).len() == 0 && general_upto(v, 13nat + 1) == general_upto(v, 13nat),
{
    lemma_general_keys(13);
    match v.skin_preference {
        None => {},
        Some(x) => {
            let t = <String as VersionedToString>::text_of(x, version).unwrap();
            let n = v.spacing.skin_preference.unwrap();
            lemma_kv_line(general_key(13), n as nat, t);
            assert(general_line(v, version, 13) == seq![general_key(13) + seq![':'] + spaces(n as nat) + t]);
        },
    }
}

proof fn lemma_general_step_epilepsy_warning(v: GeneralView, version: Version)
    requires
        field_fits::<bool>(v.epilepsy_warning, v.spacing.epilepsy_warning, version),
    ensures
        general_present(v, 14nat) ==> general_line(v, version, 14nat).len() == 1 && kv_read(
            general_line(v, version, 14nat)[0],
            general_key(14nat),
        ) && (colon_line(general_line(v, version, 14nat)[0]) matches Some((_, sp, val)) && crate::general::apply_field(
            general_upto(v, 14nat),
            14nat,
            sp,
            val,
            version,
        ) == Ok::<GeneralView, crate::general::ParseError>(general_upto(v, 14nat + 1))),
        !general_present(v, 14nat) ==> general_line(v, version, 14nat).len() == 0 && general_upto(v, 14nat + 1) == general_upto(v, 14nat),
{
    lemma_general_keys(14);
    match v.epilepsy_warning {
        None => {},
        Some(x) => {
            let t = <bool as VersionedToString>::text_of(x, version).unwrap();
            let n = v.spacing.epilepsy_warning.unwrap();
            lemma_kv_line(general_key(14), n as nat, t);
            assert(general_line(v, version, 14) == seq![general_key(14) + seq![':'] + spaces(n as nat) + t]);
        },
    }
}

proof fn lemma_general_step_countdown_offset(v: GeneralView, version: Version)
    requires
        field_fits::<Integer>(v.countdown_offset, v.spacing.countdown_offset, version),
    ensures
        general_present(v, 15nat) ==> general_line(v, version, 15nat).len() == 1 && kv_read(
            general_line(v, version, 15nat)[0],
            general_key(15nat),
        ) && (colon_line(general_line(v, version, 15nat)[0]) matches Some((_, sp, val)) && crate::general::apply_field(
            general_upto(v, 15nat),
            15nat,
            sp,
            val,
            version,
        ) == Ok::<GeneralView, crate::general::ParseError>(general_upto(v, 15nat + 1))),
        !general_present(v, 15nat) ==> general_line(v, version, 15nat).len() == 0 && general_upto(v, 15nat + 1) == general_upto(v, 15nat),
{
    lemma_general_keys(15);
    match v.countdown_offset {
        None => {},
        Some(x) => {
            let t = <Integer as VersionedToString>::text_of(x, version).unwrap();
            let n = v.spacing.countdown_offset.unwrap();
            lemma_kv_line(general_key(15), n as nat, t);
            assert(general_line(v, version, 15) == seq![general_key(15) + seq![':'] + spaces(n as nat) + t]);
        },
    }
}

proof fn lemma_general_step_special_style(v: GeneralView, version: Version)
    requires
        field_fits::<bool>(v.special_style, v.spacing.special_style, version),
    ensures
        general_present(v, 16nat) ==> general_line(v, version, 16nat).len() == 1 && kv_read(
            general_line(v, version, 16nat)[0],
            general_key(16nat),
        ) && (colon_line(general_line(v, version, 16nat)[0]) matches Some((_, sp, val)) && crate::general::apply_field(
            general_upto(v, 16nat),
            16nat,
            sp,
            val,
            version,
        ) == Ok::<GeneralView, crate::general::ParseError>(general_upto(v, 16nat + 1))),
        !general_present(v, 16nat) ==> general_line(v, version, 16nat).len() == 0 && general_upto(v, 16nat + 1) == general_upto(v, 16nat),
{
    lemma_general_keys(16);
    match v.special_style {
        None => {},
        Some(x) => {
            let t = <bool as VersionedToString>::text_of(x, version).unwrap();
            let n = v.spacing.special_style.unwrap();
            lemma_kv_line(general_key(16), n as nat, t);
            assert(general_line(v, version, 16) == seq![general_key(16) + seq![':'] + spaces(n as nat) + t]);
        },
    }
}

proof fn lemma_general_step_widescreen_storyboard(v: GeneralView, version: Version)
    requires
        field_fits::<bool>(v.widescreen_storyboard, v.spacing.widescreen_storyboard, version),
    ensures
        general_present(v, 17nat) ==> general_line(v, version, 17nat).len() == 1 && kv_read(
            general_line(v, version, 17nat)[0],
            general_key(17nat),
        ) && (colon_line(general_line(v, version, 17nat)[0]) matches Some((_, sp, val)) && crate::general::apply_field(
            general_upto(v, 17nat),
            17nat,
            sp,
            val,
            version,
        ) == Ok::<GeneralView, crate::general::ParseError>(general_upto(v, 17nat + 1))),
        !general_present(v, 17nat) ==> general_line(v, version, 17nat).len() == 0 && general_upto(v, 17nat + 1) == general_upto(v, 17nat),
{
    lemma_general_keys(17);
    match v.widescreen_storyboard {
        None => {},
        Some(x) => {
            let t = <bool as VersionedToString>::text_of(x, version).unwrap();
            let n = v.spacing.widescreen_storyboard.unwrap();
            lemma_kv_line(general_key(17), n as nat, t);
            assert(general_line(v, version, 17) == seq![general_key(17) + seq![':'] + spaces(n as nat) + t]);
        },
    }
}

proof fn lemma_general_step_samples_match_playback_rate(v: GeneralView, version: Version)
    requires
        field_fits::<bool>(v.samples_match_playback_rate, v.spacing.samples_match_playback_rate, version),
    ensures
        general_present(v, 18nat) ==> general_line(v, version, 18nat).len() == 1 && kv_read(
            general_line(v, version, 18nat)[0],
            general_key(18nat),
        ) && (colon_line(general_line(v, version, 18nat)[0]) matches Some((_, sp, val)) && crate::general::apply_field(
            general_upto(v, 18nat),
            18nat,
            sp,
            val,
            version,
        ) == Ok::<GeneralView, crate::general::ParseError>(general_upto(v, 18nat + 1))),
        !general_present(v, 18nat) ==> general_line(v, version, 18nat).len() == 0 && general_upto(v, 18nat + 1) == general_upto(v, 18nat),
{
    lemma_general_keys(18);
    match v.samples_match_playback_rate {
        None => {},
        Some(x) => {
            let t = <bool as VersionedToString>::text_of(x, version).unwrap();
            let n = v.spacing.samples_match_playback_rate.unwrap();
            lemma_kv_line(general_key(18), n as nat, t);
            assert(general_line(v, version, 18) == seq![general_key(18) + seq![':'] + spaces(n as nat) + t]);
        },
    }
}

proof fn lemma_general_step(v: GeneralView, version: Version, i: nat)
    requires
        general_fits(v, version),
        i < 19,
    ensures
        general_present(v, i) ==> general_line(v, version, i).len() == 1 && kv_read(
            general_line(v, version, i)[0],
            general_key(i),
        ) && (colon_line(general_line(v, version, i)[0]) matches Some((_, sp, val)) && crate::general::apply_field(
            general_upto(v, i),
            i,
            sp,
            val,
            version,
        ) == Ok::<GeneralView, crate::general::ParseError>(general_upto(v, i + 1))),
        !general_present(v, i) ==> general_line(v, version, i).len() == 0 && general_upto(v, i + 1) == general_upto(v, i),
{
    if i == 0 {
        lemma_general_step_audio_filename(v, version);
    } else if i == 1 {
        lemma_general_step_audio_lead_in(v, version);
    } else if i == 2 {
        lemma_general_step_audio_hash(v, version);
    } else if i == 3 {
        lemma_general_step_preview_time(v, version);
    } else if i == 4 {
        lemma_general_step_countdown(v, version);
    } else if i == 5 {
        lemma_general_step_sample_set(v, version);
    } else if i == 6 {
        lemma_general_step_stack_leniency(v, version);
    } else if i == 7 {
        lemma_general_step_mode(v, version);
    } else if i == 8 {
        lemma_general_step_letterbox_in_breaks(v, version);
    } else if i == 9 {
        lemma_general_step_story_fire_in_front(v, version);
    } else if i == 10 {
        lemma_general_step_use_skin_sprites(v, version);
    } else if i == 11 {
        lemma_general_step_always_show_playfield(v, version);
    } else if i == 12 {
        lemma_general_step_overlay_position(v, version);
    } else if i == 13 {
        lemma_general_step_skin_preference(v, version);
    } else if i == 14 {
        lemma_general_step_epilepsy_warning(v, version);
    } else if i == 15 {
        lemma_general_step_countdown_offset(v, version);
    } else if i == 16 {
        lemma_general_step_special_style(v, version);
    } else if i == 17 {
        lemma_general_step_widescreen_storyboard(v, version);
    } else if i == 18 {
        lemma_general_step_samples_match_playback_rate(v, version);
    }
}

proof fn lemma_general_prefix(v: GeneralView, version: Version, j: nat)
    requires
        general_fits(v, version),
        j <= 19,
    ensures
        crate::general::lines_parse(general_prefix(v, version, j), version) == Ok::<
            (GeneralView, Seq<usize>),
            crate::types::Error<crate::general::ParseError>,
        >((general_upto(v, j), general_seen(v, j))),
        forall|x: usize| #[trigger] general_seen(v, j).contains(x) ==> x < j,
        forall|i: int| 0 <= i < general_prefix(v, version, j).len() ==> line_fits(#[trigger] general_prefix(v, version, j)[i]),
    decreases j,
{
    if j == 0 {
        assert(general_upto(v, 0) == crate::general::empty_view());
        assert(general_prefix(v, version, 0) =~= Seq::<Seq<char>>::empty());
    } else {
        let i = (j - 1) as nat;
        lemma_general_prefix(v, version, i);
        lemma_general_step(v, version, i);
        lemma_general_keys(i);
        let pre = general_prefix(v, version, i);
        let seen = general_seen(v, i);
        if !general_present(v, i) {
            assert(general_prefix(v, version, j) =~= pre);
            assert(general_seen(v, j) =~= seen);
        } else {
            let line = general_line(v, version, i)[0];
            let all = general_prefix(v, version, j);
            assert(all =~= pre.push(line));
            assert(all.drop_last() =~= pre);
            assert(all.last() == line);
            assert(!seen.contains(i as usize));
            assert(general_seen(v, j) =~= seen.push(i as usize));
            assert forall|x: usize| #[trigger] general_seen(v, j).contains(x) implies x < j by {
                if x != i {
                    let k = choose|k: int| 0 <= k < general_seen(v, j).len() && general_seen(v, j)[k] == x;
                    assert(seen[k] == x);
                    assert(seen.contains(x));
                }
            }
            assert forall|k: int| 0 <= k < all.len() implies line_fits(#[trigger] all[k]) by {
                if k < pre.len() {
                    assert(all[k] == pre[k]);
                }
            }
        }
    }
}

/// Reading a written section gives it back, where each present value reads
/// back from its text, its text stands on the line as written, and its
/// spacing is set, and each absent value has no spacing (an unset spacing is
/// written as the default and read back as set).
pub proof fn law_general_round_trip(v: GeneralView, version: Version)
    requires
        general_fits(v, version),
    ensures
        crate::general::General::parse_text(crate::general::General::text_of(v, version).unwrap(), version) == Ok::<
            Option<GeneralView>,
            crate::types::Error<crate::general::ParseError>,
        >(Some(v)),
        crate::file_laws::text_plain(crate::general::General::text_of(v, version).unwrap()),
{
    lemma_general_prefix(v, version, 19);
    reveal_with_fuel(general_prefix, 20);
    let ls = crate::general::field_lines(v, version);
    assert(ls =~= general_prefix(v, version, 19));
    if ls.len() > 0 {
        assert(ls.last() == ls[ls.len() - 1]);
    }
    crate::laws::lemma_lines_join(ls);
    crate::file_laws::lemma_text_plain_of_lines(ls);
    assert(general_upto(v, 19) == v);
}


/// Whether a value is present exactly where its spacing is set.
pub open spec fn spaced<A>(value: Option<A>, sp: Option<usize>) -> bool {
    value is Some <==> sp is Some
}

/// What the plain law of the `[General]` section asks of its values: the
/// file names stand on a line as written (no line break, no space at either
/// end); the stack leniency reads back from its text; and each present value
/// is one that the version writes and reads back: no audio hash after version
/// 13, no countdown in versions 3 and 4, no sample set in version 3 and no
/// `None` sample set outside versions 4 to 13, only the osu! and osu!mania
/// modes in versions 3 to 13, and no overlay position in versions 3 to 13.
pub open spec fn general_values_plain(v: GeneralView, version: Version) -> bool {
    &&& (v.audio_filename matches Some(f) ==> value_plain(f))
    &&& (v.audio_hash matches Some(h) ==> version <= 13 && value_plain(h))
    &&& (v.countdown is Some ==> !(3 <= version <= 4))
    &&& (v.sample_set matches Some(x) ==> version != 3 && (!(4 <= version <= 13) ==> x != GeneralSampleSet::NoSampleSet))
    &&& (v.stack_leniency matches Some(d) ==> decimal_plain(d))
    &&& (v.mode matches Some(m) ==> (3 <= version <= 13 ==> (m == Mode::Osu || m == Mode::Mania)))
    &&& (v.overlay_position is Some ==> !(3 <= version <= 13))
    &&& (v.skin_preference matches Some(f) ==> value_plain(f))
}

/// What the plain law of the `[General]` section asks of it: its values fit
/// (see `general_values_plain`), and each value is present exactly where its
/// spacing is set.
pub open spec fn general_plain(v: GeneralView, version: Version) -> bool {
    let sp = v.spacing;
    &&& spaced(v.audio_filename, sp.audio_filename)
    &&& spaced(v.audio_lead_in, sp.audio_lead_in)
    &&& spaced(v.audio_hash, sp.audio_hash)
    &&& spaced(v.preview_time, sp.preview_time)
    &&& spaced(v.countdown, sp.countdown)
    &&& spaced(v.sample_set, sp.sample_set)
    &&& spaced(v.stack_leniency, sp.stack_leniency)
    &&& spaced(v.mode, sp.mode)
    &&& spaced(v.letterbox_in_breaks, sp.letterbox_in_breaks)
    &&& spaced(v.story_fire_in_front, sp.story_fire_in_front)
    &&& spaced(v.use_skin_sprites, sp.use_skin_sprites)
    &&& spaced(v.always_show_playfield, sp.always_show_playfield)
    &&& spaced(v.overlay_position, sp.overlay_position)
    &&& spaced(v.skin_preference, sp.skin_preference)
    &&& spaced(v.epilepsy_warning, sp.epilepsy_warning)
    &&& spaced(v.countdown_offset, sp.countdown_offset)
    &&& spaced(v.special_style, sp.special_style)
    &&& spaced(v.widescreen_storyboard, sp.widescreen_storyboard)
    &&& spaced(v.samples_match_playback_rate, sp.samples_match_playback_rate)
    &&& general_values_plain(v, version)
}

/// The spacing a value is written with: its own, or the default of one space
/// where it has none; none for an absent value.
pub open spec fn settled<A>(value: Option<A>, sp: Option<usize>) -> Option<usize> {
    match value {
        Some(_) => Some(match sp {
            Some(n) => n,
            None => 1usize,
        }),
        None => None,
    }
}

/// The section as it is written: each value with the spacing it is written
/// with.
pub open spec fn general_settled(v: GeneralView) -> GeneralView {
    let sp = v.spacing;
    GeneralView {
        spacing: GeneralSpacing {
            audio_filename: settled(v.audio_filename, sp.audio_filename),
            audio_lead_in: settled(v.audio_lead_in, sp.audio_lead_in),
            audio_hash: settled(v.audio_hash, sp.audio_hash),
            preview_time: settled(v.preview_time, sp.preview_time),
            countdown: settled(v.countdown, sp.countdown),
            sample_set: settled(v.sample_set, sp.sample_set),
            stack_leniency: settled(v.stack_leniency, sp.stack_leniency),
            mode: settled(v.mode, sp.mode),
            letterbox_in_breaks: settled(v.letterbox_in_breaks, sp.letterbox_in_breaks),
            story_fire_in_front: settled(v.story_fire_in_front, sp.story_fire_in_front),
            use_skin_sprites: settled(v.use_skin_sprites, sp.use_skin_sprites),
            always_show_playfield: settled(v.always_show_playfield, sp.always_show_playfield),
            overlay_position: settled(v.overlay_position, sp.overlay_position),
            skin_preference: settled(v.skin_preference, sp.skin_preference),
            epilepsy_warning: settled(v.epilepsy_warning, sp.epilepsy_warning),
            countdown_offset: settled(v.countdown_offset, sp.countdown_offset),
            special_style: settled(v.special_style, sp.special_style),
            widescreen_storyboard: settled(v.widescreen_storyboard, sp.widescreen_storyboard),
            samples_match_playback_rate: settled(v.samples_match_playback_rate, sp.samples_match_playback_rate),
        },
        ..v
    }
}

/// The text of an integer stands on a line as written.
proof fn lemma_int_value_plain(v: int)
    ensures
        value_plain(int_text(v)),
{
    crate::laws::lemma_int_text_first(v);
    crate::laws::lemma_int_text_end(v);
    crate::laws::lemma_int_text_plain(v, '\n');
}

/// A name without spaces or line breaks stands on a line as written.
proof fn lemma_name_plain(t: Seq<char>)
    requires
        t.len() > 0,
        forall|i: int| 0 <= i < t.len() ==> ('A' <= #[trigger] t[i] <= 'Z' || 'a' <= t[i] <= 'z'),
    ensures
        value_plain(t),
{
    assert(!t.contains('\n')) by {
        if t.contains('\n') {
            let i = choose|i: int| 0 <= i < t.len() && t[i] == '\n';
            assert('A' <= t[i] <= 'Z' || 'a' <= t[i] <= 'z');
        }
    }
    assert(t[0] == t[0]);
    assert(t.last() == t[t.len() - 1]);
}

proof fn lemma_int_field(x: Option<i32>, sp: Option<usize>, version: Version)
    requires
        spaced(x, sp),
    ensures
        field_fits::<i32>(x, sp, version),
{
    if let Some(n) = x {
        lemma_int_value_plain(n as int);
        crate::text::lemma_parse_int_text(n as int, i32::MIN as int, i32::MAX as int);
    }
}

proof fn lemma_bool_field(x: Option<bool>, sp: Option<usize>, version: Version)
    requires
        spaced(x, sp),
    ensures
        field_fits::<bool>(x, sp, version),
{
    if let Some(b) = x {
        crate::laws::law_bool_round_trip(b);
        let t = crate::helper::bool_text(b);
        assert(t.len() == 1);
        assert(!t.contains('\n')) by {
            if t.contains('\n') {
                assert(t[0] == '\n');
            }
        }
    }
}

proof fn lemma_string_field(x: Option<Seq<char>>, sp: Option<usize>, version: Version)
    requires
        spaced(x, sp),
        x matches Some(f) ==> value_plain(f),
    ensures
        field_fits::<String>(x, sp, version),
{
}

/// Reading a written `[General]` section gives it back, for a section that
/// the plain law covers (see `general_plain`): no condition is left on a
/// value but those its type or version brings.
pub proof fn law_general_round_trip_plain(v: GeneralView, version: Version)
    requires
        general_plain(v, version),
    ensures
        crate::general::General::parse_text(crate::general::General::text_of(v, version).unwrap(), version) == Ok::<
            Option<GeneralView>,
            crate::types::Error<crate::general::ParseError>,
        >(Some(v)),
{
    let sp = v.spacing;
    lemma_string_field(v.audio_filename, sp.audio_filename, version);
    lemma_int_field(v.audio_lead_in, sp.audio_lead_in, version);
    lemma_int_field(v.preview_time, sp.preview_time, version);
    lemma_int_field(v.countdown_offset, sp.countdown_offset, version);
    lemma_bool_field(v.letterbox_in_breaks, sp.letterbox_in_breaks, version);
    lemma_bool_field(v.story_fire_in_front, sp.story_fire_in_front, version);
    lemma_bool_field(v.use_skin_sprites, sp.use_skin_sprites, version);
    lemma_bool_field(v.always_show_playfield, sp.always_show_playfield, version);
    lemma_bool_field(v.epilepsy_warning, sp.epilepsy_warning, version);
    lemma_bool_field(v.special_style, sp.special_style, version);
    lemma_bool_field(v.widescreen_storyboard, sp.widescreen_storyboard, version);
    lemma_bool_field(v.samples_match_playback_rate, sp.samples_match_playback_rate, version);
    lemma_string_field(v.skin_preference, sp.skin_preference, version);
    assert(field_fits::<AudioHash>(v.audio_hash, sp.audio_hash, version));
    if let Some(c) = v.countdown {
        crate::laws::law_countdown_round_trip(c, version);
        lemma_int_value_plain(c.number() as int);
    }
    if let Some(m) = v.mode {
        crate::laws::law_mode_round_trip(m, version);
        lemma_int_value_plain(m.number() as int);
    }
    if let Some(x) = v.sample_set {
        crate::laws::law_general_sample_set_round_trip(x, version);
        reveal_strlit("Normal");
        reveal_strlit("Soft");
        reveal_strlit("Drum");
        reveal_strlit("None");
        lemma_name_plain(x.name());
    }
    assert(field_fits::<GeneralSampleSet>(v.sample_set, sp.sample_set, version));
    if let Some(o) = v.overlay_position {
        reveal_strlit("NoChange");
        reveal_strlit("Below");
        reveal_strlit("Above");
        lemma_name_plain(o.name());
        assert(OverlayPosition::parse_text(o.name(), version) == Ok::<
            Option<OverlayPosition>,
            crate::general::types::ParseOverlayPositionError,
        >(Some(o)));
    }
    assert(field_fits::<OverlayPosition>(v.overlay_position, sp.overlay_position, version));
    assert(field_fits::<Decimal>(v.stack_leniency, sp.stack_leniency, version));
    assert(general_fits(v, version));
    law_general_round_trip(v, version);
}

/// The line of a field is the same with the spacing it is written with.
proof fn lemma_settled_line<T: VersionedToString>(key: Seq<char>, value: Option<<T as View>::V>, sp: Option<usize>, version: Version)
    ensures
        line_of(key, sp, 1, ov_text::<T>(value, version)) == line_of(key, settled(value, sp), 1, ov_text::<T>(value, version)),
{
}

/// A section is written as it is with the spacing it is written with, which
/// the plain law covers where its values fit.
#[verifier::rlimit(40)]
#[verifier::spinoff_prover]
proof fn lemma_general_settled(v: GeneralView, version: Version)
    requires
        general_values_plain(v, version),
    ensures
        crate::general::field_lines(v, version) == crate::general::field_lines(general_settled(v), version),
        general_plain(general_settled(v), version),
{
    let sp = v.spacing;
    lemma_settled_line::<String>("AudioFilename"@, v.audio_filename, sp.audio_filename, version);
    lemma_settled_line::<Integer>("AudioLeadIn"@, v.audio_lead_in, sp.audio_lead_in, version);
    lemma_settled_line::<AudioHash>("AudioHash"@, v.audio_hash, sp.audio_hash, version);
    lemma_settled_line::<Integer>("PreviewTime"@, v.preview_time, sp.preview_time, version);
    lemma_settled_line::<Countdown>("Countdown"@, v.countdown, sp.countdown, version);
    lemma_settled_line::<GeneralSampleSet>("SampleSet"@, v.sample_set, sp.sample_set, version);
    lemma_settled_line::<Decimal>("StackLeniency"@, v.stack_leniency, sp.stack_leniency, version);
    lemma_settled_line::<Mode>("Mode"@, v.mode, sp.mode, version);
    lemma_settled_line::<bool>("LetterboxInBreaks"@, v.letterbox_in_breaks, sp.letterbox_in_breaks, version);
    lemma_settled_line::<bool>("StoryFireInFront"@, v.story_fire_in_front, sp.story_fire_in_front, version);
    lemma_settled_line::<bool>("UseSkinSprites"@, v.use_skin_sprites, sp.use_skin_sprites, version);
    lemma_settled_line::<bool>("AlwaysShowPlayfield"@, v.always_show_playfield, sp.always_show_playfield, version);
    lemma_settled_line::<OverlayPosition>("OverlayPosition"@, v.overlay_position, sp.overlay_position, version);
    lemma_settled_line::<String>("SkinPreference"@, v.skin_preference, sp.skin_preference, version);
    lemma_settled_line::<bool>("EpilepsyWarning"@, v.epilepsy_warning, sp.epilepsy_warning, version);
    lemma_settled_line::<Integer>("CountdownOffset"@, v.countdown_offset, sp.countdown_offset, version);
    lemma_settled_line::<bool>("SpecialStyle"@, v.special_style, sp.special_style, version);
    lemma_settled_line::<bool>("WidescreenStoryboard"@, v.widescreen_storyboard, sp.widescreen_storyboard, version);
    lemma_settled_line::<bool>("SamplesMatchPlaybackRate"@, v.samples_match_playback_rate, sp.samples_match_playback_rate, version);
}

/// Reading a written `[General]` section gives its values back, for values
/// that the plain law covers (see `general_values_plain`): every value comes
/// back as it was, and only the spacing after the colons is the one it was
/// written with (see `general_settled`).
pub proof fn law_general_round_trip_values(v: GeneralView, version: Version)
    requires
        general_values_plain(v, version),
    ensures
        crate::general::General::parse_text(crate::general::General::text_of(v, version).unwrap(), version) == Ok::<
            Option<GeneralView>,
            crate::types::Error<crate::general::ParseError>,
        >(Some(general_settled(v))),
        general_settled(v) == (GeneralView { spacing: general_settled(v).spacing, ..v }),
{
    lemma_general_settled(v, version);
    law_general_round_trip_plain(general_settled(v), version);
}

} // verus!
