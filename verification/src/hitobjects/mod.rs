//! The `[HitObjects]` section: hitcircles, sliders, spinners and osu!mania holds.
use vstd::prelude::*;

pub mod error;
pub mod types;

use crate::decimal::{parse_decimal_spec, Decimal};
use crate::helper::{all_have_text, parse_parts, parse_parts_exec, push_pipe_vec, texts, views, PipeVecParseErr};
use crate::text::{
    int_text, is_blank, join, join_chars, join_from, lines, lines_of, parse_i32, parse_int_spec,
    push_chars, push_int, split, split_chars, trim, vv,
};
use crate::types::{Error, Integer, Position, Version, VersionedFromStr, VersionedToString};

use self::error::{ParseError, ParseHitObjectError};
use self::types::{
    hitsample_parse, hitsound_mask, ComboSkipCount, CurvePoint, CurveType, EdgeSet, HitSample,
    HitSampleView, HitSound, HitSoundFlags,
};

verus! {

/// Milliseconds that versions 3 and 4 of the format count times early by.
pub const OLD_VERSION_TIME_OFFSET: i32 = 24;

/// Parameters of a slider.
#[derive(Clone, Debug, Hash, PartialEq, Eq)]
pub struct SlideParams {
    /// Shape of the curve.
    pub curve_type: CurveType,
    /// Anchor points of the curve.
    pub curve_points: Vec<CurvePoint>,
    /// How many times the slider is travelled.
    pub slides: Integer,
    /// Visual length in osu!pixels.
    pub length: Decimal,
    /// Hitsounds played on each edge.
    pub edge_sounds: Vec<HitSound>,
    edge_sounds_short_hand: bool,
    /// Sample sets used on each edge.
    pub edge_sets: Vec<EdgeSet>,
    edge_sets_shorthand: bool,
}

/// The view of a slider's parameters.
pub struct SlideParamsView {
    pub curve_type: CurveType,
    pub curve_points: Seq<CurvePoint>,
    pub slides: Integer,
    pub length: Decimal,
    pub edge_sounds: Seq<HitSoundFlags>,
    pub edge_sounds_short_hand: bool,
    pub edge_sets: Seq<EdgeSet>,
    pub edge_sets_shorthand: bool,
}

impl View for SlideParams {
    type V = SlideParamsView;

    closed spec fn view(&self) -> SlideParamsView {
        SlideParamsView {
            curve_type: self.curve_type,
            curve_points: self.curve_points@,
            slides: self.slides,
            length: self.length,
            edge_sounds: views(self.edge_sounds@),
            edge_sounds_short_hand: self.edge_sounds_short_hand,
            edge_sets: self.edge_sets@,
            edge_sets_shorthand: self.edge_sets_shorthand,
        }
    }
}

impl SlideParams {
    /// Slider parameters; edge sounds and sets are written out even where empty
    /// only if the text they were read from had them.
    pub fn new(
        curve_type: CurveType,
        curve_points: Vec<CurvePoint>,
        slides: Integer,
        length: Decimal,
        edge_sounds: Vec<HitSound>,
        edge_sets: Vec<EdgeSet>,
    ) -> (r: Self)
        ensures
            r@ == (SlideParamsView {
                curve_type,
                curve_points: curve_points@,
                slides,
                length,
                edge_sounds: views(edge_sounds@),
                edge_sounds_short_hand: true,
                edge_sets: edge_sets@,
                edge_sets_shorthand: true,
            }),
    {
        SlideParams {
            curve_type,
            curve_points,
            slides,
            length,
            edge_sounds,
            edge_sounds_short_hand: true,
            edge_sets,
            edge_sets_shorthand: true,
        }
    }
}

/// The parameters that tell the kinds of hitobject apart.
#[derive(Clone, Debug, Hash, PartialEq, Eq)]
pub enum HitObjectParams {
    HitCircle,
    Slider(SlideParams),
    Spinner { end_time: Integer },
    OsuManiaHold { end_time: Integer },
}

/// The view of a hitobject's parameters.
pub enum HitObjectParamsView {
    HitCircle,
    Slider(SlideParamsView),
    Spinner { end_time: Integer },
    OsuManiaHold { end_time: Integer },
}

impl View for HitObjectParams {
    type V = HitObjectParamsView;

    open spec fn view(&self) -> HitObjectParamsView {
        match self {
            HitObjectParams::HitCircle => HitObjectParamsView::HitCircle,
            HitObjectParams::Slider(p) => HitObjectParamsView::Slider(p@),
            HitObjectParams::Spinner { end_time } => HitObjectParamsView::Spinner {
                end_time: *end_time,
            },
            HitObjectParams::OsuManiaHold { end_time } => HitObjectParamsView::OsuManiaHold {
                end_time: *end_time,
            },
        }
    }
}

/// A hitobject.
#[derive(Clone, Debug, Hash, PartialEq, Eq)]
pub struct HitObject {
    /// Position of the object.
    pub position: Position,
    /// Time when the object is to be hit, in milliseconds from the start of the audio.
    pub time: Integer,
    /// Parameters of the kind of object.
    pub obj_params: HitObjectParams,
    /// Whether the object starts a new combo.
    pub new_combo: bool,
    /// How many combo colours to skip where the object starts a new combo.
    pub combo_skip_count: ComboSkipCount,
    /// Sounds played when the object is hit.
    pub hitsound: HitSound,
    /// Samples played when the object is hit.
    pub hitsample: Option<HitSample>,
}

/// The view of a hitobject.
pub struct HitObjectView {
    pub position: Position,
    pub time: Integer,
    pub obj_params: HitObjectParamsView,
    pub new_combo: bool,
    pub combo_skip_count: u8,
    pub hitsound: HitSoundFlags,
    pub hitsample: Option<HitSampleView>,
}

/// The view of an optional hitsample.
pub open spec fn opt_hitsample_view(h: Option<HitSample>) -> Option<HitSampleView> {
    match h {
        Some(h) => Some(h@),
        None => None,
    }
}

impl View for HitObject {
    type V = HitObjectView;

    open spec fn view(&self) -> HitObjectView {
        HitObjectView {
            position: self.position,
            time: self.time,
            obj_params: self.obj_params@,
            new_combo: self.new_combo,
            combo_skip_count: self.combo_skip_count@,
            hitsound: self.hitsound@,
            hitsample: opt_hitsample_view(self.hitsample),
        }
    }
}

// ---------------------------------------------------------------------------
// Reading
/// A field read as an `i32`.
pub open spec fn i32_field(f: Seq<char>) -> Option<i32> {
    match parse_int_spec(f, i32::MIN as int, i32::MAX as int) {
        Ok(v) => Some(v as i32),
        Err(_) => None,
    }
}

/// Whether times in `version` are written early by the offset.
pub open spec fn has_time_offset(version: Version) -> bool {
    3 <= version <= 4
}

/// A time field: versions 3 and 4 count times early, so the offset is added;
/// a time that would not fit an `i32` then is not read.
pub open spec fn time_field(f: Seq<char>, shifted: bool) -> Option<i32> {
    match i32_field(f) {
        None => None,
        Some(t) => if !shifted {
            Some(t)
        } else if t + OLD_VERSION_TIME_OFFSET > i32::MAX {
            None
        } else {
            Some((t + OLD_VERSION_TIME_OFFSET) as i32)
        },
    }
}

/// Whether bit `n` of the object type is set.
pub open spec fn type_bit(t: i32, n: i32) -> bool {
    ((t as i64 >> n as i64) & 1) == 1
}

/// The items of a `|`-separated list field: an empty field has none, and one
/// leading `|` is skipped.
pub open spec fn pipe_list_items(f: Seq<char>) -> Seq<Seq<char>> {
    if f.len() == 0 {
        Seq::empty()
    } else if f[0] == '|' {
        split(f.drop_first(), '|')
    } else {
        split(f, '|')
    }
}

/// The text after the `k`-th comma.
pub open spec fn rest_from(p: Seq<Seq<char>>, k: int, sep: char) -> Seq<char> {
    join(p.skip(k), seq![sep])
}

/// The optional hitsample that follows part `k`.
pub open spec fn tail_hitsample(p: Seq<Seq<char>>, k: int) -> Result<Option<HitSampleView>, ParseHitObjectError> {
    if p.len() <= k {
        Ok(None)
    } else {
        match hitsample_parse(rest_from(p, k, ',')) {
            Ok(h) => Ok(Some(h)),
            Err(_) => Err(ParseHitObjectError::InvalidHitSample),
        }
    }
}

/// The curve type and curve points of a slider, from its sixth field.
pub open spec fn curve_parse(f: Seq<char>, version: Version) -> Result<(CurveType, Seq<CurvePoint>), ParseHitObjectError> {
    match CurveType::parse_text(f, version) {
        Ok(Some(c)) => Ok((c, Seq::empty())),
        _ => {
            let q = split(f, '|');
            if q.len() < 2 {
                Err(ParseHitObjectError::InvalidCurveType)
            } else {
                match CurveType::parse_text(q[0], version) {
                    Ok(Some(c)) => match parse_parts::<CurvePoint>(
                        pipe_list_items(join(q.skip(1), seq!['|'])),
                        version,
                    ) {
                        Ok(pts) => Ok(
                            (
                                c,
                                if version == 3 && pts.len() > 0 {
                                    pts.drop_first()
                                } else {
                                    pts
                                },
                            ),
                        ),
                        Err(_) => Err(ParseHitObjectError::InvalidCurvePoint),
                    },
                    _ => Err(ParseHitObjectError::InvalidCurveType),
                }
            }
        },
    }
}

/// The slider parameters and hitsample that follow the common fields.
pub open spec fn slider_parse(p: Seq<Seq<char>>, version: Version) -> Result<(SlideParamsView, Option<HitSampleView>), ParseHitObjectError> {
    if p.len() < 6 {
        Err(ParseHitObjectError::MissingCurveType)
    } else {
        match curve_parse(p[5], version) {
            Err(e) => Err(e),
            Ok((ct, pts)) => if p.len() < 7 {
                Err(ParseHitObjectError::MissingSlidesCount)
            } else {
                match i32_field(p[6]) {
                    None => Err(ParseHitObjectError::InvalidSlidesCount),
                    Some(slides) => if p.len() < 8 {
                        Err(ParseHitObjectError::MissingLength)
                    } else {
                        match parse_decimal_spec(p[7]) {
                            None => Err(ParseHitObjectError::InvalidLength),
                            Some(length) => if p.len() == 8 {
                                Ok(
                                    (
                                        SlideParamsView {
                                            curve_type: ct,
                                            curve_points: pts,
                                            slides,
                                            length,
                                            edge_sounds: Seq::empty(),
                                            edge_sounds_short_hand: true,
                                            edge_sets: Seq::empty(),
                                            edge_sets_shorthand: true,
                                        },
                                        None,
                                    ),
                                )
                            } else {
                                match parse_parts::<HitSound>(pipe_list_items(p[8]), version) {
                                    Err(_) => Err(ParseHitObjectError::InvalidEdgeSound),
                                    Ok(sounds) => if p.len() == 9 {
                                        Ok(
                                            (
                                                SlideParamsView {
                                                    curve_type: ct,
                                                    curve_points: pts,
                                                    slides,
                                                    length,
                                                    edge_sounds: sounds,
                                                    edge_sounds_short_hand: false,
                                                    edge_sets: Seq::empty(),
                                                    edge_sets_shorthand: true,
                                                },
                                                None,
                                            ),
                                        )
                                    } else {
                                        match parse_parts::<EdgeSet>(
                                            pipe_list_items(p[9]),
                                            version,
                                        ) {
                                            Err(_) => Err(ParseHitObjectError::InvalidEdgeSet),
                                            Ok(sets) => match tail_hitsample(p, 10) {
                                                Err(e) => Err(e),
                                                Ok(hs) => Ok(
                                                    (
                                                        SlideParamsView {
                                                            curve_type: ct,
                                                            curve_points: pts,
                                                            slides,
                                                            length,
                                                            edge_sounds: sounds,
                                                            edge_sounds_short_hand: false,
                                                            edge_sets: sets,
                                                            edge_sets_shorthand: false,
                                                        },
                                                        hs,
                                                    ),
                                                ),
                                            },
                                        }
                                    },
                                }
                            },
                        }
                    },
                }
            },
        }
    }
}

/// The end time and hitsample of an osu!mania hold: the text after the sixth
/// comma up to the first `:` is the end time, and the rest is the hitsample.
pub open spec fn mania_parse(p: Seq<Seq<char>>, version: Version) -> Result<(i32, Option<HitSampleView>), ParseHitObjectError> {
    if p.len() < 6 {
        Err(ParseHitObjectError::MissingEndTime)
    } else {
        let q = split(rest_from(p, 5, ','), ':');
        if q.len() < 2 {
            Err(ParseHitObjectError::InvalidEndTime)
        } else {
            match time_field(q[0], has_time_offset(version)) {
                None => Err(ParseHitObjectError::InvalidEndTime),
                Some(end_time) => match hitsample_parse(join(q.skip(1), seq![':'])) {
                    Ok(h) => Ok((end_time, Some(h))),
                    Err(_) => Err(ParseHitObjectError::InvalidHitSample),
                },
            }
        }
    }
}

/// The parameters and hitsample that follow the common fields, by object type.
pub open spec fn params_parse(p: Seq<Seq<char>>, t: i32, version: Version) -> Result<(HitObjectParamsView, Option<HitSampleView>), ParseHitObjectError> {
    if type_bit(t, 0) {
        match tail_hitsample(p, 5) {
            Ok(hs) => Ok((HitObjectParamsView::HitCircle, hs)),
            Err(e) => Err(e),
        }
    } else if type_bit(t, 1) {
        match slider_parse(p, version) {
            Ok((sp, hs)) => Ok((HitObjectParamsView::Slider(sp), hs)),
            Err(e) => Err(e),
        }
    } else if type_bit(t, 3) {
        if p.len() < 6 {
            Err(ParseHitObjectError::MissingEndTime)
        } else {
            match time_field(p[5], has_time_offset(version)) {
                None => Err(ParseHitObjectError::InvalidEndTime),
                Some(end_time) => match tail_hitsample(p, 6) {
                    Ok(hs) => Ok((HitObjectParamsView::Spinner { end_time }, hs)),
                    Err(e) => Err(e),
                },
            }
        }
    } else if type_bit(t, 7) {
        match mania_parse(p, version) {
            Ok((end_time, hs)) => Ok((HitObjectParamsView::OsuManiaHold { end_time }, hs)),
            Err(e) => Err(e),
        }
    } else {
        Err(ParseHitObjectError::UnknownObjType)
    }
}

/// What reading a hitobject gives: `x,y,time,type,hitSound` followed by the
/// parameters of the kind of object that `type` names, and a hitsample.
#[verifier::opaque]
pub open spec fn hitobject_parse(s: Seq<char>, version: Version) -> Result<HitObjectView, ParseHitObjectError> {
    let p = split(s, ',');
    match i32_field(p[0]) {
        None => Err(ParseHitObjectError::InvalidX),
        Some(x) => if p.len() < 2 {
            Err(ParseHitObjectError::MissingY)
        } else {
            match i32_field(p[1]) {
                None => Err(ParseHitObjectError::InvalidY),
                Some(y) => if p.len() < 3 {
                    Err(ParseHitObjectError::MissingTime)
                } else {
                    match time_field(p[2], has_time_offset(version)) {
                        None => Err(ParseHitObjectError::InvalidTime),
                        Some(time) => if p.len() < 4 {
                            Err(ParseHitObjectError::MissingObjType)
                        } else {
                            match i32_field(p[3]) {
                                None => Err(ParseHitObjectError::InvalidObjType),
                                Some(t) => if p.len() < 5 {
                                    Err(ParseHitObjectError::MissingHitSound)
                                } else {
                                    match HitSound::parse_text(p[4], version) {
                                        Ok(Some(hitsound)) => match params_parse(p, t, version) {
                                            Err(e) => Err(e),
                                            Ok((params, hitsample)) => Ok(
                                                HitObjectView {
                                                    position: Position { x, y },
                                                    time,
                                                    obj_params: params,
                                                    new_combo: type_bit(t, 2),
                                                    combo_skip_count: ((t as i64 >> 4i64) & 7) as u8,
                                                    hitsound,
                                                    hitsample,
                                                },
                                            ),
                                        },
                                        _ => Err(ParseHitObjectError::InvalidHitSound),
                                    }
                                },
                            }
                        },
                    }
                },
            }
        },
    }
}

pub(crate) fn i32_field_exec(f: &[char]) -> (r: Option<i32>)
    ensures
        r == i32_field(f@),
{
    match parse_i32(f) {
        Ok(v) => Some(v),
        Err(_) => None,
    }
}

pub(crate) fn time_field_exec(f: &[char], shifted: bool) -> (r: Option<i32>)
    ensures
        r == time_field(f@, shifted),
{
    match i32_field_exec(f) {
        None => None,
        Some(t) => if !shifted {
            Some(t)
        } else if t > i32::MAX - OLD_VERSION_TIME_OFFSET {
            None
        } else {
            Some(t + OLD_VERSION_TIME_OFFSET)
        },
    }
}

fn type_bit_exec(t: i32, n: i32) -> (r: bool)
    requires
        0 <= n < 64,
    ensures
        r == type_bit(t, n),
{
    ((t as i64 >> n as i64) & 1) == 1
}

pub(crate) proof fn lemma_comma_lit()
    ensures
        ","@ == seq![','],
        "|"@ == seq!['|'],
        ":"@ == seq![':'],
{
    reveal_strlit(",");
    reveal_strlit("|");
    reveal_strlit(":");
    assert(","@ =~= seq![',']);
    assert("|"@ =~= seq!['|']);
    assert(":"@ =~= seq![':']);
}

fn tail_hitsample_exec(p: &Vec<Vec<char>>, k: usize, version: Version) -> (r: Result<Option<HitSample>, ParseHitObjectError>)
    ensures
        match (r, tail_hitsample(vv(p@), k as int)) {
            (Ok(a), Ok(b)) => opt_hitsample_view(a) == b,
            (Err(a), Err(b)) => a == b,
            _ => false,
        },
{
    if p.len() <= k {
        return Ok(None);
    }
    proof {
        lemma_comma_lit();
    }
    let rest = join_from(p, k, ",");
    match HitSample::from_chars(rest.as_slice(), version) {
        Ok(Some(h)) => Ok(Some(h)),
        _ => Err(ParseHitObjectError::InvalidHitSample),
    }
}

/// Reads the items of a `|`-separated list field.
fn pipe_list_exec<T: VersionedFromStr>(f: &[char], version: Version) -> (r: Result<Vec<T>, PipeVecParseErr<T::Err>>)
    ensures
        match (r, parse_parts::<T>(pipe_list_items(f@), version)) {
            (Ok(a), Ok(b)) => views(a@) == b,
            (Err(a), Err(b)) => a@ == b,
            _ => false,
        },
{
    let items: Vec<Vec<char>> = if f.len() == 0 {
        Vec::new()
    } else if f[0] == '|' {
        let t = crate::text::slice_to_vec(f, 1, f.len());
        assert(t@ == f@.drop_first());
        split_chars(t.as_slice(), '|')
    } else {
        split_chars(f, '|')
    };
    assert(vv(items@) == pipe_list_items(f@)) by {
        if f.len() == 0 {
            assert(vv(items@) =~= Seq::<Seq<char>>::empty());
        }
    }
    parse_parts_exec(&items, version)
}

fn curve_parse_exec(f: &[char], version: Version) -> (r: Result<(CurveType, Vec<CurvePoint>), ParseHitObjectError>)
    ensures
        match (r, curve_parse(f@, version)) {
            (Ok((a, b)), Ok((c, d))) => a == c && b@ == d,
            (Err(a), Err(b)) => a == b,
            _ => false,
        },
{
    match CurveType::from_chars(f, version) {
        Ok(Some(c)) => return Ok((c, Vec::new())),
        _ => {},
    }
    let q = split_chars(f, '|');
    if q.len() < 2 {
        return Err(ParseHitObjectError::InvalidCurveType);
    }
    assert(vv(q@)[0] == q@[0]@);
    let c = match CurveType::from_chars(q[0].as_slice(), version) {
        Ok(Some(c)) => c,
        _ => return Err(ParseHitObjectError::InvalidCurveType),
    };
    proof {
        lemma_comma_lit();
    }
    let tail = join_from(&q, 1, "|");
    match pipe_list_exec::<CurvePoint>(tail.as_slice(), version) {
        Ok(mut pts) => {
            assert(views(pts@) == pts@) by {
                assert(views(pts@) =~= pts@);
            }
            if version == 3 && pts.len() > 0 {
                let ghost before = pts@;
                pts.remove(0);
                assert(pts@ =~= before.drop_first());
            }
            Ok((c, pts))
        },
        Err(_) => Err(ParseHitObjectError::InvalidCurvePoint),
    }
}

fn slider_parse_exec(p: &Vec<Vec<char>>, version: Version) -> (r: Result<(SlideParams, Option<HitSample>), ParseHitObjectError>)
    ensures
        match (r, slider_parse(vv(p@), version)) {
            (Ok((a, b)), Ok((c, d))) => a@ == c && opt_hitsample_view(b) == d,
            (Err(a), Err(b)) => a == b,
            _ => false,
        },
{
    let ghost pv = vv(p@);
    if p.len() < 6 {
        return Err(ParseHitObjectError::MissingCurveType);
    }
    assert(pv[5] == p@[5]@);
    let (curve_type, curve_points) = curve_parse_exec(p[5].as_slice(), version)?;
    if p.len() < 7 {
        return Err(ParseHitObjectError::MissingSlidesCount);
    }
    assert(pv[6] == p@[6]@);
    let slides = match i32_field_exec(p[6].as_slice()) {
        Some(v) => v,
        None => return Err(ParseHitObjectError::InvalidSlidesCount),
    };
    if p.len() < 8 {
        return Err(ParseHitObjectError::MissingLength);
    }
    assert(pv[7] == p@[7]@);
    let length = match Decimal::parse(p[7].as_slice()) {
        Some(d) => d,
        None => return Err(ParseHitObjectError::InvalidLength),
    };
    let no_sounds: Vec<HitSound> = Vec::new();
    let no_sets: Vec<EdgeSet> = Vec::new();
    assert(views(no_sounds@) =~= Seq::<HitSoundFlags>::empty());
    assert(no_sets@ =~= Seq::<EdgeSet>::empty());
    if p.len() == 8 {
        return Ok(
            (
                SlideParams {
                    curve_type,
                    curve_points,
                    slides,
                    length,
                    edge_sounds: no_sounds,
                    edge_sounds_short_hand: true,
                    edge_sets: no_sets,
                    edge_sets_shorthand: true,
                },
                None,
            ),
        );
    }
    assert(pv[8] == p@[8]@);
    let edge_sounds = match pipe_list_exec::<HitSound>(p[8].as_slice(), version) {
        Ok(v) => v,
        Err(_) => return Err(ParseHitObjectError::InvalidEdgeSound),
    };
    if p.len() == 9 {
        return Ok(
            (
                SlideParams {
                    curve_type,
                    curve_points,
                    slides,
                    length,
                    edge_sounds,
                    edge_sounds_short_hand: false,
                    edge_sets: no_sets,
                    edge_sets_shorthand: true,
                },
                None,
            ),
        );
    }
    assert(pv[9] == p@[9]@);
    let edge_sets = match pipe_list_exec::<EdgeSet>(p[9].as_slice(), version) {
        Ok(v) => v,
        Err(_) => return Err(ParseHitObjectError::InvalidEdgeSet),
    };
    assert(views(edge_sets@) =~= edge_sets@);
    let hs = tail_hitsample_exec(p, 10, version)?;
    Ok(
        (
            SlideParams {
                curve_type,
                curve_points,
                slides,
                length,
                edge_sounds,
                edge_sounds_short_hand: false,
                edge_sets,
                edge_sets_shorthand: false,
            },
            hs,
        ),
    )
}

fn mania_parse_exec(p: &Vec<Vec<char>>, version: Version) -> (r: Result<(i32, Option<HitSample>), ParseHitObjectError>)
    ensures
        match (r, mania_parse(vv(p@), version)) {
            (Ok((a, b)), Ok((c, d))) => a == c && opt_hitsample_view(b) == d,
            (Err(a), Err(b)) => a == b,
            _ => false,
        },
{
    if p.len() < 6 {
        return Err(ParseHitObjectError::MissingEndTime);
    }
    proof {
        lemma_comma_lit();
    }
    let rest = join_from(p, 5, ",");
    let q = split_chars(rest.as_slice(), ':');
    if q.len() < 2 {
        return Err(ParseHitObjectError::InvalidEndTime);
    }
    assert(vv(q@)[0] == q@[0]@);
    let end_time = match time_field_exec(q[0].as_slice(), 3 <= version && version <= 4) {
        Some(t) => t,
        None => return Err(ParseHitObjectError::InvalidEndTime),
    };
    let hs_text = join_from(&q, 1, ":");
    match HitSample::from_chars(hs_text.as_slice(), version) {
        Ok(Some(h)) => Ok((end_time, Some(h))),
        _ => Err(ParseHitObjectError::InvalidHitSample),
    }
}

fn params_parse_exec(p: &Vec<Vec<char>>, t: i32, version: Version) -> (r: Result<(HitObjectParams, Option<HitSample>), ParseHitObjectError>)
    ensures
        match (r, params_parse(vv(p@), t, version)) {
            (Ok((a, b)), Ok((c, d))) => a@ == c && opt_hitsample_view(b) == d,
            (Err(a), Err(b)) => a == b,
            _ => false,
        },
{
    if type_bit_exec(t, 0) {
        let hs = tail_hitsample_exec(p, 5, version)?;
        Ok((HitObjectParams::HitCircle, hs))
    } else if type_bit_exec(t, 1) {
        let (sp, hs) = slider_parse_exec(p, version)?;
        Ok((HitObjectParams::Slider(sp), hs))
    } else if type_bit_exec(t, 3) {
        if p.len() < 6 {
            return Err(ParseHitObjectError::MissingEndTime);
        }
        assert(vv(p@)[5] == p@[5]@);
        let end_time = match time_field_exec(p[5].as_slice(), 3 <= version && version <= 4) {
            Some(e) => e,
            None => return Err(ParseHitObjectError::InvalidEndTime),
        };
        let hs = tail_hitsample_exec(p, 6, version)?;
        Ok((HitObjectParams::Spinner { end_time }, hs))
    } else if type_bit_exec(t, 7) {
        let (end_time, hs) = mania_parse_exec(p, version)?;
        Ok((HitObjectParams::OsuManiaHold { end_time }, hs))
    } else {
        Err(ParseHitObjectError::UnknownObjType)
    }
}

impl VersionedFromStr for HitObject {
    type Err = ParseHitObjectError;

    open spec fn parse_text(s: Seq<char>, version: Version) -> Result<Option<HitObjectView>, ParseHitObjectError> {
        match hitobject_parse(s, version) {
            Ok(h) => Ok(Some(h)),
            Err(e) => Err(e),
        }
    }

    fn from_chars(s: &[char], version: Version) -> (r: Result<Option<HitObject>, ParseHitObjectError>) {
        reveal(hitobject_parse);
        let p = split_chars(s, ',');
        let ghost pv = vv(p@);
        assert(pv[0] == p@[0]@);
        let x = match i32_field_exec(p[0].as_slice()) {
            Some(v) => v,
            None => return Err(ParseHitObjectError::InvalidX),
        };
        if p.len() < 2 {
            return Err(ParseHitObjectError::MissingY);
        }
        assert(pv[1] == p@[1]@);
        let y = match i32_field_exec(p[1].as_slice()) {
            Some(v) => v,
            None => return Err(ParseHitObjectError::InvalidY),
        };
        if p.len() < 3 {
            return Err(ParseHitObjectError::MissingTime);
        }
        assert(pv[2] == p@[2]@);
        let time = match time_field_exec(p[2].as_slice(), 3 <= version && version <= 4) {
            Some(v) => v,
            None => return Err(ParseHitObjectError::InvalidTime),
        };
        if p.len() < 4 {
            return Err(ParseHitObjectError::MissingObjType);
        }
        assert(pv[3] == p@[3]@);
        let t = match i32_field_exec(p[3].as_slice()) {
            Some(v) => v,
            None => return Err(ParseHitObjectError::InvalidObjType),
        };
        if p.len() < 5 {
            return Err(ParseHitObjectError::MissingHitSound);
        }
        assert(pv[4] == p@[4]@);
        let hitsound = match HitSound::from_chars(p[4].as_slice(), version) {
            Ok(Some(h)) => h,
            _ => return Err(ParseHitObjectError::InvalidHitSound),
        };
        let (obj_params, hitsample) = params_parse_exec(&p, t, version)?;
        let new_combo = type_bit_exec(t, 2);
        let m: i64 = (t as i64 >> 4i64) & 7;
        assert(0 <= m <= 7) by (bit_vector)
            requires
                m == (t as i64 >> 4i64) & 7,
        ;
        let count = m as u8;
        let combo_skip_count = match ComboSkipCount::new(count) {
            Ok(c) => c,
            Err(_) => return Err(ParseHitObjectError::InvalidObjType),
        };
        Ok(
            Some(
                HitObject {
                    position: Position { x, y },
                    time,
                    obj_params,
                    new_combo,
                    combo_skip_count,
                    hitsound,
                    hitsample,
                },
            ),
        )
    }
}

// ---------------------------------------------------------------------------
// Writing
/// The texts of values given by their views.
pub open spec fn vtexts<T: VersionedToString>(vs: Seq<T::V>, version: Version) -> Seq<Seq<char>> {
    vs.map_values(|v: T::V| T::text_of(v, version).unwrap())
}

/// A list with the text if there is one.
pub open spec fn opt_seq(o: Option<Seq<char>>) -> Seq<Seq<char>> {
    match o {
        Some(t) => seq![t],
        None => Seq::empty(),
    }
}

/// The text of an optional hitsample.
pub open spec fn hs_text(h: Option<HitSampleView>, version: Version) -> Option<Seq<char>> {
    match h {
        Some(h) => HitSample::text_of(h, version),
        None => None,
    }
}

/// A time as written in `version`: versions 3 and 4 write it early.
pub open spec fn written_time(t: i32, version: Version) -> int {
    if has_time_offset(version) {
        t - OLD_VERSION_TIME_OFFSET
    } else {
        t as int
    }
}

/// The `type` number of a hitobject: its kind's bit, the new combo bit, and
/// the combo skip count in bits 4 to 6.
pub open spec fn type_number(h: HitObjectView) -> int {
    (match h.obj_params {
        HitObjectParamsView::HitCircle => 1int,
        HitObjectParamsView::Slider(_) => 2,
        HitObjectParamsView::Spinner { .. } => 8,
        HitObjectParamsView::OsuManiaHold { .. } => 128,
    }) + (if h.new_combo {
        4int
    } else {
        0
    }) + 16 * h.combo_skip_count
}

/// The five fields every hitobject starts with.
pub open spec fn common_fields(h: HitObjectView, version: Version) -> Seq<Seq<char>> {
    seq![
        int_text(h.position.x as int),
        int_text(h.position.y as int),
        int_text(written_time(h.time, version)),
        int_text(type_number(h)),
        int_text(hitsound_mask(h.hitsound) as int),
    ]
}

/// The fields of a slider that follow its curve type.
pub open spec fn slider_tail_fields(h: HitObjectView, sp: SlideParamsView, version: Version) -> Seq<Seq<char>> {
    let has_points = version == 3 || sp.curve_points.len() > 0;
    let points = if version == 3 {
        seq![join(vtexts::<CurvePoint>(seq![CurvePoint(h.position)] + sp.curve_points, version), seq!['|'])]
    } else if has_points {
        seq![join(vtexts::<CurvePoint>(sp.curve_points, version), seq!['|'])]
    } else {
        Seq::empty()
    };
    let sounds = if sp.edge_sounds.len() > 0 || !sp.edge_sounds_short_hand || sp.edge_sets.len() > 0
        || !sp.edge_sets_shorthand || h.hitsample is Some {
        seq![join(vtexts::<HitSound>(sp.edge_sounds, version), seq!['|'])]
    } else {
        Seq::empty()
    };
    let sets = if sp.edge_sets.len() > 0 || !sp.edge_sets_shorthand || h.hitsample is Some {
        seq![join(vtexts::<EdgeSet>(sp.edge_sets, version), seq!['|'])]
    } else {
        Seq::empty()
    };
    points + seq![int_text(sp.slides as int), sp.length.text()] + sounds + sets + opt_seq(
        hs_text(h.hitsample, version),
    )
}

/// The text of a hitobject.
#[verifier::opaque]
pub open spec fn hitobject_text(h: HitObjectView, version: Version) -> Seq<char> {
    let common = common_fields(h, version);
    let hs = opt_seq(hs_text(h.hitsample, version));
    match h.obj_params {
        HitObjectParamsView::HitCircle => {
            let s = join(common + hs, seq![',']);
            if version == 3 {
                s.push(',')
            } else {
                s
            }
        },
        HitObjectParamsView::Spinner { end_time } => join(
            common.push(int_text(written_time(end_time, version))) + hs,
            seq![','],
        ),
        HitObjectParamsView::OsuManiaHold { end_time } => join(
            common.push(int_text(written_time(end_time, version))),
            seq![','],
        ) + seq![':'] + (match hs_text(h.hitsample, version) {
            Some(t) => t,
            None => Seq::empty(),
        }),
        HitObjectParamsView::Slider(sp) => {
            let head = join(common.push(seq![sp.curve_type.letter()]), seq![',']);
            let tail = join(slider_tail_fields(h, sp, version), seq![',']);
            if version == 3 || sp.curve_points.len() > 0 {
                head + seq!['|'] + tail
            } else {
                head + seq![','] + tail
            }
        },
    }
}

pub(crate) fn int_chars(v: i64) -> (r: Vec<char>)
    ensures
        r@ == int_text(v as int),
{
    let mut out: Vec<char> = Vec::new();
    push_int(&mut out, v);
    assert(out@ =~= int_text(v as int));
    out
}

pub(crate) fn written_time_exec(t: i32, version: Version) -> (r: i64)
    ensures
        r == written_time(t, version),
{
    if 3 <= version && version <= 4 {
        t as i64 - OLD_VERSION_TIME_OFFSET as i64
    } else {
        t as i64
    }
}

/// The texts of a list of values joined with `|`, as characters.
fn pipe_chars<T: VersionedToString>(vec: &[T], version: Version) -> (r: Vec<char>)
    requires
        all_have_text(vec@, version),
    ensures
        r@ == join(vtexts::<T>(views(vec@), version), seq!['|']),
{
    let mut out: Vec<char> = Vec::new();
    push_pipe_vec(&mut out, vec, version);
    assert(texts(vec@, version) =~= vtexts::<T>(views(vec@), version));
    assert(out@ =~= join(vtexts::<T>(views(vec@), version), seq!['|']));
    out
}

impl HitObject {
    fn type_number_exec(&self) -> (r: i64)
        ensures
            r == type_number(self@),
    {
        let base: i64 = match self.obj_params {
            HitObjectParams::HitCircle => 1,
            HitObjectParams::Slider(_) => 2,
            HitObjectParams::Spinner { .. } => 8,
            HitObjectParams::OsuManiaHold { .. } => 128,
        };
        let nc: i64 = if self.new_combo {
            4
        } else {
            0
        };
        base + nc + 16 * (self.combo_skip_count.get() as i64)
    }

    fn common_fields_exec(&self, version: Version) -> (r: Vec<Vec<char>>)
        ensures
            vv(r@) == common_fields(self@, version),
    {
        let mut r: Vec<Vec<char>> = Vec::new();
        r.push(int_chars(self.position.x as i64));
        r.push(int_chars(self.position.y as i64));
        r.push(int_chars(written_time_exec(self.time, version)));
        r.push(int_chars(self.type_number_exec()));
        r.push(int_chars(self.hitsound.mask() as i64));
        assert(vv(r@) =~= common_fields(self@, version));
        r
    }

    fn hs_text_exec(&self, version: Version) -> (r: Option<Vec<char>>)
        ensures
            match (r, hs_text(self@.hitsample, version)) {
                (Some(a), Some(b)) => a@ == b,
                (None, None) => true,
                _ => false,
            },
    {
        match &self.hitsample {
            Some(h) => h.to_chars(version),
            None => None,
        }
    }

    /// A hitcircle at the origin at time 0, with default sounds.
    pub fn hitcircle_default() -> (r: Self)
        ensures
            r@.obj_params == HitObjectParamsView::HitCircle,
            r@.position == (Position { x: 0, y: 0 }),
            r@.time == 0,
            !r@.new_combo,
            r@.combo_skip_count == 0,
            r@.hitsound == (false, false, false, false),
            r@.hitsample is None,
    {
        HitObject {
            position: Position { x: 0, y: 0 },
            time: 0,
            obj_params: HitObjectParams::HitCircle,
            new_combo: false,
            combo_skip_count: ComboSkipCount::new(0).unwrap(),
            hitsound: HitSound::new(false, false, false, false),
            hitsample: None,
        }
    }

    /// A spinner at the origin from time 0 to 0, with default sounds.
    pub fn spinner_default() -> (r: Self)
        ensures
            r@.obj_params == (HitObjectParamsView::Spinner { end_time: 0 }),
            r@.position == (Position { x: 0, y: 0 }),
            r@.time == 0,
            !r@.new_combo,
            r@.combo_skip_count == 0,
            r@.hitsound == (false, false, false, false),
            r@.hitsample is None,
    {
        HitObject {
            position: Position { x: 0, y: 0 },
            time: 0,
            obj_params: HitObjectParams::Spinner { end_time: 0 },
            new_combo: false,
            combo_skip_count: ComboSkipCount::new(0).unwrap(),
            hitsound: HitSound::new(false, false, false, false),
            hitsample: None,
        }
    }

    /// An osu!mania hold at the origin from time 0 to 0, with default sounds.
    pub fn osu_mania_hold_default() -> (r: Self)
        ensures
            r@.obj_params == (HitObjectParamsView::OsuManiaHold { end_time: 0 }),
            r@.position == (Position { x: 0, y: 0 }),
            r@.time == 0,
            !r@.new_combo,
            r@.combo_skip_count == 0,
            r@.hitsound == (false, false, false, false),
            r@.hitsample is None,
    {
        HitObject {
            position: Position { x: 0, y: 0 },
            time: 0,
            obj_params: HitObjectParams::OsuManiaHold { end_time: 0 },
            new_combo: false,
            combo_skip_count: ComboSkipCount::new(0).unwrap(),
            hitsound: HitSound::new(false, false, false, false),
            hitsample: None,
        }
    }

    fn slider_tail_exec(&self, sp: &SlideParams, version: Version) -> (r: Vec<Vec<char>>)
        requires
            self.obj_params == HitObjectParams::Slider(*sp),
        ensures
            vv(r@) == slider_tail_fields(self@, sp@, version),
    {
        let mut props: Vec<Vec<char>> = Vec::new();
        let has_points = version == 3 || sp.curve_points.len() > 0;
        if version == 3 {
            let mut pts: Vec<CurvePoint> = Vec::new();
            pts.push(CurvePoint(self.position));
            let mut i: usize = 0;
            while i < sp.curve_points.len()
                invariant
                    i <= sp.curve_points.len(),
                    pts@ == seq![CurvePoint(self.position)] + sp.curve_points@.take(i as int),
                decreases sp.curve_points.len() - i,
            {
                pts.push(sp.curve_points[i]);
                assert(sp.curve_points@.take(i + 1) == sp.curve_points@.take(i as int).push(
                    sp.curve_points@[i as int],
                ));
                i = i + 1;
            }
            assert(sp.curve_points@.take(sp.curve_points@.len() as int) == sp.curve_points@);
            assert(views(pts@) =~= pts@);
            props.push(pipe_chars(pts.as_slice(), version));
        } else if has_points {
            assert(views(sp.curve_points@) =~= sp.curve_points@);
            props.push(pipe_chars(sp.curve_points.as_slice(), version));
        }
        props.push(int_chars(sp.slides as i64));
        let mut len_text: Vec<char> = Vec::new();
        sp.length.push_to(&mut len_text);
        props.push(len_text);
        let hs_some = self.hitsample.is_some();
        if sp.edge_sounds.len() > 0 || !sp.edge_sounds_short_hand || sp.edge_sets.len() > 0
            || !sp.edge_sets_shorthand || hs_some {
            props.push(pipe_chars(sp.edge_sounds.as_slice(), version));
        }
        if sp.edge_sets.len() > 0 || !sp.edge_sets_shorthand || hs_some {
            assert(views(sp.edge_sets@) =~= sp.edge_sets@);
            props.push(pipe_chars(sp.edge_sets.as_slice(), version));
        }
        match self.hs_text_exec(version) {
            Some(t) => props.push(t),
            None => {},
        }
        assert(vv(props@) =~= slider_tail_fields(self@, sp@, version));
        props
    }
}

impl VersionedToString for HitObject {
    open spec fn text_of(v: HitObjectView, version: Version) -> Option<Seq<char>> {
        Some(hitobject_text(v, version))
    }

    fn to_chars(&self, version: Version) -> (r: Option<Vec<char>>) {
        reveal(hitobject_text);
        proof {
            lemma_comma_lit();
        }
        let mut props = self.common_fields_exec(version);
        let ghost common = vv(props@);
        let ghost hs = opt_seq(hs_text(self@.hitsample, version));
        match &self.obj_params {
            HitObjectParams::HitCircle => {
                match self.hs_text_exec(version) {
                    Some(t) => props.push(t),
                    None => {},
                }
                assert(vv(props@) =~= common + hs);
                let mut s = join_chars(&props, ",");
                if version == 3 {
                    s.push(',');
                }
                assert(s@ =~= hitobject_text(self@, version));
                Some(s)
            },
            HitObjectParams::Spinner { end_time } => {
                props.push(int_chars(written_time_exec(*end_time, version)));
                let ghost with_end = vv(props@);
                assert(with_end =~= common.push(int_text(written_time(*end_time, version))));
                match self.hs_text_exec(version) {
                    Some(t) => props.push(t),
                    None => {},
                }
                assert(vv(props@) =~= with_end + hs);
                let s = join_chars(&props, ",");
                assert(s@ =~= hitobject_text(self@, version));
                Some(s)
            },
            HitObjectParams::OsuManiaHold { end_time } => {
                props.push(int_chars(written_time_exec(*end_time, version)));
                assert(vv(props@) =~= common.push(int_text(written_time(*end_time, version))));
                let mut s = join_chars(&props, ",");
                s.push(':');
                match self.hs_text_exec(version) {
                    Some(t) => push_chars(&mut s, t.as_slice()),
                    None => {},
                }
                assert(s@ =~= hitobject_text(self@, version));
                Some(s)
            },
            HitObjectParams::Slider(sp) => {
                let mut ct: Vec<char> = Vec::new();
                ct.push(
                    match sp.curve_type {
                        CurveType::Bezier => 'B',
                        CurveType::Centripetal => 'C',
                        CurveType::Linear => 'L',
                        CurveType::PerfectCircle => 'P',
                    },
                );
                props.push(ct);
                assert(vv(props@) =~= common.push(seq![sp.curve_type.letter()]));
                let head = join_chars(&props, ",");
                let tail_props = self.slider_tail_exec(sp, version);
                let tail = join_chars(&tail_props, ",");
                let mut s = head;
                if version == 3 || sp.curve_points.len() > 0 {
                    s.push('|');
                } else {
                    s.push(',');
                }
                push_chars(&mut s, tail.as_slice());
                assert(s@ =~= hitobject_text(self@, version));
                Some(s)
            },
        }
    }
}

/// The `[HitObjects]` section: one hitobject per line.
#[derive(Clone, Debug, Hash, PartialEq, Eq)]
pub struct HitObjects(pub Vec<HitObject>);

impl View for HitObjects {
    type V = Seq<HitObjectView>;

    open spec fn view(&self) -> Seq<HitObjectView> {
        views(self.0@)
    }
}

/// Reads the non-blank lines from index `from` on, each as a hitobject; the
/// error carries the index of the line that failed.
pub open spec fn hitobject_lines_parse(ls: Seq<Seq<char>>, version: Version) -> Result<Seq<HitObjectView>, Error<ParseError>>
    decreases ls.len(),
{
    if ls.len() == 0 {
        Ok(Seq::empty())
    } else {
        match hitobject_lines_parse(ls.drop_last(), version) {
            Err(e) => Err(e),
            Ok(prev) => if trim(ls.last()).len() == 0 {
                Ok(prev)
            } else {
                match hitobject_parse(ls.last(), version) {
                    Ok(h) => Ok(prev.push(h)),
                    Err(e) => Err(Error { line_index: (ls.len() - 1) as usize, error: ParseError(e) }),
                }
            },
        }
    }
}

proof fn lemma_lines_parse_err(ls: Seq<Seq<char>>, k: int, version: Version)
    requires
        0 <= k <= ls.len(),
        hitobject_lines_parse(ls.take(k), version) is Err,
    ensures
        hitobject_lines_parse(ls, version) == hitobject_lines_parse(ls.take(k), version),
    decreases ls.len() - k,
{
    if k < ls.len() {
        assert(ls.take(k + 1).drop_last() == ls.take(k));
        lemma_lines_parse_err(ls, k + 1, version);
    } else {
        assert(ls.take(k) == ls);
    }
}

impl VersionedFromStr for HitObjects {
    type Err = Error<ParseError>;

    open spec fn parse_text(s: Seq<char>, version: Version) -> Result<Option<Seq<HitObjectView>>, Error<ParseError>> {
        match hitobject_lines_parse(lines(s), version) {
            Ok(v) => Ok(Some(v)),
            Err(e) => Err(e),
        }
    }

    fn from_chars(s: &[char], version: Version) -> (r: Result<Option<HitObjects>, Error<ParseError>>) {
        let ls = lines_of(s);
        let mut objs: Vec<HitObject> = Vec::new();
        let mut i: usize = 0;
        assert(vv(ls@).take(0) =~= Seq::<Seq<char>>::empty());
        assert(views(objs@) =~= Seq::<HitObjectView>::empty());
        while i < ls.len()
            invariant
                i <= ls.len(),
                vv(ls@) == lines(s@),
                hitobject_lines_parse(vv(ls@).take(i as int), version) == Ok::<
                    Seq<HitObjectView>,
                    Error<ParseError>,
                >(views(objs@)),
            decreases ls.len() - i,
        {
            let ghost pre = vv(ls@).take(i as int);
            assert(vv(ls@).take(i + 1).drop_last() == pre);
            assert(vv(ls@).take(i + 1).last() == ls@[i as int]@);
            if !is_blank(ls[i].as_slice()) {
                match HitObject::from_chars(ls[i].as_slice(), version) {
                    Ok(Some(h)) => {
                        let ghost before = objs@;
                        objs.push(h);
                        assert(views(objs@) =~= views(before).push(h@));
                    },
                    Ok(None) => {
                        assert(false);
                    },
                    Err(e) => {
                        proof {
                            assert(hitobject_parse(ls@[i as int]@, version) == Err::<
                                HitObjectView,
                                ParseHitObjectError,
                            >(e));
                            assert(hitobject_lines_parse(vv(ls@).take(i + 1), version) == Err::<
                                Seq<HitObjectView>,
                                Error<ParseError>,
                            >(Error { line_index: i, error: ParseError(e) }));
                            lemma_lines_parse_err(vv(ls@), i + 1, version);
                        }
                        let err = Error { line_index: i, error: ParseError(e) };
                        assert(hitobject_lines_parse(lines(s@), version) == Err::<
                            Seq<HitObjectView>,
                            Error<ParseError>,
                        >(err));
                        return Err(err);
                    },
                }
            }
            i = i + 1;
        }
        assert(vv(ls@).take(ls@.len() as int) == vv(ls@));
        Ok(Some(HitObjects(objs)))
    }
}

impl VersionedToString for HitObjects {
    open spec fn text_of(v: Seq<HitObjectView>, version: Version) -> Option<Seq<char>> {
        Some(join(vtexts::<HitObject>(v, version), seq!['\n']))
    }

    fn to_chars(&self, version: Version) -> (r: Option<Vec<char>>) {
        let mut ls: Vec<Vec<char>> = Vec::new();
        let mut i: usize = 0;
        while i < self.0.len()
            invariant
                i <= self.0.len(),
                ls@.len() == i,
                vv(ls@) == vtexts::<HitObject>(views(self.0@), version).take(i as int),
            decreases self.0.len() - i,
        {
            let t = self.0[i].to_chars(version).unwrap();
            assert(vtexts::<HitObject>(views(self.0@), version)[i as int] == t@);
            let ghost before = ls@;
            ls.push(t);
            assert(ls@ == before.push(t));
            assert forall|j: int| 0 <= j < i + 1 implies #[trigger] vv(ls@)[j] == vtexts::<
                HitObject,
            >(views(self.0@), version).take(i + 1)[j] by {
                if j < i {
                    assert(vv(ls@)[j] == ls@[j]@);
                    assert(ls@[j] == before[j]);
                    assert(vv(before)[j] == vtexts::<HitObject>(views(self.0@), version).take(
                        i as int,
                    )[j]);
                }
            }
            assert(vv(ls@) =~= vtexts::<HitObject>(views(self.0@), version).take(i + 1));
            i = i + 1;
        }
        assert(vtexts::<HitObject>(views(self.0@), version).take(self.0@.len() as int)
            =~= vtexts::<HitObject>(views(self.0@), version));
        let s = join_chars(&ls, "\n");
        proof {
            reveal_strlit("\n");
            assert("\n"@ =~= seq!['\n']);
        }
        Some(s)
    }
}

impl HitObjects {
    /// The section in `version`: always present, with no hitobjects.
    pub fn default(version: Version) -> (r: Option<HitObjects>)
        ensures
            r matches Some(h) && h@.len() == 0,
    {
        let h = HitObjects(Vec::new());
        assert(h@ =~= Seq::<HitObjectView>::empty());
        Some(h)
    }
}

} // verus!
