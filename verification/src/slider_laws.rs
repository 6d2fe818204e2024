//! The law of sliders: reading a written slider gives it back.
use vstd::prelude::*;

use crate::helper::parse_parts;
use crate::hitobjects::types::{
    curve_type_name, curve_type_parse, CurvePoint, CurveType, EdgeSet, HitSampleView, HitSound, HitSoundFlags,
};
use crate::hitobjects::{
    common_fields, curve_parse, hitobject_text, hs_text, opt_seq, pipe_list_items, slider_parse,
    slider_tail_fields, vtexts, HitObjectParamsView, HitObjectView, SlideParamsView,
};
use crate::hitobjects::error::ParseHitObjectError;
use crate::decimal::reads_back;
use crate::text::{int_text, join, lemma_parse_int_text, split};
use crate::hitobjects::rest_from;
use crate::types::{Version, VersionedFromStr, VersionedToString};

verus! {

/// A text made of an integer, `:` and an integer holds neither `|` nor `,`.
#[verifier::rlimit(40)]
#[verifier::spinoff_prover]
proof fn lemma_pair_text_plain(a: int, b: int, c: char)
    requires
        c != '-',
        c != ':',
        !crate::text::is_digit(c),
    ensures
        !(int_text(a) + seq![':'] + int_text(b)).contains(c),
{
    crate::laws::lemma_int_text_plain(a, c);
    crate::laws::lemma_int_text_plain(b, c);
    assert(!seq![':'].contains(c)) by {
        if seq![':'].contains(c) {
            let i = choose|i: int| 0 <= i < 1 && seq![':'][i] == c;
            assert(seq![':'][i] == ':');
        }
    }
    crate::laws::lemma_concat_lacks(int_text(a), seq![':'], c);
    crate::laws::lemma_concat_lacks(int_text(a) + seq![':'], int_text(b), c);
}

/// Reading the texts of values, each of which reads back, gives the values.
#[verifier::rlimit(40)]
#[verifier::spinoff_prover]
pub proof fn lemma_parse_texts<T: VersionedFromStr + VersionedToString>(vs: Seq<<T as View>::V>, version: Version)
    requires
        forall|i: int| 0 <= i < vs.len() ==> T::text_of(#[trigger] vs[i], version) is Some
            && T::parse_text(T::text_of(vs[i], version).unwrap(), version) == Ok::<
                Option<<T as View>::V>,
                <T as VersionedFromStr>::Err,
            >(Some(vs[i])),
    ensures
        parse_parts::<T>(vtexts::<T>(vs, version), version) == Ok::<
            Seq<<T as View>::V>,
            crate::helper::PipeVecParseErrView<<T as VersionedFromStr>::Err>,
        >(vs),
    decreases vs.len(),
{
    let ts = vtexts::<T>(vs, version);
    if vs.len() == 0 {
        assert(ts.len() == 0);
        assert(vs =~= Seq::<<T as View>::V>::empty());
    } else {
        let init = vs.drop_last();
        assert forall|i: int| 0 <= i < init.len() implies T::text_of(#[trigger] init[i], version) is Some
            && T::parse_text(T::text_of(init[i], version).unwrap(), version) == Ok::<
                Option<<T as View>::V>,
                <T as VersionedFromStr>::Err,
            >(Some(init[i])) by {
            assert(init[i] == vs[i]);
        }
        lemma_parse_texts::<T>(init, version);
        assert(ts.drop_last() =~= vtexts::<T>(init, version));
        assert(ts.last() == T::text_of(vs.last(), version).unwrap());
        assert(vs.last() == vs[vs.len() - 1]);
        assert(init.push(vs.last()) =~= vs);
    }
}

/// The items of a `|`-separated list of texts without `|`, the first of
/// which does not start with `|`, are the texts.
#[verifier::rlimit(40)]
#[verifier::spinoff_prover]
pub proof fn lemma_pipe_items(ts: Seq<Seq<char>>)
    requires
        forall|i: int| 0 <= i < ts.len() ==> !(#[trigger] ts[i]).contains('|'),
        ts.len() > 0 ==> ts[0].len() > 0,
    ensures
        pipe_list_items(join(ts, seq!['|'])) == ts,
        !join(ts, seq!['|']).contains(',') <== (forall|i: int| 0 <= i < ts.len() ==> !(#[trigger] ts[i]).contains(',')),
{
    let j = join(ts, seq!['|']);
    if ts.len() == 0 {
        assert(j.len() == 0);
    } else {
        crate::laws::lemma_join_first_sep(ts, seq!['|']);
        crate::text::lemma_split_join(ts, '|');
        assert(j.take(ts[0].len() as int)[0] == j[0]);
        assert(ts[0][0] != '|') by {
            if ts[0][0] == '|' {
                assert(ts[0].contains('|'));
            }
        }
    }
    if forall|i: int| 0 <= i < ts.len() ==> !(#[trigger] ts[i]).contains(',') {
        assert(!seq!['|'].contains(',')) by {
            if seq!['|'].contains(',') {
                let i = choose|i: int| 0 <= i < 1 && seq!['|'][i] == ',';
                assert(seq!['|'][i] == '|');
            }
        }
        if ts.len() > 0 {
            crate::laws::lemma_join_lacks(ts, seq!['|'], ',');
        }
    }
}

/// The curve points of a slider read back from their `|`-separated texts.
#[verifier::rlimit(40)]
#[verifier::spinoff_prover]
pub proof fn lemma_points_read(pts: Seq<CurvePoint>, version: Version)
    ensures
        parse_parts::<CurvePoint>(pipe_list_items(join(vtexts::<CurvePoint>(pts, version), seq!['|'])), version)
            == Ok::<Seq<CurvePoint>, crate::helper::PipeVecParseErrView<crate::hitobjects::error::ColonSetParseError>>(pts),
        !join(vtexts::<CurvePoint>(pts, version), seq!['|']).contains(','),
        pts.len() > 0 ==> join(vtexts::<CurvePoint>(pts, version), seq!['|']).len() > 0,
{
    let ts = vtexts::<CurvePoint>(pts, version);
    assert forall|i: int| 0 <= i < ts.len() implies !(#[trigger] ts[i]).contains('|') && !ts[i].contains(',') by {
        lemma_pair_text_plain(pts[i].0.x as int, pts[i].0.y as int, '|');
        lemma_pair_text_plain(pts[i].0.x as int, pts[i].0.y as int, ',');
    }
    if pts.len() > 0 {
        crate::laws::lemma_int_text_first(pts[0].0.x as int);
        assert(ts[0].len() > 0);
        crate::laws::lemma_join_first_sep(ts, seq!['|']);
    }
    lemma_pipe_items(ts);
    assert forall|i: int| 0 <= i < pts.len() implies CurvePoint::text_of(#[trigger] pts[i], version) is Some
        && CurvePoint::parse_text(CurvePoint::text_of(pts[i], version).unwrap(), version) == Ok::<
            Option<CurvePoint>,
            crate::hitobjects::error::ColonSetParseError,
        >(Some(pts[i])) by {
        crate::laws::law_curve_point_round_trip(pts[i], version);
    }
    lemma_parse_texts::<CurvePoint>(pts, version);
}

/// The edge sounds of a slider read back from their `|`-separated texts.
#[verifier::rlimit(40)]
#[verifier::spinoff_prover]
pub proof fn lemma_sounds_read(ss: Seq<HitSoundFlags>, version: Version)
    ensures
        parse_parts::<HitSound>(pipe_list_items(join(vtexts::<HitSound>(ss, version), seq!['|'])), version)
            == Ok::<Seq<HitSoundFlags>, crate::helper::PipeVecParseErrView<crate::hitobjects::error::ParseHitSoundError>>(ss),
        !join(vtexts::<HitSound>(ss, version), seq!['|']).contains(','),
{
    let ts = vtexts::<HitSound>(ss, version);
    assert forall|i: int| 0 <= i < ts.len() implies !(#[trigger] ts[i]).contains('|') && !ts[i].contains(',') by {
        crate::laws::lemma_int_text_plain(crate::hitobjects::types::hitsound_mask(ss[i]) as int, '|');
        crate::laws::lemma_int_text_plain(crate::hitobjects::types::hitsound_mask(ss[i]) as int, ',');
    }
    if ss.len() > 0 {
        crate::text::lemma_nat_text_digits(crate::hitobjects::types::hitsound_mask(ss[0]));
    }
    lemma_pipe_items(ts);
    assert forall|i: int| 0 <= i < ss.len() implies HitSound::text_of(#[trigger] ss[i], version) is Some
        && HitSound::parse_text(HitSound::text_of(ss[i], version).unwrap(), version) == Ok::<
            Option<HitSoundFlags>,
            crate::hitobjects::error::ParseHitSoundError,
        >(Some(ss[i])) by {
        crate::laws::law_hitsound_round_trip(ss[i], version);
    }
    lemma_parse_texts::<HitSound>(ss, version);
}

/// The edge sets of a slider read back from their `|`-separated texts.
#[verifier::rlimit(40)]
#[verifier::spinoff_prover]
pub proof fn lemma_sets_read(es: Seq<EdgeSet>, version: Version)
    ensures
        parse_parts::<EdgeSet>(pipe_list_items(join(vtexts::<EdgeSet>(es, version), seq!['|'])), version)
            == Ok::<Seq<EdgeSet>, crate::helper::PipeVecParseErrView<crate::hitobjects::error::ColonSetParseError>>(es),
        !join(vtexts::<EdgeSet>(es, version), seq!['|']).contains(','),
{
    let ts = vtexts::<EdgeSet>(es, version);
    assert forall|i: int| 0 <= i < ts.len() implies !(#[trigger] ts[i]).contains('|') && !ts[i].contains(',') by {
        lemma_pair_text_plain(es[i].normal_set.number() as int, es[i].addition_set.number() as int, '|');
        lemma_pair_text_plain(es[i].normal_set.number() as int, es[i].addition_set.number() as int, ',');
    }
    if es.len() > 0 {
        crate::text::lemma_nat_text_digits(es[0].normal_set.number());
    }
    lemma_pipe_items(ts);
    assert forall|i: int| 0 <= i < es.len() implies EdgeSet::text_of(#[trigger] es[i], version) is Some
        && EdgeSet::parse_text(EdgeSet::text_of(es[i], version).unwrap(), version) == Ok::<
            Option<EdgeSet>,
            crate::hitobjects::error::ColonSetParseError,
        >(Some(es[i])) by {
        crate::laws::law_edge_set_round_trip(es[i], version);
    }
    lemma_parse_texts::<EdgeSet>(es, version);
}


/// Joining two non-empty lists of parts is joining their joins.
#[verifier::rlimit(40)]
#[verifier::spinoff_prover]
pub proof fn lemma_join_concat(a: Seq<Seq<char>>, b: Seq<Seq<char>>, sep: Seq<char>)
    requires
        a.len() >= 1,
        b.len() >= 1,
    ensures
        join(a + b, sep) == join(a, sep) + sep + join(b, sep),
    decreases b.len(),
{
    if b.len() == 1 {
        assert((a + b).drop_last() =~= a);
        assert((a + b).last() == b[0]);
        assert(join(b, sep) == b[0]);
    } else {
        lemma_join_concat(a, b.drop_last(), sep);
        assert((a + b).drop_last() =~= a + b.drop_last());
        assert((a + b).last() == b.last());
        assert(join(b, sep) == join(b.drop_last(), sep) + sep + b.last());
        assert(join(a + b, sep) =~= join(a, sep) + sep + join(b, sep));
    }
}

/// Whether a written slider reads back: its length reads back from its text
/// (whose text then holds no comma), and its edge sounds and edge sets are
/// marked as written out exactly where the text has them (they are written
/// where they or anything after them is present or not marked short).
pub open spec fn slider_fits(h: HitObjectView, sp: SlideParamsView) -> bool {
    &&& reads_back(sp.length)
    &&& (sounds_written(h, sp) ==> !sp.edge_sounds_short_hand)
    &&& (sets_written(h, sp) ==> !sp.edge_sets_shorthand)
}

/// Whether the edge sounds of a slider are written.
pub open spec fn sounds_written(h: HitObjectView, sp: SlideParamsView) -> bool {
    sp.edge_sounds.len() > 0 || !sp.edge_sounds_short_hand || sets_written(h, sp)
}

/// Whether the edge sets of a slider are written.
pub open spec fn sets_written(h: HitObjectView, sp: SlideParamsView) -> bool {
    sp.edge_sets.len() > 0 || !sp.edge_sets_shorthand || h.hitsample is Some
}

/// The curve points written for a slider: version 3 writes the slider's
/// position before them, and drops the first point on reading.
pub open spec fn written_points(h: HitObjectView, sp: SlideParamsView, version: Version) -> Seq<CurvePoint> {
    if version == 3 {
        seq![CurvePoint(h.position)] + sp.curve_points
    } else {
        sp.curve_points
    }
}

/// The field of a slider's curve: its type letter, and its written points
/// after `|`.
pub open spec fn curve_field(h: HitObjectView, sp: SlideParamsView, version: Version) -> Seq<char> {
    if written_points(h, sp, version).len() > 0 {
        seq![sp.curve_type.letter()] + seq!['|'] + join(vtexts::<CurvePoint>(written_points(h, sp, version), version), seq!['|'])
    } else {
        seq![sp.curve_type.letter()]
    }
}

/// The fields of a written slider before its hitsample, split at commas.
pub open spec fn slider_fields(h: HitObjectView, sp: SlideParamsView, version: Version) -> Seq<Seq<char>> {
    common_fields(h, version).push(curve_field(h, sp, version)) + seq![int_text(sp.slides as int), sp.length.text()] + (
    if sounds_written(h, sp) {
        seq![join(vtexts::<HitSound>(sp.edge_sounds, version), seq!['|'])]
    } else {
        Seq::empty()
    }) + (if sets_written(h, sp) {
        seq![join(vtexts::<EdgeSet>(sp.edge_sets, version), seq!['|'])]
    } else {
        Seq::empty()
    })
}

/// The text of a written slider is its fields and its hitsample joined by
/// commas.
#[verifier::rlimit(40)]
#[verifier::spinoff_prover]
pub proof fn lemma_slider_text(h: HitObjectView, sp: SlideParamsView, version: Version)
    requires
        h.obj_params == HitObjectParamsView::Slider(sp),
    ensures
        hitobject_text(h, version) == join(slider_fields(h, sp, version) + opt_seq(hs_text(h.hitsample, version)), seq![',']),
{
    reveal(hitobject_text);
    let c = common_fields(h, version);
    let l = seq![sp.curve_type.letter()];
    let pts = join(vtexts::<CurvePoint>(written_points(h, sp, version), version), seq!['|']);
    let tf = slider_tail_fields(h, sp, version);
    let hs = opt_seq(hs_text(h.hitsample, version));
    let f = slider_fields(h, sp, version);
    let rest = f.skip(6) + hs;
    assert(f.len() >= 8);
    crate::laws::lemma_join_push(c, l);
    if version == 3 {
        assert(written_points(h, sp, version).len() > 0);
    }
    if version == 3 || sp.curve_points.len() > 0 {
        let f5 = l + seq!['|'] + pts;
        assert(tf =~= seq![pts] + rest);
        lemma_join_concat(seq![pts], rest, seq![',']);
        assert(join(seq![pts], seq![',']) == pts);
        assert(f + hs =~= c.push(f5) + rest);
        lemma_join_concat(c.push(f5), rest, seq![',']);
        crate::laws::lemma_join_push(c, f5);
        assert(hitobject_text(h, version) =~= join(c, seq![',']) + seq![','] + f5 + seq![','] + join(rest, seq![',']));
    } else {
        assert(tf =~= rest);
        assert(f + hs =~= c.push(l) + rest);
        lemma_join_concat(c.push(l), rest, seq![',']);
    }
}

/// The parts of a written slider's text: its fields, then the parts of its
/// hitsample.
#[verifier::rlimit(40)]
#[verifier::spinoff_prover]
pub proof fn lemma_slider_split(h: HitObjectView, sp: SlideParamsView, version: Version)
    requires
        h.obj_params == HitObjectParamsView::Slider(sp),
        slider_fits(h, sp),
    ensures
        ({
            let p = split(hitobject_text(h, version), ',');
            let f = slider_fields(h, sp, version);
            &&& f.len() >= 8
            &&& p.len() >= f.len()
            &&& (forall|i: int| 0 <= i < f.len() ==> p[i] == #[trigger] f[i])
            &&& (h.hitsample is None ==> p.len() == f.len())
            &&& (hs_text(h.hitsample, version) matches Some(t) ==> p.len() > f.len() && rest_from(p, f.len() as int, ',') == t)
        }),
{
    lemma_slider_text(h, sp, version);
    let f = slider_fields(h, sp, version);
    let hs = hs_text(h.hitsample, version);
    lemma_slider_fields_plain(h, sp, version);
    crate::laws::lemma_fields_then_hitsample(f, hs);
    let p = split(join(f + opt_seq(hs), seq![',']), ',');
    assert forall|i: int| 0 <= i < f.len() implies p[i] == #[trigger] f[i] by {
        assert(p.take(f.len() as int)[i] == p[i]);
    }
    assert(h.hitsample is None ==> hs is None);
}

/// Reading the fields of a written slider after its common fields gives its
/// parameters and hitsample.
#[verifier::rlimit(40)]
#[verifier::spinoff_prover]
pub proof fn lemma_slider_parse(h: HitObjectView, sp: SlideParamsView, version: Version)
    requires
        h.obj_params == HitObjectParamsView::Slider(sp),
        slider_fits(h, sp),
        crate::laws::sample_fits_in(h, version),
    ensures
        ({
            let p = split(hitobject_text(h, version), ',');
            &&& p.len() >= 5
            &&& p.take(5) == common_fields(h, version)
            &&& slider_parse(p, version) == Ok::<(SlideParamsView, Option<HitSampleView>), ParseHitObjectError>((sp, h.hitsample))
        }),
{
    lemma_slider_split(h, sp, version);
    let p = split(hitobject_text(h, version), ',');
    let f = slider_fields(h, sp, version);
    let c = common_fields(h, version);
    let l = seq![sp.curve_type.letter()];
    let f5 = curve_field(h, sp, version);
    let st = int_text(sp.slides as int);
    let lt = sp.length.text();
    let base = c.push(f5) + seq![st, lt];
    assert(f.take(8) =~= base);
    assert(f[5] == base[5] && f[6] == base[6] && f[7] == base[7]);
    assert(p[5] == f5 && p[6] == st && p[7] == lt);
    assert forall|i: int| 0 <= i < 5 implies p.take(5)[i] == c[i] by {
        assert(f[i] == base[i]);
    }
    assert(p.take(5) =~= c);
    let ep = written_points(h, sp, version);
    lemma_curve_read(sp.curve_type, ep, version);
    if version == 3 {
        assert(ep.drop_first() =~= sp.curve_points);
    }
    lemma_parse_int_text(sp.slides as int, i32::MIN as int, i32::MAX as int);
    lemma_sounds_read(sp.edge_sounds, version);
    lemma_sets_read(sp.edge_sets, version);
    match h.hitsample {
        Some(x) => if version >= 10 {
            crate::laws::law_hitsample_round_trip(x, version)
        },
        None => {},
    }
    let sounds = join(vtexts::<HitSound>(sp.edge_sounds, version), seq!['|']);
    let sets = join(vtexts::<EdgeSet>(sp.edge_sets, version), seq!['|']);
    if !sounds_written(h, sp) {
        assert(f =~= base);
        assert(p.len() == 8);
        assert(sp.edge_sounds =~= Seq::<HitSoundFlags>::empty());
        assert(sp.edge_sets =~= Seq::<EdgeSet>::empty());
    } else if !sets_written(h, sp) {
        assert(f =~= base.push(sounds));
        assert(p.len() == 9);
        assert(p[8] == f[8]);
        assert(sp.edge_sets =~= Seq::<EdgeSet>::empty());
    } else {
        assert(f =~= base.push(sounds).push(sets));
        assert(p[8] == f[8] && p[9] == f[9]);
        assert(p.len() >= 10);
        if h.hitsample is None {
            assert(p.len() == 10);
        }
    }
}

/// The letter of a curve type reads as the curve type.
pub proof fn lemma_curve_letter(ct: CurveType)
    ensures
        curve_type_parse(seq![ct.letter()]) == Ok::<Option<CurveType>, crate::hitobjects::error::ParseCurveTypeError>(Some(ct)),
{
    let l = seq![ct.letter()];
    assert(l[0] == ct.letter());
    assert(seq!['B'][0] == 'B' && seq!['C'][0] == 'C' && seq!['L'][0] == 'L' && seq!['P'][0] == 'P');
    assert(l.len() != curve_type_name(CurveType::Bezier).len());
    assert(l.len() != curve_type_name(CurveType::Centripetal).len());
    assert(l.len() != curve_type_name(CurveType::Linear).len());
    assert(l.len() != curve_type_name(CurveType::PerfectCircle).len());
}

/// Reading the curve field of a written slider gives its curve type and the
/// written points, the first of which version 3 drops.
#[verifier::rlimit(40)]
#[verifier::spinoff_prover]
pub proof fn lemma_curve_read(ct: CurveType, pts: Seq<CurvePoint>, version: Version)
    ensures
        curve_parse(
            if pts.len() > 0 {
                seq![ct.letter()] + seq!['|'] + join(vtexts::<CurvePoint>(pts, version), seq!['|'])
            } else {
                seq![ct.letter()]
            },
            version,
        ) == Ok::<(CurveType, Seq<CurvePoint>), ParseHitObjectError>(
            (ct, if version == 3 && pts.len() > 0 { pts.drop_first() } else { pts }),
        ),
{
    let l = seq![ct.letter()];
    let t = join(vtexts::<CurvePoint>(pts, version), seq!['|']);
    lemma_points_read(pts, version);
    lemma_curve_letter(ct);
    if pts.len() > 0 {
        let f5 = l + seq!['|'] + t;
        assert(f5.len() >= 3);
        assert(f5 != seq!['B'] && f5 != seq!['C'] && f5 != seq!['L'] && f5 != seq!['P']);
        assert(f5[1] == '|');
        assert(f5 != curve_type_name(CurveType::Bezier)) by {
            assert(curve_type_name(CurveType::Bezier)[1] != '|');
        }
        assert(f5 != curve_type_name(CurveType::Centripetal)) by {
            assert(curve_type_name(CurveType::Centripetal)[1] != '|');
        }
        assert(f5 != curve_type_name(CurveType::Linear)) by {
            assert(curve_type_name(CurveType::Linear)[1] != '|');
        }
        assert(f5 != curve_type_name(CurveType::PerfectCircle)) by {
            assert(curve_type_name(CurveType::PerfectCircle)[1] != '|');
        }
        assert(curve_type_parse(f5) is Err);
        assert(join(seq![l], seq!['|']) == l);
        assert(!l.contains('|')) by {
            if l.contains('|') {
                let i = choose|i: int| 0 <= i < 1 && l[i] == '|';
                assert(l[i] == ct.letter());
            }
        }
        crate::laws::lemma_split_prefix(seq![l], t, '|');
        let q = seq![l] + split(t, '|');
        assert(split(f5, '|') == q);
        crate::text::lemma_split_len(t, '|');
        assert(q[0] == l);
        assert(q.skip(1) =~= split(t, '|'));
        crate::laws::lemma_join_split(t, '|');
    } else {
        assert(pts =~= Seq::<CurvePoint>::empty());
    }
}


/// No field of a written slider holds a comma.
pub proof fn lemma_slider_fields_plain(h: HitObjectView, sp: SlideParamsView, version: Version)
    requires
        slider_fits(h, sp),
    ensures
        slider_fields(h, sp, version).len() >= 8,
        forall|i: int| 0 <= i < slider_fields(h, sp, version).len() ==> !(#[trigger] slider_fields(h, sp, version)[i]).contains(','),
{
    lemma_slider_fields_lack(h, sp, version, ',');
}

/// No field of a written slider holds a comma or a line break, where its
/// length's text holds none.
#[verifier::rlimit(40)]
#[verifier::spinoff_prover]
pub proof fn lemma_slider_fields_lack(h: HitObjectView, sp: SlideParamsView, version: Version, ch: char)
    requires
        ch == ',' || ch == '\n',
        !sp.length.text().contains(ch),
    ensures
        slider_fields(h, sp, version).len() >= 8,
        forall|i: int| 0 <= i < slider_fields(h, sp, version).len() ==> !(#[trigger] slider_fields(h, sp, version)[i]).contains(ch),
{
    let f = slider_fields(h, sp, version);
    let c = common_fields(h, version);
    let l = seq![sp.curve_type.letter()];
    let ep = written_points(h, sp, version);
    let pt = vtexts::<CurvePoint>(ep, version);
    let so = vtexts::<HitSound>(sp.edge_sounds, version);
    let se = vtexts::<EdgeSet>(sp.edge_sets, version);
    assert forall|i: int| 0 <= i < pt.len() implies !(#[trigger] pt[i]).contains(ch) by {
        lemma_pair_text_plain(ep[i].0.x as int, ep[i].0.y as int, ch);
    }
    assert forall|i: int| 0 <= i < so.len() implies !(#[trigger] so[i]).contains(ch) by {
        crate::laws::lemma_int_text_plain(crate::hitobjects::types::hitsound_mask(sp.edge_sounds[i]) as int, ch);
    }
    assert forall|i: int| 0 <= i < se.len() implies !(#[trigger] se[i]).contains(ch) by {
        lemma_pair_text_plain(sp.edge_sets[i].normal_set.number() as int, sp.edge_sets[i].addition_set.number() as int, ch);
    }
    assert(!seq!['|'].contains(ch)) by {
        if seq!['|'].contains(ch) {
            let i = choose|i: int| 0 <= i < 1 && seq!['|'][i] == ch;
            assert(seq!['|'][i] == '|');
        }
    }
    let pts = join(pt, seq!['|']);
    if pt.len() > 0 {
        crate::laws::lemma_join_lacks(pt, seq!['|'], ch);
    }
    if so.len() > 0 {
        crate::laws::lemma_join_lacks(so, seq!['|'], ch);
    }
    if se.len() > 0 {
        crate::laws::lemma_join_lacks(se, seq!['|'], ch);
    }
    assert(!join(pt, seq!['|']).contains(ch)) by {
        if pt.len() == 0 {
            assert(join(pt, seq!['|']).len() == 0);
        }
    }
    assert(!join(so, seq!['|']).contains(ch)) by {
        if so.len() == 0 {
            assert(join(so, seq!['|']).len() == 0);
        }
    }
    assert(!join(se, seq!['|']).contains(ch)) by {
        if se.len() == 0 {
            assert(join(se, seq!['|']).len() == 0);
        }
    }
    if ch == ',' {
        crate::laws::lemma_common_fields_plain(h, version);
    } else {
        crate::laws::lemma_int_text_plain(h.position.x as int, '\n');
        crate::laws::lemma_int_text_plain(h.position.y as int, '\n');
        crate::laws::lemma_int_text_plain(crate::hitobjects::written_time(h.time, version), '\n');
        crate::laws::lemma_int_text_plain(crate::hitobjects::type_number(h), '\n');
        crate::laws::lemma_int_text_plain(crate::hitobjects::types::hitsound_mask(h.hitsound) as int, '\n');
    }
    crate::laws::lemma_int_text_plain(sp.slides as int, ch);
    assert(!l.contains(ch)) by {
        if l.contains(ch) {
            let i = choose|i: int| 0 <= i < 1 && l[i] == ch;
            assert(l[i] == sp.curve_type.letter());
        }
    }
    if ep.len() > 0 {
        crate::laws::lemma_concat_lacks(l, seq!['|'], ch);
        crate::laws::lemma_concat_lacks(l + seq!['|'], pts, ch);
    }
    assert(!curve_field(h, sp, version).contains(ch));
    assert forall|i: int| 0 <= i < f.len() implies !(#[trigger] f[i]).contains(ch) by {
        if i < 5 {
            assert(f[i] == c[i]);
        }
    }
}

/// A join whose parts do not end with a carriage return does not end with
/// one.
#[verifier::rlimit(40)]
#[verifier::spinoff_prover]
pub proof fn lemma_join_last_not_cr(parts: Seq<Seq<char>>)
    requires
        parts.len() >= 1,
        parts[0].len() > 0,
        forall|i: int| 0 <= i < parts.len() ==> (#[trigger] parts[i]).len() == 0 || parts[i].last() != '\r',
    ensures
        join(parts, seq![',']).len() > 0,
        join(parts, seq![',']).last() != '\r',
    decreases parts.len(),
{
    if parts.len() == 1 {
        assert(join(parts, seq![',']) == parts[0]);
    } else {
        let init = parts.drop_last();
        assert forall|i: int| 0 <= i < init.len() implies (#[trigger] init[i]).len() == 0 || init[i].last() != '\r' by {
            assert(init[i] == parts[i]);
        }
        assert(init[0] == parts[0]);
        lemma_join_last_not_cr(init);
        assert(parts.last() == parts[parts.len() - 1]);
        let j = join(init, seq![',']) + seq![','] + parts.last();
        if parts.last().len() == 0 {
            assert(j.last() == ',');
        } else {
            assert(j.last() == parts.last().last());
        }
    }
}

/// Whether a slider's length keeps its text on one line.
pub open spec fn length_on_line(sp: SlideParamsView) -> bool {
    !sp.length.text().contains('\n') && (sp.length.text().len() == 0 || sp.length.text().last() != '\r')
}

/// The text of a written slider sits on one line and reads as a line that is
/// not blank.
#[verifier::spinoff_prover]
#[verifier::rlimit(60)]
pub proof fn lemma_slider_text_line(h: HitObjectView, sp: SlideParamsView, version: Version)
    requires
        h.obj_params == HitObjectParamsView::Slider(sp),
        slider_fits(h, sp),
        length_on_line(sp),
        crate::laws::sample_fits_in(h, version),
        crate::laws::hitsample_on_line(h),
    ensures
        crate::section_laws::line_fits(hitobject_text(h, version)),
{
    lemma_slider_text(h, sp, version);
    lemma_slider_fields_lack(h, sp, version, '\n');
    let f = slider_fields(h, sp, version);
    let hs = opt_seq(hs_text(h.hitsample, version));
    let all = f + hs;
    let t = hitobject_text(h, version);
    match h.hitsample {
        Some(x) => if version >= 10 {
            crate::laws::lemma_hitsample_text_line(x, version)
        },
        None => {},
    }
    assert forall|i: int| 0 <= i < all.len() implies !(#[trigger] all[i]).contains('\n') by {
        if i < f.len() {
            assert(all[i] == f[i]);
        }
    }
    crate::laws::lemma_comma_no_newline();
    crate::laws::lemma_join_lacks(all, seq![','], '\n');
    let c = common_fields(h, version);
    crate::laws::lemma_int_text_first(h.position.x as int);
    assert(all[0] == f[0] && f[0] == c[0]);
    crate::laws::lemma_join_first(all);
    assert(t.take(all[0].len() as int)[0] == t[0]);
    lemma_lists_end(h, sp, version);
    assert forall|i: int| 0 <= i < all.len() implies (#[trigger] all[i]).len() == 0 || all[i].last() != '\r' by {
        if i < 5 {
            assert(all[i] == c[i]);
            crate::laws::lemma_int_text_end(h.position.x as int);
            crate::laws::lemma_int_text_end(h.position.y as int);
            crate::laws::lemma_int_text_end(crate::hitobjects::written_time(h.time, version));
            crate::laws::lemma_int_text_end(crate::hitobjects::type_number(h));
            crate::laws::lemma_int_text_end(crate::hitobjects::types::hitsound_mask(h.hitsound) as int);
        } else if i == 6 {
            crate::laws::lemma_int_text_end(sp.slides as int);
        } else if i >= f.len() {
            assert(all[i] == hs[i - f.len()]);
        }
    }
    lemma_join_last_not_cr(all);
    crate::laws::lemma_trim_nonempty(t);
}

/// The `|`-separated lists of a slider are empty or end with a digit.
#[verifier::rlimit(40)]
#[verifier::spinoff_prover]
proof fn lemma_lists_end(h: HitObjectView, sp: SlideParamsView, version: Version)
    ensures
        curve_field(h, sp, version).len() > 0 && curve_field(h, sp, version).last() != '\r',
        join(vtexts::<HitSound>(sp.edge_sounds, version), seq!['|']).len() == 0
            || join(vtexts::<HitSound>(sp.edge_sounds, version), seq!['|']).last() != '\r',
        join(vtexts::<EdgeSet>(sp.edge_sets, version), seq!['|']).len() == 0
            || join(vtexts::<EdgeSet>(sp.edge_sets, version), seq!['|']).last() != '\r',
{
    let ep = written_points(h, sp, version);
    let pt = vtexts::<CurvePoint>(ep, version);
    let so = vtexts::<HitSound>(sp.edge_sounds, version);
    let se = vtexts::<EdgeSet>(sp.edge_sets, version);
    if pt.len() > 0 {
        let p = ep.last();
        assert(pt.last() == int_text(p.0.x as int) + seq![':'] + int_text(p.0.y as int));
        crate::laws::lemma_int_text_end(p.0.y as int);
        assert(pt.last().last() == int_text(p.0.y as int).last());
        crate::laws::lemma_join_last(pt, seq!['|']);
        let t = join(pt, seq!['|']);
        assert(curve_field(h, sp, version).last() == t.last());
    }
    if so.len() > 0 {
        crate::laws::lemma_int_text_end(crate::hitobjects::types::hitsound_mask(sp.edge_sounds.last()) as int);
        assert(so.last() == int_text(crate::hitobjects::types::hitsound_mask(sp.edge_sounds.last()) as int));
        crate::laws::lemma_join_last(so, seq!['|']);
    }
    if se.len() > 0 {
        let e = sp.edge_sets.last();
        crate::laws::lemma_int_text_end(e.addition_set.number() as int);
        assert(se.last() == int_text(e.normal_set.number() as int) + seq![':'] + int_text(e.addition_set.number() as int));
        assert(se.last().last() == int_text(e.addition_set.number() as int).last());
        crate::laws::lemma_join_last(se, seq!['|']);
    }
}

} // verus!
