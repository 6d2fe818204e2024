//! Laws of storyboard commands: reading a written command line gives the
//! command back.
use vstd::prelude::*;

use crate::decimal::{parse_decimal_spec, reads_back, Decimal};
use crate::events::storyboard::cmds::{
    body_parse, command_kind, command_parse, command_stuck, command_text, decimal_texts, end_text,
    head_fields, head_parse, indent_len, kind_tag, pair_texts, pairs_complete_but_last, pairs_of,
    pairs_stuck, parameter_texts, parse_bytes, parse_decimals, parse_parameters, single_properties,
    colour_set_error, colours_error_from, pushed_colours, pushed_pairs, trigger_parse, trigger_tail, triple_texts, triples_of, ColoursView, CommandKind, CommandPropertiesView,
    CommandView, ContinuingFieldsView, ParseCommandError,
};
use crate::events::storyboard::types::{
    bare_hitsound, failing_word, field_start, fill_slots, first_slot, hitsound_fields, hitsound_word,
    passing_word, set_slot, slot_accepts, trigger_type_parse, trigger_type_stuck, trigger_type_text,
    opt_addition_name, opt_number_text, opt_sample_set_name, Addition, Easing, Parameter,
    ParseTriggerTypeError, SampleSet, TriggerType,
};
use crate::hitobjects::i32_field;
use crate::laws::{lemma_int_text_first, lemma_int_text_plain, lemma_trim_nonempty};
use crate::text::{
    int_text, join, lemma_parse_int_text, lemma_split_join, parse_int_spec, split, trim,
    IntErrorKind,
};

verus! {

/// Whether an easing is read back from its number: a number past the named
/// easings is read as `Other` only where it is past them and fits 32 bits.
pub open spec fn easing_fits(e: Easing) -> bool {
    e matches Easing::Other(v) ==> 34 < v <= u32::MAX
}

/// Whether every decimal of a list is read back from its text.
pub open spec fn decimals_fit(d: Seq<Decimal>) -> bool {
    forall|i: int| 0 <= i < d.len() ==> reads_back(#[trigger] d[i])
}

/// Parts that hold no comma, joined by commas, split back into them; the text
/// starts with the first part and a comma.
proof fn lemma_parts_line(parts: Seq<Seq<char>>)
    requires
        parts.len() >= 2,
        forall|i: int| 0 <= i < parts.len() ==> !(#[trigger] parts[i]).contains(','),
    ensures
        split(join(parts, seq![',']), ',') == parts,
        join(parts, seq![',']).len() > parts[0].len(),
        join(parts, seq![','])[parts[0].len() as int] == ',',
        forall|i: int| 0 <= i < parts[0].len() ==> join(parts, seq![','])[i] == parts[0][i],
{
    lemma_split_join(parts, ',');
    crate::event_laws::lemma_line_head(parts);
}

/// The texts of decimals that read back hold no comma and read back as the
/// decimals.
#[verifier::rlimit(40)]
#[verifier::spinoff_prover]
proof fn lemma_decimals_read(d: Seq<Decimal>)
    requires
        decimals_fit(d),
    ensures
        parse_decimals(decimal_texts(d)) == Some(d),
        forall|i: int| 0 <= i < d.len() ==> !(#[trigger] decimal_texts(d)[i]).contains(','),
        forall|i: int| 0 <= i < d.len() ==> parse_decimal_spec(#[trigger] decimal_texts(d)[i]) is Some,
    decreases d.len(),
{
    let q = decimal_texts(d);
    assert forall|i: int| 0 <= i < d.len() implies !(#[trigger] decimal_texts(d)[i]).contains(',')
        && parse_decimal_spec(decimal_texts(d)[i]) is Some by {
        assert(reads_back(d[i]));
    }
    if d.len() > 0 {
        let init = d.drop_last();
        assert forall|i: int| 0 <= i < init.len() implies reads_back(#[trigger] init[i]) by {
            assert(init[i] == d[i]);
        }
        lemma_decimals_read(init);
        assert(q.drop_last() =~= decimal_texts(init));
        assert(reads_back(d[d.len() - 1]));
        assert(init.push(d.last()) =~= d);
    } else {
        assert(q.len() == 0);
        assert(d =~= Seq::<Decimal>::empty());
    }
}

/// The head of a command holds no comma.
proof fn lemma_head_plain(tag: Seq<char>, easing: Easing, st: i32, et: Option<i32>)
    requires
        !tag.contains(','),
    ensures
        forall|i: int| 0 <= i < 4 ==> !(#[trigger] head_fields(tag, easing, st, et)[i]).contains(','),
{
    lemma_int_text_plain(easing.number() as int, ',');
    lemma_int_text_plain(st as int, ',');
    match et {
        Some(t) => lemma_int_text_plain(t as int, ','),
        None => {},
    }
}

/// The easing, start time and end time of a written head read back.
#[verifier::rlimit(40)]
#[verifier::spinoff_prover]
proof fn lemma_head_parse(p: Seq<Seq<char>>, easing: Easing, st: i32, et: Option<i32>)
    requires
        p.len() >= 4,
        p[1] == int_text(easing.number() as int),
        p[2] == int_text(st as int),
        p[3] == end_text(et),
        easing_fits(easing),
    ensures
        head_parse(p) == Ok::<(Easing, i32, Option<i32>), ParseCommandError>((easing, st, et)),
{
    lemma_parse_int_text(easing.number() as int, 0, u32::MAX as int);
    crate::laws::law_easing_number_round_trip(easing);
    lemma_parse_int_text(st as int, i32::MIN as int, i32::MAX as int);
    match et {
        Some(t) => {
            lemma_int_text_first(t as int);
            lemma_trim_nonempty(int_text(t as int));
            lemma_parse_int_text(t as int, i32::MIN as int, i32::MAX as int);
        },
        None => {
            assert(trim(Seq::<char>::empty()).len() == 0);
        },
    }
}

/// Whether a kind of command holds one decimal followed by more.
pub open spec fn is_single(k: CommandKind) -> bool {
    k is Fade || k is MoveX || k is MoveY || k is Scale || k is Rotate
}

/// Reading a written command of one decimal followed by more gives it back.
#[verifier::rlimit(40)]
#[verifier::spinoff_prover]
proof fn lemma_single_round_trip(k: CommandKind, st: i32, easing: Easing, et: Option<i32>, start: Decimal, rest: Seq<Decimal>)
    requires
        is_single(k),
        easing_fits(easing),
        reads_back(start),
        decimals_fit(rest),
    ensures
        ({
            let c = CommandView { start_time: st, properties: single_properties(k, easing, et, start, rest) };
            &&& !command_stuck(command_text(c))
            &&& command_parse(command_text(c)) == Ok::<CommandView, ParseCommandError>(c)
            &&& command_text(c).len() > 0
            &&& 'A' <= command_text(c)[0] <= 'Z'
        }),
{
    let c = CommandView { start_time: st, properties: single_properties(k, easing, et, start, rest) };
    let tag = kind_tag(k);
    let head = head_fields(tag, easing, st, et);
    let parts = head.push(start.text()) + decimal_texts(rest);
    assert(command_text(c) == join(parts, seq![',']));
    assert(!tag.contains(',')) by {
        if tag.contains(',') {
            let i = choose|i: int| 0 <= i < tag.len() && tag[i] == ',';
        }
    }
    lemma_head_plain(tag, easing, st, et);
    lemma_decimals_read(rest);
    assert forall|i: int| 0 <= i < parts.len() implies !(#[trigger] parts[i]).contains(',') by {
        if i < 4 {
            assert(parts[i] == head[i]);
        } else if i == 4 {
        } else {
            assert(parts[i] == decimal_texts(rest)[i - 5]);
        }
    }
    lemma_parts_line(parts);
    let t = command_text(c);
    assert(t[0] == tag[0]);
    assert(indent_len(t) == 0);
    assert(t.skip(0) =~= t);
    assert(command_kind(t) == Some(k));
    lemma_head_parse(parts, easing, st, et);
    assert(parts.skip(5) =~= decimal_texts(rest));
    assert(parts[4] == start.text());
    assert(body_parse(k, parts, easing, et) == Ok::<CommandPropertiesView, ParseCommandError>(c.properties));
    reveal(command_parse);
}

/// The values of continuing pairs in the order they are written.
pub open spec fn pair_values<T>(c: Seq<(T, Option<T>)>) -> Seq<T>
    decreases c.len(),
{
    if c.len() == 0 {
        Seq::empty()
    } else {
        pair_values(c.drop_last()).push(c.last().0) + match c.last().1 {
            Some(y) => seq![y],
            None => Seq::empty(),
        }
    }
}

/// The texts of continuing pairs are those of their values.
proof fn lemma_pair_texts(c: Seq<(Decimal, Option<Decimal>)>)
    ensures
        pair_texts(c) == decimal_texts(pair_values(c)),
    decreases c.len(),
{
    if c.len() > 0 {
        lemma_pair_texts(c.drop_last());
        assert(pair_texts(c) =~= decimal_texts(pair_values(c)));
    } else {
        assert(pair_texts(c) =~= decimal_texts(pair_values(c)));
    }
}

/// Pairs of which only the last may lack its second value are taken back
/// two at a time from their values.
#[verifier::rlimit(40)]
#[verifier::spinoff_prover]
proof fn lemma_pairs_of_values<T>(c: Seq<(T, Option<T>)>)
    requires
        pairs_complete_but_last(c),
    ensures
        pair_values(c).len() == 2 * c.len() - (if c.len() > 0 && c.last().1 is None { 1int } else { 0int }),
        forall|i: int| 0 <= i < c.len() ==> #[trigger] pair_values(c)[2 * i] == c[i].0,
        forall|i: int| 0 <= i < c.len() && c[i].1 is Some ==> #[trigger] pair_values(c)[2 * i + 1] == c[i].1.unwrap(),
        pairs_of(pair_values(c)) == c,
    decreases c.len(),
{
    let v = pair_values(c);
    if c.len() > 0 {
        let init = c.drop_last();
        assert forall|i: int| 0 <= i < init.len() - 1 implies (#[trigger] init[i]).1 is Some by {
            assert(init[i] == c[i]);
        }
        lemma_pairs_of_values(init);
        let w = pair_values(init);
        let n = c.len() - 1;
        if n > 0 {
            assert(init.last() == c[n - 1]);
            assert(c[n - 1].1 is Some);
        }
        assert(w.len() == 2 * n);
        assert forall|i: int| 0 <= i < c.len() implies #[trigger] v[2 * i] == c[i].0 by {
            if i < n {
                assert(v[2 * i] == w[2 * i]);
                assert(init[i] == c[i]);
            }
        }
        assert forall|i: int| 0 <= i < c.len() && c[i].1 is Some implies #[trigger] v[2 * i + 1] == c[i].1.unwrap() by {
            if i < n {
                assert(v[2 * i + 1] == w[2 * i + 1]);
                assert(init[i] == c[i]);
            }
        }
        let q = pairs_of(v);
        assert(q.len() == c.len());
        assert forall|i: int| 0 <= i < c.len() implies #[trigger] q[i] == c[i] by {
            if i < n {
                assert(c[i].1 is Some);
            }
        }
        assert(q =~= c);
    } else {
        assert(v.len() == 0);
        assert(pairs_of(v) =~= c);
    }
}

/// Reading a written move or vector scale gives it back.
#[verifier::rlimit(40)]
#[verifier::spinoff_prover]
proof fn lemma_pair_round_trip(k: CommandKind, st: i32, easing: Easing, et: Option<i32>, f: ContinuingFieldsView<Decimal>)
    requires
        k is Move || k is VectorScale,
        easing_fits(easing),
        reads_back(f.start.0),
        reads_back(f.start.1),
        pairs_complete_but_last(f.continuing),
        decimals_fit(pair_values(f.continuing)),
    ensures
        ({
            let c = CommandView {
                start_time: st,
                properties: if k is Move {
                    CommandPropertiesView::Move { easing, end_time: et, positions_xy: f }
                } else {
                    CommandPropertiesView::VectorScale { easing, end_time: et, scales_xy: f }
                },
            };
            &&& !command_stuck(command_text(c))
            &&& command_parse(command_text(c)) == Ok::<CommandView, ParseCommandError>(c)
            &&& command_text(c).len() > 0
            &&& 'A' <= command_text(c)[0] <= 'Z'
        }),
{
    let c = CommandView {
        start_time: st,
        properties: if k is Move {
            CommandPropertiesView::Move { easing, end_time: et, positions_xy: f }
        } else {
            CommandPropertiesView::VectorScale { easing, end_time: et, scales_xy: f }
        },
    };
    let tag = kind_tag(k);
    let head = head_fields(tag, easing, st, et);
    let vals = pair_values(f.continuing);
    lemma_pair_texts(f.continuing);
    let parts = head.push(f.start.0.text()).push(f.start.1.text()) + decimal_texts(vals);
    assert(command_text(c) == join(parts, seq![',']));
    assert(!tag.contains(',')) by {
        if tag.contains(',') {
            let i = choose|i: int| 0 <= i < tag.len() && tag[i] == ',';
        }
    }
    lemma_head_plain(tag, easing, st, et);
    lemma_decimals_read(vals);
    assert forall|i: int| 0 <= i < parts.len() implies !(#[trigger] parts[i]).contains(',') by {
        if i < 4 {
            assert(parts[i] == head[i]);
        } else if i >= 6 {
            assert(parts[i] == decimal_texts(vals)[i - 6]);
        }
    }
    lemma_parts_line(parts);
    let t = command_text(c);
    assert(t[0] == tag[0]);
    assert(indent_len(t) == 0);
    assert(t.skip(0) =~= t);
    assert(command_kind(t) == Some(k));
    lemma_head_parse(parts, easing, st, et);
    let q = parts.skip(6);
    assert(q =~= decimal_texts(vals));
    lemma_pairs_of_values(f.continuing);
    assert(!pairs_stuck(q)) by {
        if pairs_stuck(q) {
            let i = choose|i: int| 0 <= i < q.len() && i % 2 == 1 && #[trigger] parse_decimals(q.take(i)) is Some
                && parse_decimal_spec(q[i]) is None;
            assert(parse_decimal_spec(decimal_texts(vals)[i]) is Some);
        }
    }
    assert(parts[4] == f.start.0.text());
    assert(parts[5] == f.start.1.text());
    assert(body_parse(k, parts, easing, et) == Ok::<CommandPropertiesView, ParseCommandError>(c.properties));
    reveal(command_parse);
}

/// Whether only the last continuing colour lacks its green or blue, and a
/// blue comes only with a green.
pub open spec fn colours_complete_but_last(c: Seq<(u8, Option<u8>, Option<u8>)>) -> bool {
    &&& forall|i: int| 0 <= i < c.len() - 1 ==> (#[trigger] c[i]).1 is Some && c[i].2 is Some
    &&& forall|i: int| 0 <= i < c.len() ==> ((#[trigger] c[i]).1 is None ==> c[i].2 is None)
}

/// Colours without an error from index `i` on are complete there but for the
/// last.
proof fn lemma_colours_valid(c: Seq<(u8, Option<u8>, Option<u8>)>, i: int)
    requires
        0 <= i <= c.len(),
        colours_error_from(c, i) is None,
    ensures
        forall|j: int| i <= j < c.len() - 1 ==> (#[trigger] c[j]).1 is Some && c[j].2 is Some,
        forall|j: int| i <= j < c.len() ==> ((#[trigger] c[j]).1 is None ==> c[j].2 is None),
    decreases c.len() - i,
{
    if i < c.len() {
        lemma_colours_valid(c, i + 1);
    }
}

/// The values of continuing colours in the order they are written.
pub open spec fn triple_values(c: Seq<(u8, Option<u8>, Option<u8>)>) -> Seq<u8>
    decreases c.len(),
{
    if c.len() == 0 {
        Seq::empty()
    } else {
        triple_values(c.drop_last()).push(c.last().0) + (match c.last().1 {
            Some(g) => seq![g],
            None => Seq::empty(),
        }) + (match c.last().2 {
            Some(b) => seq![b],
            None => Seq::empty(),
        })
    }
}

/// The texts of bytes.
pub open spec fn byte_texts(d: Seq<u8>) -> Seq<Seq<char>> {
    d.map_values(|x: u8| int_text(x as int))
}

/// The texts of continuing colours are those of their values.
proof fn lemma_triple_texts(c: Seq<(u8, Option<u8>, Option<u8>)>)
    ensures
        triple_texts(c) == byte_texts(triple_values(c)),
    decreases c.len(),
{
    if c.len() > 0 {
        lemma_triple_texts(c.drop_last());
        assert(triple_texts(c) =~= byte_texts(triple_values(c)));
    } else {
        assert(triple_texts(c) =~= byte_texts(triple_values(c)));
    }
}

/// The texts of bytes hold no comma and read back as the bytes.
#[verifier::rlimit(40)]
#[verifier::spinoff_prover]
proof fn lemma_bytes_read(d: Seq<u8>)
    ensures
        parse_bytes(byte_texts(d)) == Some(d),
        forall|i: int| 0 <= i < d.len() ==> !(#[trigger] byte_texts(d)[i]).contains(','),
    decreases d.len(),
{
    let q = byte_texts(d);
    assert forall|i: int| 0 <= i < d.len() implies !(#[trigger] byte_texts(d)[i]).contains(',') by {
        lemma_int_text_plain(d[i] as int, ',');
    }
    if d.len() > 0 {
        let init = d.drop_last();
        lemma_bytes_read(init);
        assert(q.drop_last() =~= byte_texts(init));
        lemma_parse_int_text(d.last() as int, 0, 255);
        assert(init.push(d.last()) =~= d);
    } else {
        assert(q.len() == 0);
        assert(d =~= Seq::<u8>::empty());
    }
}

/// Continuing colours complete but for the last are taken back three at a
/// time from their values.
#[verifier::rlimit(40)]
#[verifier::spinoff_prover]
proof fn lemma_triples_of_values(c: Seq<(u8, Option<u8>, Option<u8>)>)
    requires
        colours_complete_but_last(c),
    ensures
        triple_values(c).len() == 3 * c.len() - (if c.len() > 0 && c.last().1 is None {
            2int
        } else if c.len() > 0 && c.last().2 is None {
            1int
        } else {
            0int
        }),
        forall|i: int| 0 <= i < c.len() ==> #[trigger] triple_values(c)[3 * i] == c[i].0,
        forall|i: int| 0 <= i < c.len() && c[i].1 is Some ==> #[trigger] triple_values(c)[3 * i + 1] == c[i].1.unwrap(),
        forall|i: int| 0 <= i < c.len() && c[i].2 is Some ==> #[trigger] triple_values(c)[3 * i + 2] == c[i].2.unwrap(),
        triples_of(triple_values(c)) == c,
    decreases c.len(),
{
    let v = triple_values(c);
    if c.len() > 0 {
        let init = c.drop_last();
        assert forall|i: int| 0 <= i < init.len() - 1 implies (#[trigger] init[i]).1 is Some && init[i].2 is Some by {
            assert(init[i] == c[i]);
        }
        assert forall|i: int| 0 <= i < init.len() && (#[trigger] init[i]).1 is None implies init[i].2 is None by {
            assert(init[i] == c[i]);
        }
        lemma_triples_of_values(init);
        let w = triple_values(init);
        let n = c.len() - 1;
        if n > 0 {
            assert(init.last() == c[n - 1]);
            assert(c[n - 1].1 is Some && c[n - 1].2 is Some);
        }
        assert(w.len() == 3 * n);
        assert(c[n].1 is None ==> c[n].2 is None);
        assert forall|i: int| 0 <= i < c.len() implies #[trigger] v[3 * i] == c[i].0 by {
            if i < n {
                assert(v[3 * i] == w[3 * i]);
                assert(init[i] == c[i]);
            }
        }
        assert forall|i: int| 0 <= i < c.len() && c[i].1 is Some implies #[trigger] v[3 * i + 1] == c[i].1.unwrap() by {
            if i < n {
                assert(v[3 * i + 1] == w[3 * i + 1]);
                assert(init[i] == c[i]);
            }
        }
        assert forall|i: int| 0 <= i < c.len() && c[i].2 is Some implies #[trigger] v[3 * i + 2] == c[i].2.unwrap() by {
            if i < n {
                assert(v[3 * i + 2] == w[3 * i + 2]);
                assert(init[i] == c[i]);
            }
        }
        let q = triples_of(v);
        assert(q.len() == c.len());
        assert forall|i: int| 0 <= i < c.len() implies #[trigger] q[i] == c[i] by {
            if i < n {
                assert(c[i].1 is Some && c[i].2 is Some);
            }
        }
        assert(q =~= c);
    } else {
        assert(v.len() == 0);
        assert(triples_of(v) =~= c);
    }
}

/// Reading a written colour command gives it back.
#[verifier::rlimit(40)]
#[verifier::spinoff_prover]
proof fn lemma_colour_round_trip(st: i32, easing: Easing, et: Option<i32>, colours: ColoursView)
    requires
        easing_fits(easing),
        colours_error_from(colours.continuing, 0) is None,
    ensures
        ({
            let c = CommandView { start_time: st, properties: CommandPropertiesView::Colour { easing, end_time: et, colours } };
            &&& !command_stuck(command_text(c))
            &&& command_parse(command_text(c)) == Ok::<CommandView, ParseCommandError>(c)
            &&& command_text(c).len() > 0
            &&& 'A' <= command_text(c)[0] <= 'Z'
        }),
{
    let c = CommandView { start_time: st, properties: CommandPropertiesView::Colour { easing, end_time: et, colours } };
    let tag = seq!['C'];
    let head = head_fields(tag, easing, st, et);
    let vals = triple_values(colours.continuing);
    lemma_triple_texts(colours.continuing);
    let parts = head.push(int_text(colours.start.0 as int)).push(int_text(colours.start.1 as int)).push(
        int_text(colours.start.2 as int),
    ) + byte_texts(vals);
    assert(command_text(c) == join(parts, seq![',']));
    assert(!tag.contains(',')) by {
        if tag.contains(',') {
            let i = choose|i: int| 0 <= i < tag.len() && tag[i] == ',';
        }
    }
    lemma_head_plain(tag, easing, st, et);
    lemma_bytes_read(vals);
    lemma_int_text_plain(colours.start.0 as int, ',');
    lemma_int_text_plain(colours.start.1 as int, ',');
    lemma_int_text_plain(colours.start.2 as int, ',');
    assert forall|i: int| 0 <= i < parts.len() implies !(#[trigger] parts[i]).contains(',') by {
        if i < 4 {
            assert(parts[i] == head[i]);
        } else if i >= 7 {
            assert(parts[i] == byte_texts(vals)[i - 7]);
        }
    }
    lemma_parts_line(parts);
    let t = command_text(c);
    assert(parts[0] == tag);
    assert(t[0] == tag[0]);
    assert(tag[0] == 'C');
    assert(indent_len(t) == 0);
    assert(t.skip(0) =~= t);
    assert(command_kind(t) == Some(CommandKind::Colour));
    lemma_head_parse(parts, easing, st, et);
    assert(parts.skip(7) =~= byte_texts(vals));
    lemma_colours_valid(colours.continuing, 0);
    lemma_triples_of_values(colours.continuing);
    lemma_parse_int_text(colours.start.0 as int, 0, 255);
    lemma_parse_int_text(colours.start.1 as int, 0, 255);
    lemma_parse_int_text(colours.start.2 as int, 0, 255);
    assert(parts[4] == int_text(colours.start.0 as int));
    assert(parts[5] == int_text(colours.start.1 as int));
    assert(parts[6] == int_text(colours.start.2 as int));
    assert(body_parse(CommandKind::Colour, parts, easing, et) == Ok::<CommandPropertiesView, ParseCommandError>(c.properties));
    reveal(command_parse);
}

/// The letter of a parameter reads back as the parameter.
#[verifier::rlimit(40)]
#[verifier::spinoff_prover]
proof fn lemma_parameter_letter(x: Parameter)
    ensures
        Parameter::parse_name(seq![x.letter()]) == Some(x),
{
    match x {
        Parameter::ImageFlipHorizontal => assert(seq![x.letter()] =~= seq!['H']),
        Parameter::ImageFlipVertical => {
            assert(seq![x.letter()] =~= seq!['V']);
            assert(seq!['V'] != seq!['H']) by { assert(seq!['V'][0] != seq!['H'][0]); }
        },
        Parameter::UseAdditiveColourBlending => {
            assert(seq![x.letter()] =~= seq!['A']);
            assert(seq!['A'] != seq!['H']) by { assert(seq!['A'][0] != seq!['H'][0]); }
            assert(seq!['A'] != seq!['V']) by { assert(seq!['A'][0] != seq!['V'][0]); }
        },
    }
}

/// The letters of parameters read back as the parameters.
#[verifier::rlimit(40)]
#[verifier::spinoff_prover]
proof fn lemma_parameters_read(d: Seq<Parameter>)
    ensures
        parse_parameters(parameter_texts(d)) == Some(d),
        forall|i: int| 0 <= i < d.len() ==> !(#[trigger] parameter_texts(d)[i]).contains(','),
    decreases d.len(),
{
    let q = parameter_texts(d);
    assert forall|i: int| 0 <= i < d.len() implies !(#[trigger] parameter_texts(d)[i]).contains(',') by {
        let l = seq![d[i].letter()];
        if l.contains(',') {
            let j = choose|j: int| 0 <= j < l.len() && l[j] == ',';
        }
    }
    if d.len() > 0 {
        let init = d.drop_last();
        lemma_parameters_read(init);
        assert(q.drop_last() =~= parameter_texts(init));
        let x = d.last();
        lemma_parameter_letter(x);
        assert(q.last() == seq![x.letter()]);
        assert(init.push(d.last()) =~= d);
    } else {
        assert(q.len() == 0);
        assert(d =~= Seq::<Parameter>::empty());
    }
}

/// Reading a written parameter command gives it back.
#[verifier::rlimit(40)]
#[verifier::spinoff_prover]
proof fn lemma_parameter_round_trip(st: i32, easing: Easing, et: Option<i32>, parameter: Parameter, rest: Seq<Parameter>)
    requires
        easing_fits(easing),
    ensures
        ({
            let c = CommandView {
                start_time: st,
                properties: CommandPropertiesView::Parameter { easing, end_time: et, parameter, continuing_parameters: rest },
            };
            &&& !command_stuck(command_text(c))
            &&& command_parse(command_text(c)) == Ok::<CommandView, ParseCommandError>(c)
            &&& command_text(c).len() > 0
            &&& 'A' <= command_text(c)[0] <= 'Z'
        }),
{
    let c = CommandView {
        start_time: st,
        properties: CommandPropertiesView::Parameter { easing, end_time: et, parameter, continuing_parameters: rest },
    };
    let tag = seq!['P'];
    let head = head_fields(tag, easing, st, et);
    let parts = head.push(seq![parameter.letter()]) + parameter_texts(rest);
    assert(command_text(c) == join(parts, seq![',']));
    assert(!tag.contains(',')) by {
        if tag.contains(',') {
            let i = choose|i: int| 0 <= i < tag.len() && tag[i] == ',';
        }
    }
    lemma_head_plain(tag, easing, st, et);
    lemma_parameters_read(rest);
    assert(!seq![parameter.letter()].contains(',')) by {
        let l = seq![parameter.letter()];
        if l.contains(',') {
            let j = choose|j: int| 0 <= j < l.len() && l[j] == ',';
        }
    }
    assert forall|i: int| 0 <= i < parts.len() implies !(#[trigger] parts[i]).contains(',') by {
        if i < 4 {
            assert(parts[i] == head[i]);
        } else if i >= 5 {
            assert(parts[i] == parameter_texts(rest)[i - 5]);
        }
    }
    lemma_parts_line(parts);
    let t = command_text(c);
    assert(parts[0] == tag);
    assert(t[0] == tag[0]);
    assert(tag[0] == 'P');
    assert(indent_len(t) == 0);
    assert(t.skip(0) =~= t);
    assert(command_kind(t) == Some(CommandKind::Parameter));
    lemma_head_parse(parts, easing, st, et);
    assert(parts.skip(5) =~= parameter_texts(rest));
    assert(parts[4] == seq![parameter.letter()]);
    lemma_parameter_letter(parameter);
    assert(body_parse(CommandKind::Parameter, parts, easing, et) == Ok::<CommandPropertiesView, ParseCommandError>(c.properties));
    reveal(command_parse);
}

/// Whether a trigger type is read back from its text: passing, failing, or
/// a hitsound whose additions sample set comes only with a sample set (else
/// it reads as the sample set) and whose custom sample set is one digit
/// (each digit starts a field of its own).
pub open spec fn trigger_type_fits(tt: TriggerType) -> bool {
    match tt {
        TriggerType::HitSound { sample_set, additions_sample_set, custom_sample_set, .. } =>
            (additions_sample_set is Some ==> sample_set is Some) && (custom_sample_set matches Some(n) ==> n <= 9),
        _ => true,
    }
}

/// A word of letters differs from another whose first letter differs.
proof fn lemma_words_differ(a: Seq<char>, b: Seq<char>)
    requires
        a.len() > 0,
        b.len() > 0,
        a[0] != b[0],
    ensures
        a != b,
{
}

/// Whether a word is one field after `HitSound`: it starts a field and no
/// later character does.
pub open spec fn field_word(w: Seq<char>) -> bool {
    &&& w.len() > 0
    &&& field_start(w[0])
    &&& forall|i: int| 1 <= i < w.len() ==> !field_start(#[trigger] w[i])
}

/// The fields of a word that starts no later field are the word.
#[verifier::rlimit(40)]
#[verifier::spinoff_prover]
proof fn lemma_fields_one(w: Seq<char>)
    requires
        w.len() > 0,
        forall|i: int| 1 <= i < w.len() ==> !field_start(#[trigger] w[i]),
    ensures
        hitsound_fields(w) == seq![w],
    decreases w.len(),
{
    if w.len() > 1 {
        let w0 = w.drop_last();
        assert forall|i: int| 1 <= i < w0.len() implies !field_start(#[trigger] w0[i]) by {
            assert(w0[i] == w[i]);
        }
        lemma_fields_one(w0);
        assert(!field_start(w[w.len() - 1]));
        assert(w0.push(w.last()) =~= w);
    }
}

/// A field word after some text adds one field.
#[verifier::rlimit(40)]
#[verifier::spinoff_prover]
proof fn lemma_fields_push(a: Seq<char>, w: Seq<char>)
    requires
        a.len() > 0,
        field_word(w),
    ensures
        hitsound_fields(a + w) == hitsound_fields(a).push(w),
    decreases w.len(),
{
    if w.len() == 1 {
        assert((a + w).drop_last() =~= a);
        assert((a + w).last() == w[0]);
        assert(seq![w[0]] =~= w);
    } else {
        let w0 = w.drop_last();
        assert forall|i: int| 1 <= i < w0.len() implies !field_start(#[trigger] w0[i]) by {
            assert(w0[i] == w[i]);
        }
        lemma_fields_push(a, w0);
        assert((a + w).drop_last() =~= a + w0);
        assert((a + w).last() == w[w.len() - 1]);
        assert(!field_start(w[w.len() - 1]));
        assert(w0.push(w.last()) =~= w);
    }
}

/// The words joined, as they are written one after another.
#[verifier::opaque]
pub open spec fn concat_words(fs: Seq<Seq<char>>) -> Seq<char>
    decreases fs.len(),
{
    if fs.len() == 0 {
        Seq::empty()
    } else {
        concat_words(fs.drop_last()) + fs.last()
    }
}

/// Field words written one after another are read back as the fields.
#[verifier::rlimit(40)]
#[verifier::spinoff_prover]
proof fn lemma_fields_of_words(fs: Seq<Seq<char>>)
    requires
        fs.len() > 0,
        forall|i: int| 0 <= i < fs.len() ==> field_word(#[trigger] fs[i]),
    ensures
        hitsound_fields(concat_words(fs)) == fs,
        concat_words(fs).len() > 0,
    decreases fs.len(),
{
    reveal(concat_words);
    let init = fs.drop_last();
    assert(field_word(fs[fs.len() - 1]));
    if fs.len() == 1 {
        assert(concat_words(fs) =~= fs[0]);
        lemma_fields_one(fs[0]);
        assert(seq![fs[0]] =~= fs);
    } else {
        assert forall|i: int| 0 <= i < init.len() implies field_word(#[trigger] init[i]) by {
            assert(init[i] == fs[i]);
        }
        lemma_fields_of_words(init);
        lemma_fields_push(concat_words(init), fs.last());
        assert(init.push(fs.last()) =~= fs);
    }
}

/// A capitalised name of ASCII letters is a field word.
#[verifier::rlimit(40)]
#[verifier::spinoff_prover]
proof fn lemma_name_word(w: Seq<char>)
    requires
        w.len() > 0,
        'A' <= w[0] <= 'Z',
        forall|i: int| 1 <= i < w.len() ==> 'a' <= #[trigger] w[i] <= 'z',
    ensures
        field_word(w),
        !w.contains(','),
{
    assert forall|i: int| 1 <= i < w.len() implies !field_start(#[trigger] w[i]) by {
        assert('a' <= w[i] <= 'z');
    }
    if w.contains(',') {
        let i = choose|i: int| 0 <= i < w.len() && w[i] == ',';
        if i > 0 {
            assert('a' <= w[i] <= 'z');
        }
    }
}

/// The word of an optional sample set, as a list of words.
pub open spec fn sample_set_words(o: Option<SampleSet>) -> Seq<Seq<char>> {
    match o {
        Some(x) => seq![x.name()],
        None => Seq::empty(),
    }
}

/// The word of an optional addition, as a list of words.
pub open spec fn addition_words(o: Option<Addition>) -> Seq<Seq<char>> {
    match o {
        Some(x) => seq![x.name()],
        None => Seq::empty(),
    }
}

/// The digits of an optional custom sample set, as a list of words.
pub open spec fn number_words(o: Option<usize>) -> Seq<Seq<char>> {
    match o {
        Some(n) => seq![int_text(n as int)],
        None => Seq::empty(),
    }
}

/// The fields written for a hitsound trigger type, in order.
pub open spec fn hitsound_words(tt: TriggerType) -> Seq<Seq<char>> {
    match tt {
        TriggerType::HitSound { sample_set, additions_sample_set, addition, custom_sample_set } =>
            sample_set_words(sample_set) + sample_set_words(additions_sample_set) + addition_words(addition)
                + number_words(custom_sample_set),
        _ => Seq::empty(),
    }
}

/// The slots fill as written where a field goes to the first free slot that
/// takes it.
proof fn lemma_fill_step(fs: Seq<Seq<char>>, f: Seq<char>, idx: nat, t: TriggerType, j: nat)
    requires
        fill_slots(fs) == Ok::<(nat, TriggerType), bool>((idx, t)),
        idx <= j <= 3,
        slot_accepts(f, j),
        forall|k: nat| idx <= k < j ==> !#[trigger] slot_accepts(f, k),
    ensures
        fill_slots(fs.push(f)) == Ok::<(nat, TriggerType), bool>((j + 1, set_slot(t, j, f))),
{
    assert(fs.push(f).drop_last() =~= fs);
    lemma_first_slot(f, idx, j);
}

/// The first slot from `idx` that takes a field.
proof fn lemma_first_slot(f: Seq<char>, idx: nat, j: nat)
    requires
        idx <= j <= 3,
        slot_accepts(f, j),
        forall|k: nat| idx <= k < j ==> !#[trigger] slot_accepts(f, k),
    ensures
        first_slot(f, idx) == Some(j),
    decreases j - idx,
{
    if idx < j {
        assert(!slot_accepts(f, idx));
        lemma_first_slot(f, idx + 1, j);
    }
}

/// The names of sample sets, of additions and a digit are told apart.
#[verifier::rlimit(40)]
#[verifier::spinoff_prover]
proof fn lemma_name_slots()
    ensures
        forall|x: SampleSet| #[trigger] slot_accepts(x.name(), 0) && slot_accepts(x.name(), 1),
        forall|x: Addition| !#[trigger] slot_accepts(x.name(), 0) && !slot_accepts(x.name(), 1) && slot_accepts(x.name(), 2),
        forall|x: SampleSet| #[trigger] SampleSet::parse_name(x.name()) == Some(x),
        forall|x: Addition| #[trigger] Addition::parse_name(x.name()) == Some(x),
{
    assert forall|x: SampleSet| #[trigger] SampleSet::parse_name(x.name()) == Some(x) by {
        let a = SampleSet::All.name();
        let n = SampleSet::Normal.name();
        let so = SampleSet::Soft.name();
        let d = SampleSet::Drum.name();
        lemma_words_differ(n, a);
        lemma_words_differ(so, a);
        lemma_words_differ(so, n);
        lemma_words_differ(d, a);
        lemma_words_differ(d, n);
        lemma_words_differ(d, so);
    }
    assert forall|x: Addition| #[trigger] Addition::parse_name(x.name()) == Some(x) by {
        let w = Addition::Whistle.name();
        let f = Addition::Finish.name();
        let c = Addition::Clap.name();
        lemma_words_differ(f, w);
        lemma_words_differ(c, w);
        lemma_words_differ(c, f);
    }
    assert forall|x: Addition| !#[trigger] slot_accepts(x.name(), 0) && !slot_accepts(x.name(), 1) && slot_accepts(x.name(), 2) by {
        let w = x.name();
        lemma_words_differ(w, SampleSet::All.name());
        lemma_words_differ(w, SampleSet::Normal.name());
        lemma_words_differ(w, SampleSet::Soft.name());
        lemma_words_differ(w, SampleSet::Drum.name());
    }
}

/// One digit is a field word taken by the custom sample set slot only.
#[verifier::rlimit(40)]
#[verifier::spinoff_prover]
proof fn lemma_digit_slots(n: usize)
    requires
        n <= 9,
    ensures
        field_word(int_text(n as int)),
        !int_text(n as int).contains(','),
        !slot_accepts(int_text(n as int), 0),
        !slot_accepts(int_text(n as int), 1),
        !slot_accepts(int_text(n as int), 2),
        slot_accepts(int_text(n as int), 3),
        parse_int_spec(int_text(n as int), 0, u32::MAX as int) == Ok::<int, IntErrorKind>(n as int),
{
    let w = int_text(n as int);
    crate::text::lemma_nat_text_digits(n as nat);
    assert(w.len() == 1);
    assert('0' <= w[0] <= '9');
    lemma_parse_int_text(n as int, 0, u32::MAX as int);
    lemma_int_text_plain(n as int, ',');
    lemma_words_differ(w, SampleSet::All.name());
    lemma_words_differ(w, SampleSet::Normal.name());
    lemma_words_differ(w, SampleSet::Soft.name());
    lemma_words_differ(w, SampleSet::Drum.name());
    lemma_words_differ(w, Addition::Whistle.name());
    lemma_words_differ(w, Addition::Finish.name());
    lemma_words_differ(w, Addition::Clap.name());
}

/// The fields of a hitsound trigger type that fits fill its slots back.
#[verifier::rlimit(40)]
#[verifier::spinoff_prover]
proof fn lemma_hitsound_fill(tt: TriggerType)
    requires
        tt is HitSound,
        trigger_type_fits(tt),
    ensures
        hitsound_words(tt).len() <= 4,
        hitsound_words(tt).len() > 0 ==> fill_slots(hitsound_words(tt)) is Ok && fill_slots(hitsound_words(tt))->Ok_0.1 == tt,
        forall|i: int| 0 <= i < hitsound_words(tt).len() ==> field_word(#[trigger] hitsound_words(tt)[i])
            && !hitsound_words(tt)[i].contains(','),
{
    lemma_name_slots();
    let ss = tt->sample_set;
    let ass = tt->additions_sample_set;
    let add = tt->addition;
    let css = tt->custom_sample_set;
    let w0 = match ss { Some(x) => seq![x.name()], None => Seq::<Seq<char>>::empty() };
    let w1 = match ass { Some(x) => seq![x.name()], None => Seq::<Seq<char>>::empty() };
    let w2 = match add { Some(x) => seq![x.name()], None => Seq::<Seq<char>>::empty() };
    let w3 = match css { Some(n) => seq![int_text(n as int)], None => Seq::<Seq<char>>::empty() };
    let e = Seq::<Seq<char>>::empty();
    assert(fill_slots(e) == Ok::<(nat, TriggerType), bool>((0, bare_hitsound())));
    let t0 = TriggerType::HitSound { sample_set: ss, additions_sample_set: None, addition: None, custom_sample_set: None };
    let i0: nat = if ss is Some { 1 } else { 0 };
    match ss {
        Some(x) => {
            lemma_fill_step(e, x.name(), 0, bare_hitsound(), 0);
            assert(e.push(x.name()) =~= w0);
        },
        None => {
            assert(w0 =~= e);
        },
    }
    assert(fill_slots(w0) == Ok::<(nat, TriggerType), bool>((i0, t0)));
    let t1 = TriggerType::HitSound { sample_set: ss, additions_sample_set: ass, addition: None, custom_sample_set: None };
    let i1: nat = if ass is Some { 2 } else { i0 };
    match ass {
        Some(y) => {
            lemma_fill_step(w0, y.name(), i0, t0, 1);
            assert(w0.push(y.name()) =~= w0 + w1);
        },
        None => {
            assert(w0 + w1 =~= w0);
        },
    }
    assert(fill_slots(w0 + w1) == Ok::<(nat, TriggerType), bool>((i1, t1)));
    let t2 = TriggerType::HitSound { sample_set: ss, additions_sample_set: ass, addition: add, custom_sample_set: None };
    let i2: nat = if add is Some { 3 } else { i1 };
    match add {
        Some(z) => {
            assert forall|k: nat| i1 <= k < 2 implies !#[trigger] slot_accepts(z.name(), k) by {
                assert(!slot_accepts(z.name(), 0) && !slot_accepts(z.name(), 1));
            }
            lemma_fill_step(w0 + w1, z.name(), i1, t1, 2);
            assert((w0 + w1).push(z.name()) =~= w0 + w1 + w2);
        },
        None => {
            assert(w0 + w1 + w2 =~= w0 + w1);
        },
    }
    assert(fill_slots(w0 + w1 + w2) == Ok::<(nat, TriggerType), bool>((i2, t2)));
    match css {
        Some(n) => {
            lemma_digit_slots(n);
            let d = int_text(n as int);
            assert forall|k: nat| i2 <= k < 3 implies !#[trigger] slot_accepts(d, k) by {}
            lemma_fill_step(w0 + w1 + w2, d, i2, t2, 3);
            assert((w0 + w1 + w2).push(d) =~= w0 + w1 + w2 + w3);
        },
        None => {
            assert(w0 + w1 + w2 + w3 =~= w0 + w1 + w2);
        },
    }
    assert(hitsound_words(tt) == w0 + w1 + w2 + w3);
    let ws = hitsound_words(tt);
    assert forall|i: int| 0 <= i < ws.len() implies field_word(#[trigger] ws[i]) && !ws[i].contains(',') by {
        let w = ws[i];
        match ss { Some(x) => { if i == 0 { lemma_sample_set_word(x); } }, None => {} }
        let k1 = w0.len() as int;
        match ass { Some(x) => { if i == k1 { lemma_sample_set_word(x); } }, None => {} }
        let k2 = (w0.len() + w1.len()) as int;
        match add { Some(x) => { if i == k2 { lemma_addition_word(x); } }, None => {} }
        match css { Some(n) => { if i == ws.len() - 1 { lemma_digit_slots(n); } }, None => {} }
    }
}

/// The name of a sample set is a field word.
proof fn lemma_sample_set_word(x: SampleSet)
    ensures
        field_word(x.name()),
        !x.name().contains(','),
{
    lemma_name_word(x.name());
}

/// The name of an addition is a field word.
proof fn lemma_addition_word(x: Addition)
    ensures
        field_word(x.name()),
        !x.name().contains(','),
{
    lemma_name_word(x.name());
}

/// No words make no text.
proof fn lemma_concat_none()
    ensures
        concat_words(Seq::<Seq<char>>::empty()) == Seq::<char>::empty(),
{
    reveal(concat_words);
}

/// One more word adds its text.
proof fn lemma_concat_push(fs: Seq<Seq<char>>, w: Seq<char>)
    ensures
        concat_words(fs + seq![w]) == concat_words(fs) + w,
{
    reveal(concat_words);
    assert((fs + seq![w]).drop_last() =~= fs);
}

/// The word of an optional sample set adds its name.
#[verifier::rlimit(40)]
#[verifier::spinoff_prover]
proof fn lemma_concat_sample_set(fs: Seq<Seq<char>>, o: Option<SampleSet>)
    ensures
        concat_words(fs + sample_set_words(o)) == concat_words(fs) + opt_sample_set_name(o),
{
    match o {
        Some(x) => lemma_concat_push(fs, x.name()),
        None => {
            assert(fs + sample_set_words(o) =~= fs);
            assert(concat_words(fs) + opt_sample_set_name(o) =~= concat_words(fs));
        },
    }
}

/// The word of an optional addition adds its name.
#[verifier::rlimit(40)]
#[verifier::spinoff_prover]
proof fn lemma_concat_addition(fs: Seq<Seq<char>>, o: Option<Addition>)
    ensures
        concat_words(fs + addition_words(o)) == concat_words(fs) + opt_addition_name(o),
{
    match o {
        Some(x) => lemma_concat_push(fs, x.name()),
        None => {
            assert(fs + addition_words(o) =~= fs);
            assert(concat_words(fs) + opt_addition_name(o) =~= concat_words(fs));
        },
    }
}

/// The digits of an optional custom sample set add its text.
#[verifier::rlimit(40)]
#[verifier::spinoff_prover]
proof fn lemma_concat_number(fs: Seq<Seq<char>>, o: Option<usize>)
    ensures
        concat_words(fs + number_words(o)) == concat_words(fs) + opt_number_text(o),
{
    match o {
        Some(n) => lemma_concat_push(fs, int_text(n as int)),
        None => {
            assert(fs + number_words(o) =~= fs);
            assert(concat_words(fs) + opt_number_text(o) =~= concat_words(fs));
        },
    }
}

/// The text of a hitsound trigger type is `HitSound` and its field words.
#[verifier::rlimit(40)]
#[verifier::spinoff_prover]
proof fn lemma_hitsound_text(tt: TriggerType)
    requires
        tt is HitSound,
    ensures
        trigger_type_text(tt) == hitsound_word() + concat_words(hitsound_words(tt)),
{
    let ss = tt->sample_set;
    let ass = tt->additions_sample_set;
    let add = tt->addition;
    let css = tt->custom_sample_set;
    let e = Seq::<Seq<char>>::empty();
    let f1 = sample_set_words(ss);
    let f2 = f1 + sample_set_words(ass);
    let f3 = f2 + addition_words(add);
    let f4 = f3 + number_words(css);
    lemma_concat_none();
    lemma_concat_sample_set(e, ss);
    assert(e + f1 =~= f1);
    assert(Seq::<char>::empty() + opt_sample_set_name(ss) =~= opt_sample_set_name(ss));
    lemma_concat_sample_set(f1, ass);
    lemma_concat_addition(f2, add);
    lemma_concat_number(f3, css);
    let t0 = opt_sample_set_name(ss);
    let t1 = opt_sample_set_name(ass);
    let t2 = opt_addition_name(add);
    let t3 = opt_number_text(css);
    assert(hitsound_words(tt) == f4);
    assert(concat_words(f4) == t0 + t1 + t2 + t3);
    assert(trigger_type_text(tt) == hitsound_word() + t0 + t1 + t2 + t3);
    assert(hitsound_word() + t0 + t1 + t2 + t3 =~= hitsound_word() + (t0 + t1 + t2 + t3));
}

/// The text of a hitsound trigger type that fits reads back as it.
#[verifier::rlimit(60)]
#[verifier::spinoff_prover]
proof fn lemma_hitsound_round_trip(tt: TriggerType)
    requires
        tt is HitSound,
        trigger_type_fits(tt),
    ensures
        trigger_type_parse(trigger_type_text(tt)) == Ok::<TriggerType, ParseTriggerTypeError>(tt),
        !trigger_type_stuck(trigger_type_text(tt)),
        !trigger_type_text(tt).contains(','),
        trigger_type_text(tt).len() > 0,
{
    let w = trigger_type_text(tt);
    let pw = passing_word();
    let fw = failing_word();
    let hw = hitsound_word();
    lemma_hitsound_text(tt);
    lemma_hitsound_fill(tt);
    let ws = hitsound_words(tt);
    let r = concat_words(ws);
    assert(w.take(8) =~= hw);
    assert(w.skip(8) =~= r);
    lemma_words_differ(w, pw);
    lemma_words_differ(w, fw);
    assert(!hw.contains(',')) by {
        if hw.contains(',') {
            let i = choose|i: int| 0 <= i < hw.len() && hw[i] == ',';
        }
    }
    if ws.len() == 0 {
        assert(ws =~= Seq::<Seq<char>>::empty());
        assert(r =~= Seq::<char>::empty());
        assert(w =~= hw);
        assert(tt == bare_hitsound());
        crate::laws::lemma_trim_plain(w);
    } else {
        lemma_fields_of_words(ws);
        lemma_words_lack(ws, ',');
        crate::laws::lemma_concat_lacks(hw, r, ',');
        lemma_word_last(ws);
        assert(field_word(ws[ws.len() - 1]));
        assert(w.last() == r.last());
        crate::laws::lemma_trim_plain(w);
        let res = fill_slots(hitsound_fields(w.skip(8)));
        assert(res is Ok && res->Ok_0.1 == tt);
    }
}

/// The text of a trigger type that fits reads back as it.
#[verifier::rlimit(40)]
#[verifier::spinoff_prover]
pub proof fn law_trigger_type_round_trip(tt: TriggerType)
    requires
        trigger_type_fits(tt),
    ensures
        trigger_type_parse(trigger_type_text(tt)) == Ok::<TriggerType, ParseTriggerTypeError>(tt),
        !trigger_type_stuck(trigger_type_text(tt)),
        !trigger_type_text(tt).contains(','),
        trigger_type_text(tt).len() > 0,
{
    let w = trigger_type_text(tt);
    let pw = passing_word();
    let fw = failing_word();
    lemma_words_differ(pw, fw);
    match tt {
        TriggerType::HitSound { .. } => lemma_hitsound_round_trip(tt),
        _ => {
            assert(w == pw || w == fw);
            assert(!w.contains(',')) by {
                if w.contains(',') {
                    let i = choose|i: int| 0 <= i < w.len() && w[i] == ',';
                }
            }
            crate::laws::lemma_trim_plain(w);
        },
    }
}

/// Words that lack a character joined lack it.
#[verifier::rlimit(40)]
#[verifier::spinoff_prover]
proof fn lemma_words_lack(fs: Seq<Seq<char>>, c: char)
    requires
        forall|i: int| 0 <= i < fs.len() ==> !(#[trigger] fs[i]).contains(c),
    ensures
        !concat_words(fs).contains(c),
    decreases fs.len(),
{
    reveal(concat_words);
    if fs.len() > 0 {
        let init = fs.drop_last();
        assert forall|i: int| 0 <= i < init.len() implies !(#[trigger] init[i]).contains(c) by {
            assert(init[i] == fs[i]);
        }
        lemma_words_lack(init, c);
        assert(!fs[fs.len() - 1].contains(c));
        crate::laws::lemma_concat_lacks(concat_words(init), fs.last(), c);
    } else {
        assert(concat_words(fs) =~= Seq::<char>::empty());
    }
}

/// The last character of field words written one after another is a
/// letter or a digit.
proof fn lemma_word_last(fs: Seq<Seq<char>>)
    requires
        fs.len() > 0,
        forall|i: int| 0 <= i < fs.len() ==> field_word(#[trigger] fs[i]),
        forall|i: int| 0 <= i < fs.len() ==> !(#[trigger] fs[i]).contains(','),
    ensures
        concat_words(fs).len() > 0,
        concat_words(fs).last() == fs.last().last(),
{
    reveal(concat_words);
    assert(field_word(fs[fs.len() - 1]));
    assert(concat_words(fs) == concat_words(fs.drop_last()) + fs.last());
}

/// Reading a written trigger gives it back (its nested commands are read
/// from the lines after it, so it has none here).
#[verifier::rlimit(40)]
#[verifier::spinoff_prover]
proof fn lemma_trigger_round_trip(st: i32, tt: TriggerType, et: Option<i32>, g: Option<i32>)
    requires
        trigger_type_fits(tt),
    ensures
        ({
            let c = CommandView {
                start_time: st,
                properties: CommandPropertiesView::Trigger { trigger_type: tt, end_time: et, group_number: g, commands: Seq::empty() },
            };
            &&& !command_stuck(command_text(c))
            &&& command_parse(command_text(c)) == Ok::<CommandView, ParseCommandError>(c)
            &&& command_text(c).len() > 0
            &&& 'A' <= command_text(c)[0] <= 'Z'
        }),
{
    let c = CommandView {
        start_time: st,
        properties: CommandPropertiesView::Trigger { trigger_type: tt, end_time: et, group_number: g, commands: Seq::empty() },
    };
    let tag = seq!['T'];
    let head = seq![tag, trigger_type_text(tt), int_text(st as int), end_text(et)];
    let tail = match g {
        Some(x) => seq![int_text(x as int)],
        None => Seq::<Seq<char>>::empty(),
    };
    let parts = head + tail;
    assert(command_text(c) == join(parts, seq![',']));
    law_trigger_type_round_trip(tt);
    lemma_int_text_plain(st as int, ',');
    match et {
        Some(e) => lemma_int_text_plain(e as int, ','),
        None => {},
    }
    match g {
        Some(x) => lemma_int_text_plain(x as int, ','),
        None => {},
    }
    assert(!tag.contains(',')) by {
        if tag.contains(',') {
            let i = choose|i: int| 0 <= i < tag.len() && tag[i] == ',';
        }
    }
    assert forall|i: int| 0 <= i < parts.len() implies !(#[trigger] parts[i]).contains(',') by {
        if i < 4 {
            assert(parts[i] == head[i]);
        }
    }
    lemma_parts_line(parts);
    let t = command_text(c);
    assert(parts[0] == tag);
    assert(t[0] == tag[0]);
    assert(indent_len(t) == 0);
    assert(t.skip(0) =~= t);
    assert(command_kind(t) == Some(CommandKind::Trigger));
    lemma_parse_int_text(st as int, i32::MIN as int, i32::MAX as int);
    assert(parts[1] == trigger_type_text(tt));
    assert(parts[2] == int_text(st as int));
    assert(parts[3] == end_text(et));
    assert(i32_field(Seq::<char>::empty()) is None);
    match (et, g) {
        (None, None) => {
            assert(parts.len() == 4);
        },
        (Some(e), None) => {
            lemma_int_text_first(e as int);
            lemma_parse_int_text(e as int, i32::MIN as int, i32::MAX as int);
            crate::laws::lemma_rest_last(parts, 3);
        },
        (None, Some(x)) => {
            lemma_parse_int_text(x as int, i32::MIN as int, i32::MAX as int);
            crate::laws::lemma_rest_last(parts, 4);
        },
        (Some(e), Some(x)) => {
            lemma_parse_int_text(e as int, i32::MIN as int, i32::MAX as int);
            lemma_parse_int_text(x as int, i32::MIN as int, i32::MAX as int);
            crate::laws::lemma_rest_last(parts, 4);
        },
    }
    assert(trigger_tail(parts) == Ok::<(Option<i32>, Option<i32>), ParseCommandError>((et, g)));
    assert(trigger_parse(parts) == Ok::<CommandView, ParseCommandError>(c));
    reveal(command_parse);
}

/// Whether continuing pairs of decimals are read back: every decimal reads
/// back, and only the last pair may lack its second value.
pub open spec fn pairs_fit(f: ContinuingFieldsView<Decimal>) -> bool {
    &&& reads_back(f.start.0)
    &&& reads_back(f.start.1)
    &&& pairs_complete_but_last(f.continuing)
    &&& decimals_fit(pair_values(f.continuing))
}

/// What the command law asks of a command: its easing and decimals read
/// back, its continuing values are complete but for the last, it has no
/// nested commands (they are read from the lines after it), and a trigger's
/// type is one that reads back.
pub open spec fn command_fits(c: CommandView) -> bool {
    match c.properties {
        CommandPropertiesView::Fade { easing, start_opacity, continuing_opacities, .. } =>
            easing_fits(easing) && reads_back(start_opacity) && decimals_fit(continuing_opacities),
        CommandPropertiesView::Move { easing, positions_xy, .. } => easing_fits(easing) && pairs_fit(positions_xy),
        CommandPropertiesView::MoveX { easing, start_x, continuing_x, .. } =>
            easing_fits(easing) && reads_back(start_x) && decimals_fit(continuing_x),
        CommandPropertiesView::MoveY { easing, start_y, continuing_y, .. } =>
            easing_fits(easing) && reads_back(start_y) && decimals_fit(continuing_y),
        CommandPropertiesView::Scale { easing, start_scale, continuing_scales, .. } =>
            easing_fits(easing) && reads_back(start_scale) && decimals_fit(continuing_scales),
        CommandPropertiesView::VectorScale { easing, scales_xy, .. } => easing_fits(easing) && pairs_fit(scales_xy),
        CommandPropertiesView::Rotate { easing, start_rotation, continuing_rotations, .. } =>
            easing_fits(easing) && reads_back(start_rotation) && decimals_fit(continuing_rotations),
        CommandPropertiesView::Colour { easing, colours, .. } =>
            easing_fits(easing) && colours_error_from(colours.continuing, 0) is None,
        CommandPropertiesView::Parameter { easing, .. } => easing_fits(easing),
        CommandPropertiesView::Loop { commands, .. } => commands == Seq::<CommandView>::empty(),
        CommandPropertiesView::Trigger { trigger_type, commands, .. } =>
            commands == Seq::<CommandView>::empty() && trigger_type_fits(trigger_type),
    }
}

/// Reading a written command line gives the command back, and reading it
/// returns, where the command fits the command law (see `command_fits`); the
/// line starts with a capital letter.
#[verifier::rlimit(40)]
#[verifier::spinoff_prover]
pub proof fn law_command_round_trip(c: CommandView)
    requires
        command_fits(c),
    ensures
        !command_stuck(command_text(c)),
        command_parse(command_text(c)) == Ok::<CommandView, ParseCommandError>(c),
        command_text(c).len() > 0,
        'A' <= command_text(c)[0] <= 'Z',
{
    let st = c.start_time;
    match c.properties {
        CommandPropertiesView::Fade { easing, end_time, start_opacity, continuing_opacities } =>
            lemma_single_round_trip(CommandKind::Fade, st, easing, end_time, start_opacity, continuing_opacities),
        CommandPropertiesView::MoveX { easing, end_time, start_x, continuing_x } =>
            lemma_single_round_trip(CommandKind::MoveX, st, easing, end_time, start_x, continuing_x),
        CommandPropertiesView::MoveY { easing, end_time, start_y, continuing_y } =>
            lemma_single_round_trip(CommandKind::MoveY, st, easing, end_time, start_y, continuing_y),
        CommandPropertiesView::Scale { easing, end_time, start_scale, continuing_scales } =>
            lemma_single_round_trip(CommandKind::Scale, st, easing, end_time, start_scale, continuing_scales),
        CommandPropertiesView::Rotate { easing, end_time, start_rotation, continuing_rotations } =>
            lemma_single_round_trip(CommandKind::Rotate, st, easing, end_time, start_rotation, continuing_rotations),
        CommandPropertiesView::Move { easing, end_time, positions_xy } =>
            lemma_pair_round_trip(CommandKind::Move, st, easing, end_time, positions_xy),
        CommandPropertiesView::VectorScale { easing, end_time, scales_xy } =>
            lemma_pair_round_trip(CommandKind::VectorScale, st, easing, end_time, scales_xy),
        CommandPropertiesView::Colour { easing, end_time, colours } => lemma_colour_round_trip(st, easing, end_time, colours),
        CommandPropertiesView::Parameter { easing, end_time, parameter, continuing_parameters } =>
            lemma_parameter_round_trip(st, easing, end_time, parameter, continuing_parameters),
        CommandPropertiesView::Loop { loop_count, commands } => {
            crate::laws::law_loop_command_round_trip(st, loop_count);
            let parts = seq![seq!['L'], int_text(st as int), int_text(loop_count as int)];
            lemma_int_text_plain(st as int, ',');
            lemma_int_text_plain(loop_count as int, ',');
            assert(!seq!['L'].contains(',')) by {
                if seq!['L'].contains(',') {
                    let i = choose|i: int| 0 <= i < 1 && seq!['L'][i] == ',';
                }
            }
            assert forall|i: int| 0 <= i < parts.len() implies !(#[trigger] parts[i]).contains(',') by {}
            lemma_parts_line(parts);
            assert(command_text(c) == join(parts, seq![',']));
            let t = command_text(c);
            assert(t[0] == parts[0][0]);
            assert(indent_len(t) == 0);
            assert(t.skip(0) =~= t);
        },
        CommandPropertiesView::Trigger { trigger_type, end_time, group_number, commands } =>
            lemma_trigger_round_trip(st, trigger_type, end_time, group_number),
    }
}


/// Adding a continuing pair keeps only the last pair without its second
/// value: a missing one is filled in before the new pair comes.
pub proof fn law_push_pairs_complete<T>(start: (T, T), c: Seq<(T, Option<T>)>, f: (T, Option<T>))
    requires
        pairs_complete_but_last(c),
    ensures
        pairs_complete_but_last(pushed_pairs(start, c, f)),
{
    let r = pushed_pairs(start, c, f);
    if c.len() > 0 && c.last().1 is None {
        if c.len() >= 2 {
            assert(c[c.len() - 2].1 is Some);
        }
    }
    assert forall|i: int| 0 <= i < r.len() - 1 implies (#[trigger] r[i]).1 is Some by {
        if i < c.len() - 1 {
            assert(r[i] == c[i]);
        }
    }
}

/// Replacing a continuing pair, where the replacement is accepted, keeps
/// only the last pair without its second value.
pub proof fn law_set_pairs_complete<T>(c: Seq<(T, Option<T>)>, index: usize, f: (T, Option<T>))
    requires
        pairs_complete_but_last(c),
        c.len() <= usize::MAX,
        index < c.len(),
        !(index != (c.len() as usize).wrapping_sub(1) && f.1 is None),
    ensures
        pairs_complete_but_last(c.update(index as int, f)),
{
    assert((c.len() as usize) as int == c.len());
    assert((c.len() as usize).wrapping_sub(1) == c.len() - 1);
    assert(index != c.len() - 1 ==> f.1 is Some);
}

/// Colours that are complete but for the last, whose last lacks a blue only
/// where it lacks a green, have no colour error.
proof fn lemma_colours_no_error(c: Seq<(u8, Option<u8>, Option<u8>)>, i: int)
    requires
        0 <= i <= c.len(),
        forall|j: int| i <= j < c.len() - 1 ==> (#[trigger] c[j]).1 is Some && c[j].2 is Some,
        forall|j: int| i <= j < c.len() && (#[trigger] c[j]).1 is None ==> c[j].2 is None,
    ensures
        colours_error_from(c, i) is None,
    decreases c.len() - i,
{
    if i < c.len() {
        lemma_colours_no_error(c, i + 1);
    }
}

/// Adding continuing colours keeps them free of colour errors, where the new
/// colour has a blue only with a green and the last colour before it does
/// not lack its green (a missing green is filled in, but the blue after it
/// stays missing).
pub proof fn law_push_colours_valid(start: (u8, u8, u8), c: Seq<(u8, Option<u8>, Option<u8>)>, f: (u8, Option<u8>, Option<u8>))
    requires
        colours_error_from(c, 0) is None,
        !(f.1 is None && f.2 is Some),
        c.len() > 0 ==> c.last().1 is Some,
    ensures
        colours_error_from(pushed_colours(start, c, f), 0) is None,
{
    lemma_colours_valid(c, 0);
    let r = pushed_colours(start, c, f);
    if c.len() >= 2 {
        assert(c[c.len() - 2].1 is Some && c[c.len() - 2].2 is Some);
    }
    if c.len() > 0 {
        assert(c[c.len() - 1].1 is Some);
    }
    assert forall|j: int| 0 <= j < r.len() - 1 implies (#[trigger] r[j]).1 is Some && r[j].2 is Some by {
        if j < c.len() - 1 {
            assert(r[j] == c[j]);
        }
    }
    assert forall|j: int| 0 <= j < r.len() && (#[trigger] r[j]).1 is None implies r[j].2 is None by {
        if j < c.len() - 1 {
            assert(r[j] == c[j]);
        }
    }
    lemma_colours_no_error(r, 0);
}

/// Replacing a continuing colour, where the replacement is accepted, keeps
/// the colours free of colour errors.
pub proof fn law_set_colours_valid(c: Seq<(u8, Option<u8>, Option<u8>)>, index: usize, f: (u8, Option<u8>, Option<u8>))
    requires
        colours_error_from(c, 0) is None,
        c.len() <= usize::MAX,
        index < c.len(),
        colour_set_error(c.len(), index, f) is None,
    ensures
        colours_error_from(c.update(index as int, f), 0) is None,
{
    lemma_colours_valid(c, 0);
    let r = c.update(index as int, f);
    assert((c.len() as usize) as int == c.len());
    assert((c.len() as usize).wrapping_sub(1) == c.len() - 1);
    assert(index != c.len() - 1 ==> f.1 is Some && f.2 is Some);
    assert(f.1 is None ==> f.2 is None);
    assert forall|j: int| 0 <= j < r.len() - 1 implies (#[trigger] r[j]).1 is Some && r[j].2 is Some by {
        if j != index {
            assert(r[j] == c[j]);
        }
    }
    assert forall|j: int| 0 <= j < r.len() && (#[trigger] r[j]).1 is None implies r[j].2 is None by {
        if j != index {
            assert(r[j] == c[j]);
        }
    }
    lemma_colours_no_error(r, 0);
}

} // verus!
