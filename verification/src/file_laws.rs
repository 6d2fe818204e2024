//! The law of whole `.osu` files: reading a written file gives it back.
use vstd::prelude::*;

use crate::text::{join, lemma_split_len, lemma_split_push_sep, lines, split, strip_cr, trim};
use crate::sections::{header_name, is_header, sections_of, SectionText};
use crate::osu_file::{
    block, colours_word, difficulty_word, editor_word, events_name, file_blocks, general_word,
    hitobjects_word, metadata_word, timing_points_word, OsuFileView,
};
use crate::types::VersionedToString;
use crate::osu_file::{empty_file, format_prefix, line_end, multispace_len, osu_file_text, version_line_parse, ParseError};
use crate::text::{int_text, lemma_parse_int_text};
use crate::types::{Error, VersionedFromStr};
use crate::osu_file::{
    ends_preamble, first_unexpected, osu_file_parse, osu_fold, osu_section_step, preamble_len,
    unexpected_line, OsuAcc,
};
use crate::sections::section_body;
use crate::general::{GeneralView, ParseError as GeneralParseError};
use crate::editor::{EditorView, ParseError as EditorParseError};
use crate::metadata::{MetadataView, ParseError as MetadataParseError};
use crate::difficulty::{DifficultyView, ParseError as DifficultyParseError};
use crate::events::{events_fold, events_parse, events_stuck, EventView, ParseError as EventsParseError};
use crate::timingpoints::{TimingPointView, TimingPointsParseError};
use crate::colours::{Colour, ParseError as ColoursParseError};
use crate::hitobjects::HitObjectView;
use crate::hitobjects::error::ParseError as HitObjectsParseError;
use crate::general::General;
use crate::editor::Editor;
use crate::metadata::Metadata;
use crate::difficulty::Difficulty;
use crate::events::Events;
use crate::timingpoints::TimingPoints;
use crate::colours::Colours;
use crate::hitobjects::HitObjects;

verus! {

/// Splitting two texts joined by the separator gives the parts of each.
#[verifier::rlimit(40)]
#[verifier::spinoff_prover]
pub proof fn lemma_split_concat(x: Seq<char>, y: Seq<char>, sep: char)
    ensures
        split(x + seq![sep] + y, sep) == split(x, sep) + split(y, sep),
    decreases y.len(),
{
    lemma_split_len(x, sep);
    if y.len() == 0 {
        assert(x + seq![sep] + y =~= x.push(sep));
        lemma_split_push_sep(x, sep);
        assert(split(y, sep) == seq![Seq::<char>::empty()]);
        assert(split(x, sep).push(Seq::<char>::empty()) =~= split(x, sep) + split(y, sep));
    } else {
        let y0 = y.drop_last();
        let c = y.last();
        lemma_split_concat(x, y0, sep);
        lemma_split_len(y0, sep);
        let z = x + seq![sep] + y;
        assert(z.drop_last() =~= x + seq![sep] + y0);
        assert(z.last() == c);
        let prev = split(y0, sep);
        if c == sep {
            assert(split(y, sep) == prev.push(Seq::<char>::empty()));
            assert((split(x, sep) + prev).push(Seq::<char>::empty()) =~= split(x, sep) + prev.push(
                Seq::<char>::empty(),
            ));
        } else {
            assert(split(y, sep) == prev.update(prev.len() - 1, prev.last().push(c)));
            let all = split(x, sep) + prev;
            assert(all.last() == prev.last());
            assert(all.update(all.len() - 1, all.last().push(c)) =~= split(x, sep) + prev.update(
                prev.len() - 1,
                prev.last().push(c),
            ));
        }
    }
}


/// The text of a section block: its header line and its text.
pub open spec fn block_text(e: (Seq<char>, Seq<char>)) -> Seq<char> {
    seq!['['] + e.0 + seq![']', '\n'] + e.1
}

/// The blocks of sections given by name and text.
pub open spec fn blocks_of(es: Seq<(Seq<char>, Seq<char>)>) -> Seq<Seq<char>> {
    es.map_values(|e: (Seq<char>, Seq<char>)| block_text(e))
}

/// The header line of a section.
pub open spec fn header_line(name: Seq<char>) -> Seq<char> {
    seq!['['] + name + seq![']']
}

/// The parts that splitting the blocks joined by empty lines gives: each
/// block's header and text lines, with an empty line between blocks.
pub open spec fn block_parts(es: Seq<(Seq<char>, Seq<char>)>) -> Seq<Seq<char>>
    decreases es.len(),
{
    if es.len() == 0 {
        Seq::empty()
    } else if es.len() == 1 {
        seq![header_line(es[0].0)] + split(es[0].1, '\n')
    } else {
        block_parts(es.drop_last()) + seq![Seq::<char>::empty()] + seq![header_line(es.last().0)] + split(
            es.last().1,
            '\n',
        )
    }
}

/// Whether a section name can stand in a header line.
pub open spec fn name_plain(n: Seq<char>) -> bool {
    !n.contains('\n')
}

#[verifier::rlimit(40)]
#[verifier::spinoff_prover]
proof fn lemma_block_split(e: (Seq<char>, Seq<char>))
    requires
        name_plain(e.0),
    ensures
        split(block_text(e), '\n') == seq![header_line(e.0)] + split(e.1, '\n'),
{
    let h = header_line(e.0);
    assert(block_text(e) =~= h + seq!['\n'] + e.1);
    lemma_split_concat(h, e.1, '\n');
    assert(!h.contains('\n')) by {
        if h.contains('\n') {
            let i = choose|i: int| 0 <= i < h.len() && h[i] == '\n';
            if 1 <= i < 1 + e.0.len() {
                assert(e.0[i - 1] == '\n');
            }
        }
    }
    crate::text::lemma_split_join(seq![h], '\n');
    assert(join(seq![h], seq!['\n']) == h);
}

/// Splitting the blocks joined by empty lines gives the block parts.
#[verifier::rlimit(40)]
#[verifier::spinoff_prover]
pub proof fn lemma_blocks_split(es: Seq<(Seq<char>, Seq<char>)>)
    requires
        es.len() >= 1,
        forall|k: int| 0 <= k < es.len() ==> name_plain(#[trigger] es[k].0),
    ensures
        split(join(blocks_of(es), seq!['\n', '\n']), '\n') == block_parts(es),
    decreases es.len(),
{
    let bs = blocks_of(es);
    if es.len() == 1 {
        assert(bs.len() == 1);
        assert(join(bs, seq!['\n', '\n']) == bs[0]);
        lemma_block_split(es[0]);
    } else {
        let init = es.drop_last();
        assert forall|k: int| 0 <= k < init.len() implies name_plain(#[trigger] init[k].0) by {
            assert(init[k] == es[k]);
        }
        lemma_blocks_split(init);
        assert(bs.drop_last() =~= blocks_of(init));
        assert(bs.last() == block_text(es.last()));
        let x = join(blocks_of(init), seq!['\n', '\n']);
        let b = block_text(es.last());
        assert(join(bs, seq!['\n', '\n']) == x + seq!['\n', '\n'] + b);
        assert(x + seq!['\n', '\n'] + b =~= x + seq!['\n'] + (Seq::<char>::empty() + seq!['\n'] + b));
        lemma_split_concat(x, Seq::<char>::empty() + seq!['\n'] + b, '\n');
        lemma_split_concat(Seq::<char>::empty(), b, '\n');
        assert(split(Seq::<char>::empty(), '\n') == seq![Seq::<char>::empty()]);
        assert(es[es.len() - 1] == es.last());
        lemma_block_split(es.last());
        assert(split(join(bs, seq!['\n', '\n']), '\n') =~= block_parts(init) + seq![Seq::<char>::empty()]
            + (seq![header_line(es.last().0)] + split(es.last().1, '\n')));
    }
}


/// The lines of a text whose parts keep no carriage return at their end:
/// the parts, without a last empty one.
#[verifier::rlimit(40)]
#[verifier::spinoff_prover]
pub proof fn lemma_lines_of_parts(s: Seq<char>)
    requires
        forall|i: int| 0 <= i < split(s, '\n').len() ==> strip_cr(#[trigger] split(s, '\n')[i]) == split(s, '\n')[i],
    ensures
        lines(s) == (if split(s, '\n').last().len() == 0 {
            split(s, '\n').drop_last()
        } else {
            split(s, '\n')
        }),
{
    let p = split(s, '\n');
    lemma_split_len(s, '\n');
    if p.last().len() == 0 {
        assert(lines(s) =~= p.drop_last());
    } else {
        assert(p.last() == p[p.len() - 1]);
        assert(lines(s) =~= p);
    }
}

/// Lines added after a section that are no headers belong to it.
#[verifier::rlimit(40)]
#[verifier::spinoff_prover]
pub proof fn lemma_sections_append(ls: Seq<Seq<char>>, more: Seq<Seq<char>>, from: nat)
    requires
        sections_of(ls, from).len() > 0,
        forall|i: int| 0 <= i < more.len() ==> !is_header(#[trigger] more[i]),
    ensures
        sections_of(ls + more, from) == sections_of(ls, from).update(
            sections_of(ls, from).len() - 1,
            SectionText {
                lines: sections_of(ls, from).last().lines + more,
                ..sections_of(ls, from).last()
            },
        ),
    decreases more.len(),
{
    let prev = sections_of(ls, from);
    if more.len() == 0 {
        assert(ls + more =~= ls);
        assert(prev.last().lines + more =~= prev.last().lines);
        assert(prev.update(prev.len() - 1, SectionText { lines: prev.last().lines + more, ..prev.last() }) =~= prev);
    } else {
        let m0 = more.drop_last();
        assert forall|i: int| 0 <= i < m0.len() implies !is_header(#[trigger] m0[i]) by {
            assert(m0[i] == more[i]);
        }
        lemma_sections_append(ls, m0, from);
        let all = ls + more;
        assert(all.drop_last() =~= ls + m0);
        assert(all.last() == more[more.len() - 1]);
        assert(ls.len() > from) by {
            if ls.len() <= from {
                assert(sections_of(ls, from) =~= Seq::<SectionText>::empty());
            }
        }
        let q = sections_of(ls + m0, from);
        assert(q.last().lines == prev.last().lines + m0);
        let sq = SectionText { lines: q.last().lines.push(more.last()), ..q.last() };
        let sp = SectionText { lines: prev.last().lines + more, ..prev.last() };
        assert(sq.lines =~= sp.lines);
        assert(sq == sp);
        assert(q.len() == prev.len());
        assert(q.update(q.len() - 1, sq) =~= prev.update(prev.len() - 1, sp));
    }
}

/// A header line starts a new section.
pub proof fn lemma_sections_header(ls: Seq<Seq<char>>, h: Seq<char>, from: nat)
    requires
        ls.len() >= from,
        is_header(h),
    ensures
        sections_of(ls.push(h), from) == sections_of(ls, from).push(
            SectionText { name: header_name(h), header: ls.len(), lines: Seq::empty() },
        ),
{
    assert(ls.push(h).drop_last() =~= ls);
}

/// A header line as written is a header, and names its section.
pub proof fn lemma_header_line(n: Seq<char>)
    ensures
        is_header(header_line(n)),
        header_name(header_line(n)) == n,
{
    let h = header_line(n);
    assert(h[0] == '[');
    assert(h.last() == ']');
    crate::laws::lemma_trim_plain(h);
    assert(h.subrange(1, h.len() - 1) =~= n);
}

/// The sections found in the blocks: each with its name, the index of its
/// header line counted from the two empty lines that come first, and the
/// lines of its text, followed by the empty line before the next block.
pub open spec fn sections_spec(es: Seq<(Seq<char>, Seq<char>)>) -> Seq<SectionText>
    decreases es.len(),
{
    if es.len() == 0 {
        Seq::empty()
    } else if es.len() == 1 {
        seq![SectionText { name: es[0].0, header: 2, lines: split(es[0].1, '\n') }]
    } else {
        let prev = sections_spec(es.drop_last());
        prev.update(prev.len() - 1, SectionText { lines: prev.last().lines.push(Seq::<char>::empty()), ..prev.last() })
            .push(SectionText {
            name: es.last().0,
            header: 2 + block_parts(es.drop_last()).len() + 1,
            lines: split(es.last().1, '\n'),
        })
    }
}

/// Whether a section's text can stand in a block: none of its lines is a
/// header or ends with a carriage return, and it does not end with a line
/// break.
pub open spec fn text_plain(t: Seq<char>) -> bool {
    &&& forall|i: int| 0 <= i < split(t, '\n').len() ==> !is_header(#[trigger] split(t, '\n')[i])
    &&& forall|i: int| 0 <= i < split(t, '\n').len() ==> strip_cr(#[trigger] split(t, '\n')[i]) == split(t, '\n')[i]
    &&& (t.len() == 0 || t.last() != '\n')
}

/// Whether sections given by name and text can be written in blocks.
pub open spec fn entries_plain(es: Seq<(Seq<char>, Seq<char>)>) -> bool {
    forall|k: int| 0 <= k < es.len() ==> name_plain(#[trigger] es[k].0) && text_plain(es[k].1)
}

/// The sections of the lines of the blocks, after the two empty lines.
#[verifier::rlimit(40)]
#[verifier::spinoff_prover]
pub proof fn lemma_sections_of_blocks(es: Seq<(Seq<char>, Seq<char>)>)
    requires
        es.len() >= 1,
        entries_plain(es),
    ensures
        sections_of(seq![Seq::<char>::empty(), Seq::<char>::empty()] + block_parts(es), 2) == sections_spec(es),
        sections_spec(es).len() == es.len(),
        sections_spec(es).last().lines == split(es.last().1, '\n'),
    decreases es.len(),
{
    let e2 = seq![Seq::<char>::empty(), Seq::<char>::empty()];
    assert(sections_of(e2, 2) =~= Seq::<SectionText>::empty());
    let last = es.last();
    assert(last == es[es.len() - 1]);
    lemma_header_line(last.0);
    let t = split(last.1, '\n');
    assert(forall|i: int| 0 <= i < t.len() ==> !is_header(#[trigger] t[i]));
    if es.len() == 1 {
        let a = e2.push(header_line(last.0));
        lemma_sections_header(e2, header_line(last.0), 2);
        lemma_sections_append(a, t, 2);
        assert(e2 + block_parts(es) =~= a + t);
        assert(sections_of(a, 2)[0].lines + t =~= t);
    } else {
        let init = es.drop_last();
        assert forall|k: int| 0 <= k < init.len() implies name_plain(#[trigger] init[k].0) && text_plain(init[k].1) by {
            assert(init[k] == es[k]);
        }
        assert(entries_plain(init));
        lemma_sections_of_blocks(init);
        let b = e2 + block_parts(init);
        let e = seq![Seq::<char>::empty()];
        assert(!is_header(Seq::<char>::empty()));
        assert forall|i: int| 0 <= i < e.len() implies !is_header(#[trigger] e[i]) by {}
        lemma_sections_append(b, e, 2);
        let b2 = b + e;
        lemma_sections_header(b2, header_line(last.0), 2);
        let b3 = b2.push(header_line(last.0));
        lemma_sections_append(b3, t, 2);
        assert(e2 + block_parts(es) =~= b3 + t);
        let prev = sections_spec(init);
        assert(prev.last().lines + e =~= prev.last().lines.push(Seq::<char>::empty()));
        assert(b2.len() == 2 + block_parts(init).len() + 1);
        let s3 = sections_of(b3, 2);
        assert(s3.last().lines + t =~= t);
        assert(sections_of(b3 + t, 2) =~= sections_spec(es));
    }
}


/// The lines of each section found in the blocks.
#[verifier::rlimit(40)]
#[verifier::spinoff_prover]
pub proof fn lemma_sections_spec_at(es: Seq<(Seq<char>, Seq<char>)>, k: int)
    requires
        0 <= k < es.len(),
    ensures
        sections_spec(es).len() == es.len(),
        sections_spec(es)[k].name == es[k].0,
        sections_spec(es)[k].lines == (if k < es.len() - 1 {
            split(es[k].1, '\n').push(Seq::<char>::empty())
        } else {
            split(es[k].1, '\n')
        }),
    decreases es.len(),
{
    if es.len() > 1 {
        let init = es.drop_last();
        if k < es.len() - 1 {
            lemma_sections_spec_at(init, k);
            assert(init[k] == es[k]);
            if k < init.len() - 1 {
            } else {
                lemma_sections_spec_at(init, init.len() - 1);
            }
        } else {
            lemma_sections_spec_at(init, init.len() - 1);
            assert(es.last() == es[k]);
        }
    }
}

/// A section of a file given by its name, where its text exists.
pub open spec fn entry(name: Seq<char>, t: Option<Seq<char>>) -> Seq<(Seq<char>, Seq<char>)> {
    match t {
        Some(c) => seq![(name, c)],
        None => Seq::empty(),
    }
}

/// The sections of a file that are written, by name and text, in order.
pub open spec fn file_entries(f: OsuFileView) -> Seq<(Seq<char>, Seq<char>)> {
    let v = f.version;
    entry(general_word(), match f.general { Some(x) => General::text_of(x, v), None => None })
        + entry(editor_word(), match f.editor { Some(x) => Editor::text_of(x, v), None => None })
        + entry(metadata_word(), match f.metadata { Some(x) => Metadata::text_of(x, v), None => None })
        + entry(difficulty_word(), match f.difficulty { Some(x) => Difficulty::text_of(x, v), None => None })
        + entry(events_name(), match f.events { Some(x) => Events::text_of(x, v), None => None })
        + entry(timing_points_word(), match f.timing_points { Some(x) => TimingPoints::text_of(x, v), None => None })
        + entry(colours_word(), match f.colours { Some(x) => Colours::text_of(x, v), None => None })
        + entry(hitobjects_word(), match f.hitobjects { Some(x) => HitObjects::text_of(x, v), None => None })
}

proof fn lemma_blocks_of_concat(a: Seq<(Seq<char>, Seq<char>)>, b: Seq<(Seq<char>, Seq<char>)>)
    ensures
        blocks_of(a + b) == blocks_of(a) + blocks_of(b),
{
    assert(blocks_of(a + b) =~= blocks_of(a) + blocks_of(b));
}

#[verifier::rlimit(40)]
#[verifier::spinoff_prover]
proof fn lemma_block_of_entry(name: Seq<char>, t: Option<Seq<char>>)
    ensures
        blocks_of(entry(name, t)) == block(name, t),
{
    match t {
        Some(c) => {
            assert(blocks_of(entry(name, t)) =~= seq![block_text((name, c))]);
            assert(block_text((name, c)) =~= seq!['['] + name + seq![']', '\n'] + c);
        },
        None => {
            assert(blocks_of(entry(name, t)) =~= Seq::<Seq<char>>::empty());
        },
    }
}

/// The blocks of a file are those of its written sections.
#[verifier::rlimit(40)]
#[verifier::spinoff_prover]
pub proof fn lemma_file_blocks(f: OsuFileView)
    ensures
        file_blocks(f) == blocks_of(file_entries(f)),
{
    let v = f.version;
    let t0 = match f.general { Some(x) => General::text_of(x, v), None => None };
    let t1 = match f.editor { Some(x) => Editor::text_of(x, v), None => None };
    let t2 = match f.metadata { Some(x) => Metadata::text_of(x, v), None => None };
    let t3 = match f.difficulty { Some(x) => Difficulty::text_of(x, v), None => None };
    let t4 = match f.events { Some(x) => Events::text_of(x, v), None => None };
    let t5 = match f.timing_points { Some(x) => TimingPoints::text_of(x, v), None => None };
    let t6 = match f.colours { Some(x) => Colours::text_of(x, v), None => None };
    let t7 = match f.hitobjects { Some(x) => HitObjects::text_of(x, v), None => None };
    let e0 = entry(general_word(), t0);
    let e1 = entry(editor_word(), t1);
    let e2 = entry(metadata_word(), t2);
    let e3 = entry(difficulty_word(), t3);
    let e4 = entry(events_name(), t4);
    let e5 = entry(timing_points_word(), t5);
    let e6 = entry(colours_word(), t6);
    let e7 = entry(hitobjects_word(), t7);
    lemma_block_of_entry(general_word(), t0);
    lemma_block_of_entry(editor_word(), t1);
    lemma_block_of_entry(metadata_word(), t2);
    lemma_block_of_entry(difficulty_word(), t3);
    lemma_block_of_entry(events_name(), t4);
    lemma_block_of_entry(timing_points_word(), t5);
    lemma_block_of_entry(colours_word(), t6);
    lemma_block_of_entry(hitobjects_word(), t7);
    lemma_blocks_of_concat(e0, e1);
    lemma_blocks_of_concat(e0 + e1, e2);
    lemma_blocks_of_concat(e0 + e1 + e2, e3);
    lemma_blocks_of_concat(e0 + e1 + e2 + e3, e4);
    lemma_blocks_of_concat(e0 + e1 + e2 + e3 + e4, e5);
    lemma_blocks_of_concat(e0 + e1 + e2 + e3 + e4 + e5, e6);
    lemma_blocks_of_concat(e0 + e1 + e2 + e3 + e4 + e5 + e6, e7);
}


/// The version line of a written file reads as its version, and the text
/// after it is the two line breaks and the blocks.
#[verifier::rlimit(40)]
#[verifier::spinoff_prover]
pub proof fn lemma_version_line(f: OsuFileView)
    requires
        3 <= f.version <= 14,
    ensures
        version_line_parse(osu_file_text(f)) == Ok::<(usize, Seq<char>, nat), ParseError>(
            (f.version, seq!['\n', '\n'] + join(file_blocks(f), seq!['\n', '\n']), 0nat),
        ),
{
    let d = int_text(f.version as int);
    let j = join(file_blocks(f), seq!['\n', '\n']);
    let r = seq!['\n', '\n'] + j;
    let t = osu_file_text(f);
    assert(t =~= format_prefix() + d + r);
    assert(t[0] == 'o');
    assert(multispace_len(t) == 0);
    assert(t.skip(0) =~= t);
    assert(t.take(17) =~= format_prefix());
    let b = t.skip(17);
    assert(b =~= d + r);
    crate::laws::lemma_int_text_plain(f.version as int, '\r');
    crate::laws::lemma_int_text_plain(f.version as int, '\n');
    crate::laws::lemma_line_end_digits(d, r);
    assert(line_end(r) == 0);
    assert(b.take(d.len() as int) =~= d);
    assert(b.skip(d.len() as int) =~= r);
    lemma_parse_int_text(f.version as int, 0, u32::MAX as int);
    assert(t.take(0) =~= Seq::<char>::empty());
    assert(split(Seq::<char>::empty(), '\n') == seq![Seq::<char>::empty()]);
    assert(lines(Seq::<char>::empty()) =~= Seq::<Seq<char>>::empty());
}

/// The lines after the version line of a written file with sections: two
/// empty lines, then the block parts, without a last empty line.
#[verifier::rlimit(40)]
#[verifier::spinoff_prover]
pub proof fn lemma_rest_lines(es: Seq<(Seq<char>, Seq<char>)>)
    requires
        es.len() >= 1,
        entries_plain(es),
    ensures
        lines(seq!['\n', '\n'] + join(blocks_of(es), seq!['\n', '\n'])) == (if es.last().1.len() == 0 {
            (seq![Seq::<char>::empty(), Seq::<char>::empty()] + block_parts(es)).drop_last()
        } else {
            seq![Seq::<char>::empty(), Seq::<char>::empty()] + block_parts(es)
        }),
{
    let j = join(blocks_of(es), seq!['\n', '\n']);
    let r = seq!['\n', '\n'] + j;
    let e = Seq::<char>::empty();
    assert(r =~= e + seq!['\n'] + (e + seq!['\n'] + j));
    lemma_split_concat(e, e + seq!['\n'] + j, '\n');
    lemma_split_concat(e, j, '\n');
    lemma_blocks_split(es);
    assert(split(e, '\n') == seq![e]);
    let parts = seq![e, e] + block_parts(es);
    assert(split(r, '\n') =~= parts);
    lemma_block_parts_shape(es);
    assert forall|i: int| 0 <= i < parts.len() implies strip_cr(#[trigger] parts[i]) == parts[i] by {
        if i >= 2 {
            assert(parts[i] == block_parts(es)[i - 2]);
        }
    }
    lemma_lines_of_parts(r);
    let last = es.last();
    assert(last == es[es.len() - 1]);
    lemma_split_len(last.1, '\n');
    if last.1.len() == 0 {
        assert(split(last.1, '\n') == seq![e]);
    } else {
        lemma_split_last(last.1);
    }
}

/// The last part of a split of a text that does not end with a line break
/// is not empty.
pub proof fn lemma_split_last(t: Seq<char>)
    requires
        t.len() > 0,
        t.last() != '\n',
    ensures
        split(t, '\n').last().len() > 0,
{
    lemma_split_len(t.drop_last(), '\n');
}

/// Each block part keeps no carriage return at its end, and the block parts
/// end with the parts of the last text.
#[verifier::rlimit(40)]
#[verifier::spinoff_prover]
pub proof fn lemma_block_parts_shape(es: Seq<(Seq<char>, Seq<char>)>)
    requires
        es.len() >= 1,
        entries_plain(es),
    ensures
        forall|i: int| 0 <= i < block_parts(es).len() ==> strip_cr(#[trigger] block_parts(es)[i]) == block_parts(es)[i],
        block_parts(es).last() == split(es.last().1, '\n').last(),
    decreases es.len(),
{
    let last = es.last();
    assert(last == es[es.len() - 1]);
    let h = header_line(last.0);
    assert(h.last() == ']');
    let t = split(last.1, '\n');
    lemma_split_len(last.1, '\n');
    if es.len() == 1 {
        assert(block_parts(es) == seq![h] + t);
        assert forall|i: int| 0 <= i < block_parts(es).len() implies strip_cr(#[trigger] block_parts(es)[i]) == block_parts(es)[i] by {
            if i >= 1 {
                assert(block_parts(es)[i] == t[i - 1]);
            }
        }
    } else {
        let init = es.drop_last();
        assert forall|k: int| 0 <= k < init.len() implies name_plain(#[trigger] init[k].0) && text_plain(init[k].1) by {
            assert(init[k] == es[k]);
        }
        lemma_block_parts_shape(init);
        let p = block_parts(init);
        let all = block_parts(es);
        assert(all == p + seq![Seq::<char>::empty()] + seq![h] + t);
        assert forall|i: int| 0 <= i < all.len() implies strip_cr(#[trigger] all[i]) == all[i] by {
            if i < p.len() {
                assert(all[i] == p[i]);
            } else if i == p.len() {
            } else if i == p.len() + 1 {
            } else {
                assert(all[i] == t[i - p.len() - 2]);
            }
        }
    }
}


/// The place of a section name in the order sections are written.
pub open spec fn word_rank(n: Seq<char>) -> int {
    if n == general_word() {
        0
    } else if n == editor_word() {
        1
    } else if n == metadata_word() {
        2
    } else if n == difficulty_word() {
        3
    } else if n == events_name() {
        4
    } else if n == timing_points_word() {
        5
    } else if n == colours_word() {
        6
    } else if n == hitobjects_word() {
        7
    } else {
        -1
    }
}

/// The section names differ from each other, so each has its own place.
#[verifier::rlimit(40)]
#[verifier::spinoff_prover]
pub proof fn lemma_word_ranks()
    ensures
        word_rank(general_word()) == 0,
        word_rank(editor_word()) == 1,
        word_rank(metadata_word()) == 2,
        word_rank(difficulty_word()) == 3,
        word_rank(events_name()) == 4,
        word_rank(timing_points_word()) == 5,
        word_rank(colours_word()) == 6,
        word_rank(hitobjects_word()) == 7,
{
    assert(general_word()[0] == 'G' && editor_word()[0] == 'E' && metadata_word()[0] == 'M');
    assert(difficulty_word()[0] == 'D' && events_name()[0] == 'E' && timing_points_word()[0] == 'T');
    assert(colours_word()[0] == 'C' && hitobjects_word()[0] == 'H');
    assert(editor_word()[1] == 'd' && events_name()[1] == 'v');
    assert(general_word().len() == 7 && editor_word().len() == 6 && metadata_word().len() == 8);
    assert(difficulty_word().len() == 10 && events_name().len() == 6 && timing_points_word().len() == 12);
    assert(colours_word().len() == 7 && hitobjects_word().len() == 10);
}

/// Whether the names of the entries come in the order sections are written,
/// each at most once.
pub open spec fn entries_sorted(es: Seq<(Seq<char>, Seq<char>)>, below: int) -> bool {
    &&& forall|i: int| 0 <= i < es.len() ==> 0 <= #[trigger] word_rank(es[i].0) < below
    &&& forall|i: int, j: int| 0 <= i < j < es.len() ==> word_rank(#[trigger] es[i].0) < word_rank(#[trigger] es[j].0)
}

#[verifier::rlimit(40)]
#[verifier::spinoff_prover]
proof fn lemma_sorted_push(a: Seq<(Seq<char>, Seq<char>)>, name: Seq<char>, t: Option<Seq<char>>, r: int)
    requires
        entries_sorted(a, r),
        word_rank(name) == r,
        0 <= r,
    ensures
        entries_sorted(a + entry(name, t), r + 1),
{
    let b = a + entry(name, t);
    assert forall|i: int| 0 <= i < b.len() implies 0 <= #[trigger] word_rank(b[i].0) < r + 1 by {
        if i < a.len() {
            assert(b[i] == a[i]);
        } else {
            assert(b[i] == entry(name, t)[i - a.len()]);
        }
    }
    assert forall|i: int, j: int| 0 <= i < j < b.len() implies word_rank(#[trigger] b[i].0) < word_rank(#[trigger] b[j].0) by {
        assert(b[i] == a[i]);
        if j < a.len() {
            assert(b[j] == a[j]);
        } else {
            assert(b[j] == entry(name, t)[j - a.len()]);
        }
    }
}

/// The written sections of a file come in order, each at most once.
#[verifier::rlimit(40)]
#[verifier::spinoff_prover]
pub proof fn lemma_entries_sorted(f: OsuFileView)
    ensures
        entries_sorted(file_entries(f), 8),
{
    lemma_word_ranks();
    let v = f.version;
    let t0 = match f.general { Some(x) => General::text_of(x, v), None => None };
    let t1 = match f.editor { Some(x) => Editor::text_of(x, v), None => None };
    let t2 = match f.metadata { Some(x) => Metadata::text_of(x, v), None => None };
    let t3 = match f.difficulty { Some(x) => Difficulty::text_of(x, v), None => None };
    let t4 = match f.events { Some(x) => Events::text_of(x, v), None => None };
    let t5 = match f.timing_points { Some(x) => TimingPoints::text_of(x, v), None => None };
    let t6 = match f.colours { Some(x) => Colours::text_of(x, v), None => None };
    let t7 = match f.hitobjects { Some(x) => HitObjects::text_of(x, v), None => None };
    let z = Seq::<(Seq<char>, Seq<char>)>::empty();
    lemma_sorted_push(z, general_word(), t0, 0);
    assert(z + entry(general_word(), t0) =~= entry(general_word(), t0));
    let a0 = entry(general_word(), t0);
    lemma_sorted_push(a0, editor_word(), t1, 1);
    let a1 = a0 + entry(editor_word(), t1);
    lemma_sorted_push(a1, metadata_word(), t2, 2);
    let a2 = a1 + entry(metadata_word(), t2);
    lemma_sorted_push(a2, difficulty_word(), t3, 3);
    let a3 = a2 + entry(difficulty_word(), t3);
    lemma_sorted_push(a3, events_name(), t4, 4);
    let a4 = a3 + entry(events_name(), t4);
    lemma_sorted_push(a4, timing_points_word(), t5, 5);
    let a5 = a4 + entry(timing_points_word(), t5);
    lemma_sorted_push(a5, colours_word(), t6, 6);
    let a6 = a5 + entry(colours_word(), t6);
    lemma_sorted_push(a6, hitobjects_word(), t7, 7);
}

/// The file with the section of the given name taken from `f`.
pub open spec fn take_section(g: OsuFileView, name: Seq<char>, f: OsuFileView) -> OsuFileView {
    if name == general_word() {
        OsuFileView { general: f.general, ..g }
    } else if name == editor_word() {
        OsuFileView { editor: f.editor, ..g }
    } else if name == metadata_word() {
        OsuFileView { metadata: f.metadata, ..g }
    } else if name == difficulty_word() {
        OsuFileView { difficulty: f.difficulty, ..g }
    } else if name == events_name() {
        OsuFileView { events: f.events, ..g }
    } else if name == timing_points_word() {
        OsuFileView { timing_points: f.timing_points, ..g }
    } else if name == colours_word() {
        OsuFileView { colours: f.colours, ..g }
    } else {
        OsuFileView { hitobjects: f.hitobjects, ..g }
    }
}

/// The file with the sections of the entries taken from `f`, in order.
pub open spec fn take_sections(g: OsuFileView, es: Seq<(Seq<char>, Seq<char>)>, f: OsuFileView) -> OsuFileView
    decreases es.len(),
{
    if es.len() == 0 {
        g
    } else {
        take_section(take_sections(g, es.drop_last(), f), es.last().0, f)
    }
}

#[verifier::rlimit(40)]
#[verifier::spinoff_prover]
proof fn lemma_take_concat(g: OsuFileView, a: Seq<(Seq<char>, Seq<char>)>, b: Seq<(Seq<char>, Seq<char>)>, f: OsuFileView)
    ensures
        take_sections(g, a + b, f) == take_sections(take_sections(g, a, f), b, f),
    decreases b.len(),
{
    if b.len() == 0 {
        assert(a + b =~= a);
    } else {
        assert((a + b).drop_last() =~= a + b.drop_last());
        assert((a + b).last() == b.last());
        lemma_take_concat(g, a, b.drop_last(), f);
    }
}

/// Taking the written sections of a file from it into an empty file of its
/// version gives the file, where it has no storyboard and each of its
/// sections is written.
#[verifier::rlimit(50)]
#[verifier::spinoff_prover]
pub proof fn lemma_take_all(f: OsuFileView)
    requires
        f.osb is None,
        sections_written(f),
    ensures
        take_sections(empty_file(f.version), file_entries(f), f) == f,
{
    lemma_word_ranks();
    let v = f.version;
    let t0 = match f.general { Some(x) => General::text_of(x, v), None => None };
    let t1 = match f.editor { Some(x) => Editor::text_of(x, v), None => None };
    let t2 = match f.metadata { Some(x) => Metadata::text_of(x, v), None => None };
    let t3 = match f.difficulty { Some(x) => Difficulty::text_of(x, v), None => None };
    let t4 = match f.events { Some(x) => Events::text_of(x, v), None => None };
    let t5 = match f.timing_points { Some(x) => TimingPoints::text_of(x, v), None => None };
    let t6 = match f.colours { Some(x) => Colours::text_of(x, v), None => None };
    let t7 = match f.hitobjects { Some(x) => HitObjects::text_of(x, v), None => None };
    let e0 = entry(general_word(), t0);
    let e1 = entry(editor_word(), t1);
    let e2 = entry(metadata_word(), t2);
    let e3 = entry(difficulty_word(), t3);
    let e4 = entry(events_name(), t4);
    let e5 = entry(timing_points_word(), t5);
    let e6 = entry(colours_word(), t6);
    let e7 = entry(hitobjects_word(), t7);
    let g0 = empty_file(v);
    lemma_take_concat(g0, e0, e1, f);
    lemma_take_concat(g0, e0 + e1, e2, f);
    lemma_take_concat(g0, e0 + e1 + e2, e3, f);
    lemma_take_concat(g0, e0 + e1 + e2 + e3, e4, f);
    lemma_take_concat(g0, e0 + e1 + e2 + e3 + e4, e5, f);
    lemma_take_concat(g0, e0 + e1 + e2 + e3 + e4 + e5, e6, f);
    lemma_take_concat(g0, e0 + e1 + e2 + e3 + e4 + e5 + e6, e7, f);
    let g1 = take_sections(g0, e0, f);
    lemma_take_entry(g0, general_word(), t0, f);
    let g2 = take_sections(g1, e1, f);
    lemma_take_entry(g1, editor_word(), t1, f);
    let g3 = take_sections(g2, e2, f);
    lemma_take_entry(g2, metadata_word(), t2, f);
    let g4 = take_sections(g3, e3, f);
    lemma_take_entry(g3, difficulty_word(), t3, f);
    let g5 = take_sections(g4, e4, f);
    lemma_take_entry(g4, events_name(), t4, f);
    let g6 = take_sections(g5, e5, f);
    lemma_take_entry(g5, timing_points_word(), t5, f);
    let g7 = take_sections(g6, e6, f);
    lemma_take_entry(g6, colours_word(), t6, f);
    let g8 = take_sections(g7, e7, f);
    lemma_take_entry(g7, hitobjects_word(), t7, f);
    assert(g8.general == f.general);
    assert(g8.editor == f.editor);
    assert(g8.metadata == f.metadata);
    assert(g8.difficulty == f.difficulty);
    assert(g8.events == f.events);
    assert(g8.timing_points == f.timing_points);
    assert(g8.colours == f.colours);
    assert(g8.hitobjects == f.hitobjects);
    assert(g8.osb == f.osb && g8.version == f.version);
}

/// Taking the section of one entry.
proof fn lemma_take_entry(g: OsuFileView, name: Seq<char>, t: Option<Seq<char>>, f: OsuFileView)
    ensures
        take_sections(g, entry(name, t), f) == (if t is Some {
            take_section(g, name, f)
        } else {
            g
        }),
{
    reveal_with_fuel(take_sections, 2);
    if t is Some {
        assert(entry(name, t).drop_last() =~= Seq::<(Seq<char>, Seq<char>)>::empty());
    }
}

/// Whether each section of the file has a text in its version, so that it is
/// written.
pub open spec fn sections_written(f: OsuFileView) -> bool {
    let v = f.version;
    &&& (f.general matches Some(x) ==> General::text_of(x, v) is Some)
    &&& (f.editor matches Some(x) ==> Editor::text_of(x, v) is Some)
    &&& (f.metadata matches Some(x) ==> Metadata::text_of(x, v) is Some)
    &&& (f.difficulty matches Some(x) ==> Difficulty::text_of(x, v) is Some)
    &&& (f.events matches Some(x) ==> Events::text_of(x, v) is Some)
    &&& (f.timing_points matches Some(x) ==> TimingPoints::text_of(x, v) is Some)
    &&& (f.colours matches Some(x) ==> Colours::text_of(x, v) is Some)
    &&& (f.hitobjects matches Some(x) ==> HitObjects::text_of(x, v) is Some)
}


/// Whether reading the text of a section of the given name gives the section
/// of `f` of that name.
pub open spec fn entry_reads_back(f: OsuFileView, name: Seq<char>, t: Seq<char>) -> bool {
    let v = f.version;
    if name == general_word() {
        f.general is Some && General::parse_text(t, v) == Ok::<Option<GeneralView>, Error<GeneralParseError>>(f.general)
    } else if name == editor_word() {
        f.editor is Some && Editor::parse_text(t, v) == Ok::<Option<EditorView>, Error<EditorParseError>>(f.editor)
    } else if name == metadata_word() {
        f.metadata is Some && Metadata::parse_text(t, v) == Ok::<Option<MetadataView>, Error<MetadataParseError>>(f.metadata)
    } else if name == difficulty_word() {
        f.difficulty is Some && Difficulty::parse_text(t, v) == Ok::<Option<DifficultyView>, Error<DifficultyParseError>>(f.difficulty)
    } else if name == events_name() {
        f.events is Some && !events_stuck(t, v, Seq::empty()) && events_parse(t, v, Seq::empty()) == Ok::<
            Seq<EventView>,
            Error<EventsParseError>,
        >(f.events.unwrap())
    } else if name == timing_points_word() {
        f.timing_points is Some && TimingPoints::parse_text(t, v) == Ok::<Option<Seq<TimingPointView>>, Error<TimingPointsParseError>>(f.timing_points)
    } else if name == colours_word() {
        f.colours is Some && Colours::parse_text(t, v) == Ok::<Option<Seq<Colour>>, Error<ColoursParseError>>(f.colours)
    } else if name == hitobjects_word() {
        f.hitobjects is Some && HitObjects::parse_text(t, v) == Ok::<Option<Seq<HitObjectView>>, Error<HitObjectsParseError>>(f.hitobjects)
    } else {
        false
    }
}

/// A line break after a section's text adds no line, or only an empty one
/// where the text is empty.
#[verifier::rlimit(40)]
#[verifier::spinoff_prover]
pub proof fn lemma_lines_newline(t: Seq<char>)
    requires
        text_plain(t),
    ensures
        t.len() > 0 ==> lines(t + seq!['\n']) == lines(t),
        t.len() == 0 ==> lines(t + seq!['\n']) == seq![Seq::<char>::empty()] && lines(t) == Seq::<Seq<char>>::empty(),
{
    let e = Seq::<char>::empty();
    let tn = t + seq!['\n'];
    assert(tn == t.push('\n'));
    lemma_split_push_sep(t, '\n');
    let p = split(t, '\n');
    lemma_split_len(t, '\n');
    assert(split(tn, '\n') == p.push(e));
    assert forall|i: int| 0 <= i < split(tn, '\n').len() implies strip_cr(#[trigger] split(tn, '\n')[i]) == split(tn, '\n')[i] by {
        if i < p.len() {
            assert(split(tn, '\n')[i] == p[i]);
        }
    }
    lemma_lines_of_parts(tn);
    assert(p.push(e).drop_last() =~= p);
    if t.len() > 0 {
        lemma_split_last(t);
        lemma_lines_of_parts(t);
    } else {
        assert(p == seq![e]);
        assert(lines(t) =~= Seq::<Seq<char>>::empty());
    }
}

/// Reading a section's text followed by a line break gives what reading the
/// text gives.
#[verifier::rlimit(40)]
#[verifier::spinoff_prover]
pub proof fn lemma_body_reads_back(f: OsuFileView, name: Seq<char>, t: Seq<char>)
    requires
        entry_reads_back(f, name, t),
        text_plain(t),
    ensures
        entry_reads_back(f, name, t + seq!['\n']),
{
    lemma_lines_newline(t);
    let e = Seq::<char>::empty();
    let v = f.version;
    if t.len() == 0 {
        let one = seq![e];
        assert(one.drop_last() =~= Seq::<Seq<char>>::empty());
        assert(one.last() == e);
        assert(trim(e) =~= e);
        assert(crate::general::lines_parse(one, v) == crate::general::lines_parse(Seq::empty(), v));
        assert(crate::editor::lines_parse(one, v) == crate::editor::lines_parse(Seq::empty(), v));
        assert(crate::metadata::lines_parse(one, v) == crate::metadata::lines_parse(Seq::empty(), v));
        assert(crate::difficulty::lines_parse(one, v) == crate::difficulty::lines_parse(Seq::empty(), v));
        assert(events_fold(one, v, Seq::empty()) == events_fold(Seq::empty(), v, Seq::empty()));
        assert(crate::timingpoints::timing_lines_parse(one) == crate::timingpoints::timing_lines_parse(Seq::empty()));
        assert(crate::colours::colour_lines_parse(one) == crate::colours::colour_lines_parse(Seq::empty()));
        assert(crate::hitobjects::hitobject_lines_parse(one, v) == crate::hitobjects::hitobject_lines_parse(Seq::empty(), v));
    }
}

/// Reading one section of a written file, where its text reads back.
pub proof fn lemma_section_step(acc: OsuAcc, sec: SectionText, f: OsuFileView)
    requires
        !acc.seen.contains(sec.name),
        entry_reads_back(f, sec.name, section_body(sec)),
    ensures
        osu_section_step(acc, sec, 0, f.version) == Ok::<OsuAcc, Option<Error<ParseError>>>(
            OsuAcc { seen: acc.seen.push(sec.name), file: take_section(acc.file, sec.name, f) },
        ),
{
    reveal(osu_section_step);
}


/// The lines of the last section: those of its text, none where it is empty.
pub open spec fn last_lines(t: Seq<char>) -> Seq<Seq<char>> {
    if t.len() == 0 {
        Seq::empty()
    } else {
        split(t, '\n')
    }
}

/// The sections read from the text of the blocks.
pub open spec fn final_sections(es: Seq<(Seq<char>, Seq<char>)>) -> Seq<SectionText> {
    let s = sections_spec(es);
    s.update(s.len() - 1, SectionText { lines: last_lines(es.last().1), ..s.last() })
}

/// The lines after the version line of a written file are read as the
/// sections of its blocks.
#[verifier::rlimit(40)]
#[verifier::spinoff_prover]
pub proof fn lemma_final_sections(es: Seq<(Seq<char>, Seq<char>)>)
    requires
        es.len() >= 1,
        entries_plain(es),
    ensures
        sections_of(lines(seq!['\n', '\n'] + join(blocks_of(es), seq!['\n', '\n'])), 2) == final_sections(es),
        final_sections(es).len() == es.len(),
{
    lemma_rest_lines(es);
    lemma_sections_of_blocks(es);
    let e2 = seq![Seq::<char>::empty(), Seq::<char>::empty()];
    let full = e2 + block_parts(es);
    let sp = sections_spec(es);
    let last = es.last();
    assert(last == es[es.len() - 1]);
    if last.1.len() == 0 {
        lemma_block_parts_shape(es);
        assert(split(last.1, '\n') == seq![Seq::<char>::empty()]);
        assert(full.last() == block_parts(es).last());
        assert(full.drop_last().push(full.last()) =~= full);
        assert(!is_header(Seq::<char>::empty()));
        let prev = sections_of(full.drop_last(), 2);
        assert(full.len() > 2);
        if prev.len() == 0 {
            assert(sections_of(full, 2) == prev);
            assert(false);
        }
        assert(sp == prev.update(prev.len() - 1, SectionText { lines: prev.last().lines.push(Seq::<char>::empty()), ..prev.last() }));
        assert(sp.last().lines == prev.last().lines.push(Seq::<char>::empty()));
        assert(prev.last().lines.len() == 0);
        assert(prev.last().lines =~= last_lines(last.1));
        let fs = final_sections(es);
        assert(fs.len() == prev.len());
        assert forall|i: int| 0 <= i < fs.len() implies fs[i] == prev[i] by {
            if i < fs.len() - 1 {
                assert(fs[i] == sp[i]);
                assert(sp[i] == prev[i]);
            } else {
                assert(fs[i].lines =~= prev[i].lines);
            }
        }
        assert(fs =~= prev);
    } else {
        lemma_split_last(last.1);
        let fs = final_sections(es);
        assert(fs =~= sp) by {
            assert(sp.last().lines == split(last.1, '\n'));
            assert forall|i: int| 0 <= i < fs.len() implies fs[i] == sp[i] by {
                if i == fs.len() - 1 {
                    assert(fs[i].lines =~= sp[i].lines);
                }
            }
        }
    }
}

/// The names of the entries.
pub open spec fn names(es: Seq<(Seq<char>, Seq<char>)>) -> Seq<Seq<char>> {
    es.map_values(|e: (Seq<char>, Seq<char>)| e.0)
}

/// Whether each written section reads back from its text, and its text can
/// stand in a block.
pub open spec fn entries_read_back(f: OsuFileView, es: Seq<(Seq<char>, Seq<char>)>) -> bool {
    forall|k: int| 0 <= k < es.len() ==> entry_reads_back(f, #[trigger] es[k].0, es[k].1) && text_plain(es[k].1)
}

/// The text that each section read from the blocks holds.
#[verifier::rlimit(40)]
#[verifier::spinoff_prover]
proof fn lemma_final_body(es: Seq<(Seq<char>, Seq<char>)>, k: int)
    requires
        0 <= k < es.len(),
    ensures
        final_sections(es)[k].name == es[k].0,
        section_body(final_sections(es)[k]) == (if k < es.len() - 1 {
            es[k].1 + seq!['\n']
        } else {
            es[k].1
        }),
{
    lemma_sections_spec_at(es, k);
    let t = es[k].1;
    let p = split(t, '\n');
    lemma_split_len(t, '\n');
    crate::laws::lemma_join_split(t, '\n');
    if k < es.len() - 1 {
        assert(p.push(Seq::<char>::empty()).drop_last() =~= p);
        assert(join(p.push(Seq::<char>::empty()), seq!['\n']) == join(p, seq!['\n']) + seq!['\n'] + Seq::<char>::empty());
        assert(t + seq!['\n'] + Seq::<char>::empty() =~= t + seq!['\n']);
    } else {
        assert(es.last() == es[k]);
        if t.len() == 0 {
            assert(join(Seq::<Seq<char>>::empty(), seq!['\n']) =~= t);
        }
    }
}

/// Reading the sections of the blocks in order takes the sections of the
/// file one by one.
#[verifier::rlimit(40)]
#[verifier::spinoff_prover]
pub proof fn lemma_fold_sections(f: OsuFileView, es: Seq<(Seq<char>, Seq<char>)>, k: int)
    requires
        es.len() >= 1,
        0 <= k <= es.len(),
        entries_sorted(es, 8),
        entries_read_back(f, es),
    ensures
        osu_fold(final_sections(es).take(k), 0, f.version) == Ok::<OsuAcc, Option<Error<ParseError>>>(
            OsuAcc { seen: names(es.take(k)), file: take_sections(empty_file(f.version), es.take(k), f) },
        ),
    decreases k,
{
    let fs = final_sections(es);
    lemma_sections_spec_at(es, 0);
    if k == 0 {
        assert(fs.take(0) =~= Seq::<SectionText>::empty());
        assert(es.take(0) =~= Seq::<(Seq<char>, Seq<char>)>::empty());
        assert(names(es.take(0)) =~= Seq::<Seq<char>>::empty());
    } else {
        let i = k - 1;
        lemma_fold_sections(f, es, i);
        assert(fs.take(k).drop_last() =~= fs.take(i));
        assert(fs.take(k).last() == fs[i]);
        assert(es.take(k).drop_last() =~= es.take(i));
        assert(es.take(k).last() == es[i]);
        lemma_final_body(es, i);
        let sec = fs[i];
        assert(entry_reads_back(f, es[i].0, es[i].1) && text_plain(es[i].1));
        if i < es.len() - 1 {
            lemma_body_reads_back(f, es[i].0, es[i].1);
        }
        let seen = names(es.take(i));
        assert(!seen.contains(sec.name)) by {
            if seen.contains(sec.name) {
                let j = choose|j: int| 0 <= j < seen.len() && seen[j] == sec.name;
                assert(seen[j] == es.take(i)[j].0);
                assert(es.take(i)[j] == es[j]);
                assert(word_rank(es[j].0) < word_rank(es[i].0));
            }
        }
        let acc = OsuAcc { seen, file: take_sections(empty_file(f.version), es.take(i), f) };
        lemma_section_step(acc, sec, f);
        assert(names(es.take(k)) =~= seen.push(es[i].0));
    }
}

/// Whether each section of the file is written, reads back from its text,
/// and its text can stand in a block.
pub open spec fn sections_read_back(f: OsuFileView) -> bool {
    sections_written(f) && entries_read_back(f, file_entries(f))
}

/// The first block part is the header of the first section.
proof fn lemma_block_parts_first(es: Seq<(Seq<char>, Seq<char>)>)
    requires
        es.len() >= 1,
    ensures
        block_parts(es).len() >= 1,
        block_parts(es)[0] == header_line(es[0].0),
    decreases es.len(),
{
    if es.len() > 1 {
        lemma_block_parts_first(es.drop_last());
        assert(es.drop_last()[0] == es[0]);
    }
}

/// Reading the text of a written `.osu` file and writing what was read gives
/// the text back, so the two texts are equal once trimmed; for the files
/// that `law_osu_file_round_trip` covers.
pub proof fn law_osu_file_text_round_trip(s: Seq<char>, f: OsuFileView)
    requires
        s == osu_file_text(f),
        3 <= f.version <= 14,
        f.osb is None,
        sections_read_back(f),
    ensures
        osu_file_parse(s) matches Ok(g) && osu_file_text(g) == s
            && crate::compare::trimmed(osu_file_text(g)) == crate::compare::trimmed(s),
{
    law_osu_file_round_trip(f);
}

/// Reading a written `.osu` file gives it back, where the file has no
/// storyboard (a storyboard is written apart from the file) and each of its
/// sections is written in the version, reads back from its text, and its
/// text has no line that looks like a section header or ends with a carriage
/// return and does not end with a line break. The laws of the sections tell
/// when a section reads back.
#[verifier::rlimit(40)]
#[verifier::spinoff_prover]
pub proof fn law_osu_file_round_trip(f: OsuFileView)
    requires
        3 <= f.version <= 14,
        f.osb is None,
        sections_read_back(f),
    ensures
        osu_file_parse(osu_file_text(f)) == Ok::<OsuFileView, Error<ParseError>>(f),
{
    let es = file_entries(f);
    lemma_take_all(f);
    if es.len() == 0 {
        assert(take_sections(empty_file(f.version), es, f) == empty_file(f.version));
        crate::laws::law_empty_file_round_trip(f.version);
    } else {
        lemma_version_line(f);
        lemma_file_blocks(f);
        lemma_entries_sorted(f);
        lemma_entries_plain(f);
        let r = seq!['\n', '\n'] + join(blocks_of(es), seq!['\n', '\n']);
        lemma_final_sections(es);
        lemma_preamble(es);
        lemma_fold_sections(f, es, es.len() as int);
        assert(final_sections(es).take(es.len() as int) =~= final_sections(es));
        assert(es.take(es.len() as int) =~= es);
    }
}

/// The written sections can stand in blocks.
#[verifier::rlimit(40)]
#[verifier::spinoff_prover]
proof fn lemma_entries_plain(f: OsuFileView)
    requires
        sections_read_back(f),
    ensures
        entries_plain(file_entries(f)),
{
    let es = file_entries(f);
    lemma_entries_sorted(f);
    lemma_word_ranks();
    lemma_words_plain();
    assert forall|k: int| 0 <= k < es.len() implies name_plain(#[trigger] es[k].0) && text_plain(es[k].1) by {
        assert(0 <= word_rank(es[k].0) < 8);
        assert(entry_reads_back(f, es[k].0, es[k].1) && text_plain(es[k].1));
    }
}

/// The lines before the first section of a written file are the two empty
/// lines after the version line.
#[verifier::rlimit(40)]
#[verifier::spinoff_prover]
proof fn lemma_preamble(es: Seq<(Seq<char>, Seq<char>)>)
    requires
        es.len() >= 1,
        entries_plain(es),
    ensures
        preamble_len(lines(seq!['\n', '\n'] + join(blocks_of(es), seq!['\n', '\n']))) == 2,
        first_unexpected(lines(seq!['\n', '\n'] + join(blocks_of(es), seq!['\n', '\n'])).take(2)) is None,
{
    let r = seq!['\n', '\n'] + join(blocks_of(es), seq!['\n', '\n']);
    lemma_rest_lines(es);
    let ls = lines(r);
    lemma_block_parts_first(es);
    lemma_header_line(es[0].0);
    let e = Seq::<char>::empty();
    assert(trim(e) =~= e);
    let h = header_line(es[0].0);
    assert(ls.len() >= 3);
    assert(ls[0] == e && ls[1] == e && ls[2] == h);
    crate::laws::lemma_trim_plain(h);
    assert(ends_preamble(h));
    assert(!ends_preamble(e));
    assert(ls.drop_first()[0] == e);
    assert(ls.drop_first().drop_first()[0] == h);
    assert(preamble_len(ls.drop_first().drop_first()) == 0);
    assert(preamble_len(ls.drop_first()) == 1);
    let pre2 = ls.take(2);
    assert(pre2 =~= seq![e, e]);
    assert(!unexpected_line(e));
    assert(seq![e, e].drop_first() =~= seq![e]);
    assert(seq![e].drop_first() =~= Seq::<Seq<char>>::empty());
    assert(first_unexpected(Seq::<Seq<char>>::empty()) is None);
    assert(first_unexpected(seq![e]) is None);
}

/// The section names hold no line break.
proof fn lemma_words_plain()
    ensures
        !general_word().contains('\n'),
        !editor_word().contains('\n'),
        !metadata_word().contains('\n'),
        !difficulty_word().contains('\n'),
        !events_name().contains('\n'),
        !timing_points_word().contains('\n'),
        !colours_word().contains('\n'),
        !hitobjects_word().contains('\n'),
{
    assert forall|w: Seq<char>| #![auto] w == general_word() || w == editor_word() || w == metadata_word() || w == difficulty_word()
        || w == events_name() || w == timing_points_word() || w == colours_word() || w == hitobjects_word() implies !w.contains('\n') by {
        if w.contains('\n') {
            let i = choose|i: int| 0 <= i < w.len() && w[i] == '\n';
        }
    }
}


/// A line that starts with neither whitespace nor `[` is no header.
#[verifier::rlimit(40)]
#[verifier::spinoff_prover]
pub proof fn lemma_not_header(l: Seq<char>)
    requires
        l.len() > 0,
        !crate::text::is_ws(l[0]),
        l[0] != '[',
    ensures
        !is_header(l),
{
    assert(crate::text::lead_ws(l) == 0);
    assert(crate::text::trim_start(l) =~= l);
    crate::laws::lemma_trim_nonempty(l);
    let t = trim(l);
    crate::text::lemma_trail_ws_bound(l);
    let n = l.len() - crate::text::trail_ws(l);
    assert(t == l.take(n));
    assert(t.len() > 0);
    assert(t[0] == l.take(n)[0]);
}

/// The text of lines that each stand alone can stand in a block.
#[verifier::rlimit(40)]
#[verifier::spinoff_prover]
pub proof fn lemma_text_plain_of_lines(ls: Seq<Seq<char>>)
    requires
        forall|i: int| 0 <= i < ls.len() ==> crate::section_laws::line_fits(#[trigger] ls[i]),
    ensures
        text_plain(join(ls, seq!['\n'])),
{
    let t = join(ls, seq!['\n']);
    if ls.len() == 0 {
        assert(t =~= Seq::<char>::empty());
        assert(split(t, '\n') == seq![Seq::<char>::empty()]);
        assert(!is_header(Seq::<char>::empty())) by {
            assert(trim(Seq::<char>::empty()) =~= Seq::<char>::empty());
        }
    } else {
        crate::text::lemma_split_join(ls, '\n');
        assert forall|i: int| 0 <= i < ls.len() implies !is_header(#[trigger] ls[i]) by {
            lemma_not_header(ls[i]);
        }
        assert(ls.last() == ls[ls.len() - 1]);
        crate::laws::lemma_join_last(ls, seq!['\n']);
        assert(ls.last().last() != '\n') by {
            if ls.last().last() == '\n' {
                assert(ls.last()[ls.last().len() - 1] == '\n');
                assert(ls.last().contains('\n'));
            }
        }
    }
}


#[verifier::spinoff_prover]
#[verifier::rlimit(40)]
proof fn lemma_read_back_concat(f: OsuFileView, a: Seq<(Seq<char>, Seq<char>)>, b: Seq<(Seq<char>, Seq<char>)>)
    requires
        entries_read_back(f, a),
        entries_read_back(f, b),
    ensures
        entries_read_back(f, a + b),
{
    assert forall|k: int| 0 <= k < (a + b).len() implies entry_reads_back(f, #[trigger] (a + b)[k].0, (a + b)[k].1)
        && text_plain((a + b)[k].1) by {
        if k < a.len() {
            assert((a + b)[k] == a[k]);
            assert(entry_reads_back(f, a[k].0, a[k].1) && text_plain(a[k].1));
        } else {
            assert((a + b)[k] == b[k - a.len()]);
            assert(entry_reads_back(f, b[k - a.len()].0, b[k - a.len()].1) && text_plain(b[k - a.len()].1));
        }
    }
}

proof fn lemma_read_back_entry(f: OsuFileView, name: Seq<char>, t: Option<Seq<char>>)
    requires
        t matches Some(c) ==> entry_reads_back(f, name, c) && text_plain(c),
    ensures
        entries_read_back(f, entry(name, t)),
{
}

/// What the laws of the sections ask of the sections of a file: each section
/// that is present fits its section's law.
pub open spec fn sections_fit(f: OsuFileView) -> bool {
    let v = f.version;
    &&& (f.events matches Some(x) ==> forall|i: int| 0 <= i < x.len() ==> crate::event_laws::event_with_commands_fits(#[trigger] x[i], v, Seq::empty()))
    &&& (f.general matches Some(x) ==> crate::section_laws::general_fits(x, v))
    &&& (f.editor matches Some(x) ==> crate::section_laws::editor_fits(x, v))
    &&& (f.metadata matches Some(x) ==> crate::section_laws::metadata_fits(x, v))
    &&& (f.difficulty matches Some(x) ==> crate::section_laws::difficulty_fits(x))
    &&& (f.timing_points matches Some(x) ==> forall|i: int| 0 <= i < x.len() ==> crate::laws::timing_point_fits(#[trigger] x[i]))
    &&& (f.colours matches Some(x) ==> !(3 <= v <= 4) && forall|i: int| 0 <= i < x.len() ==> ((#[trigger] x[i]) matches Colour::Combo(n, _) ==> n >= 0))
    &&& (f.hitobjects matches Some(x) ==> forall|i: int| 0 <= i < x.len() ==> crate::laws::hitobject_fits(#[trigger] x[i], v) && crate::laws::hitobject_on_line(x[i]))
}

/// Reading a written `.osu` file gives it back, where the file has no
/// storyboard and each of its sections fits the law of its section.
#[verifier::rlimit(40)]
#[verifier::spinoff_prover]
pub proof fn law_osu_file_round_trip_of_sections(f: OsuFileView)
    requires
        3 <= f.version <= 14,
        f.osb is None,
        sections_fit(f),
    ensures
        osu_file_parse(osu_file_text(f)) == Ok::<OsuFileView, Error<ParseError>>(f),
{
    let v = f.version;
    lemma_word_ranks();
    let t0 = match f.general { Some(x) => General::text_of(x, v), None => None };
    let t1 = match f.editor { Some(x) => Editor::text_of(x, v), None => None };
    let t2 = match f.metadata { Some(x) => Metadata::text_of(x, v), None => None };
    let t3 = match f.difficulty { Some(x) => Difficulty::text_of(x, v), None => None };
    let t4 = match f.events { Some(x) => Events::text_of(x, v), None => None };
    let t5 = match f.timing_points { Some(x) => TimingPoints::text_of(x, v), None => None };
    let t6 = match f.colours { Some(x) => Colours::text_of(x, v), None => None };
    let t7 = match f.hitobjects { Some(x) => HitObjects::text_of(x, v), None => None };
    match f.general { Some(x) => crate::section_laws::law_general_round_trip(x, v), None => {} }
    match f.editor { Some(x) => crate::section_laws::law_editor_round_trip(x, v), None => {} }
    match f.metadata { Some(x) => crate::section_laws::law_metadata_round_trip(x, v), None => {} }
    match f.difficulty { Some(x) => crate::section_laws::law_difficulty_round_trip(x, v), None => {} }
    match f.events { Some(x) => crate::event_laws::law_events_round_trip(x, v, Seq::empty()), None => {} }
    match f.timing_points { Some(x) => crate::laws::law_timing_points_round_trip(x, v), None => {} }
    match f.colours { Some(x) => crate::laws::law_colours_round_trip(x, v), None => {} }
    match f.hitobjects { Some(x) => crate::laws::law_hitobjects_round_trip(x, v), None => {} }
    lemma_read_back_entry(f, general_word(), t0);
    lemma_read_back_entry(f, editor_word(), t1);
    lemma_read_back_entry(f, metadata_word(), t2);
    lemma_read_back_entry(f, difficulty_word(), t3);
    lemma_read_back_entry(f, events_name(), t4);
    lemma_read_back_entry(f, timing_points_word(), t5);
    lemma_read_back_entry(f, colours_word(), t6);
    lemma_read_back_entry(f, hitobjects_word(), t7);
    let e0 = entry(general_word(), t0);
    let e1 = entry(editor_word(), t1);
    let e2 = entry(metadata_word(), t2);
    let e3 = entry(difficulty_word(), t3);
    let e4 = entry(events_name(), t4);
    let e5 = entry(timing_points_word(), t5);
    let e6 = entry(colours_word(), t6);
    let e7 = entry(hitobjects_word(), t7);
    lemma_read_back_concat(f, e0, e1);
    lemma_read_back_concat(f, e0 + e1, e2);
    lemma_read_back_concat(f, e0 + e1 + e2, e3);
    lemma_read_back_concat(f, e0 + e1 + e2 + e3, e4);
    lemma_read_back_concat(f, e0 + e1 + e2 + e3 + e4, e5);
    lemma_read_back_concat(f, e0 + e1 + e2 + e3 + e4 + e5, e6);
    lemma_read_back_concat(f, e0 + e1 + e2 + e3 + e4 + e5 + e6, e7);
    assert(sections_read_back(f));
    law_osu_file_round_trip(f);
}

} // verus!
