//! Laws of the events section: reading written events gives them back.
use vstd::prelude::*;

use crate::decimal::reads_back;
use crate::events::audio_sample::{audio_sample_stuck, sample_word, volume_value};
use crate::events::normal_event::{
    background_text, break_text, break_word, video_parse, video_text, video_word, ParseVideoError,
    VideoView,
};
use crate::events::storyboard::cmds::{command_lines, indent_len, CommandView};
use crate::events::storyboard::sprites::{
    animation_word, object_line_text, object_parse, origin_text, sprite_word, Layer,
    ObjectTypeView, ObjectView, OriginType, OriginValue, ParseObjectError,
};
use crate::events::{
    comment_start, event_line_step, event_text, events_parse, events_stuck, events_text,
    header_kind, EventView, ParseError as EventsParseError,
};
use crate::helper::present_texts;
use crate::hitobjects::written_time;
use crate::laws::{lemma_int_text_plain, lemma_join_first_sep, time_fits};
use crate::nested_laws::{
    append_at, lemma_fold_is_read, lemma_lines_plain, lemma_read_concat, lemma_read_lines, obj_with,
    plain_line, read_from, step_at, tree_fits,
};
use crate::osb::VariableView;
use crate::section_laws::line_fits;
use crate::sections::is_header;
use crate::text::{
    int_text, is_ws, join, lemma_parse_int_text, lemma_split_join, split, starts_with, strip_cr, trim,
};
use crate::types::{Error, Position, Version, VersionedFromStr, VersionedToString};

verus! {

/// A word of letters holds no comma.
proof fn lemma_word_no_comma(w: Seq<char>)
    requires
        forall|i: int| 0 <= i < w.len() ==> ('A' <= #[trigger] w[i] <= 'Z' || 'a' <= w[i] <= 'z' || '0' <= w[i] <= '9'),
    ensures
        !w.contains(','),
{
    if w.contains(',') {
        let i = choose|i: int| 0 <= i < w.len() && w[i] == ',';
        assert('A' <= w[i] <= 'Z' || 'a' <= w[i] <= 'z' || '0' <= w[i] <= '9');
    }
}

/// Splitting parts without commas joined by commas, where the first part is
/// given, gives the parts back, and the text starts with the first part.
proof fn lemma_parts(parts: Seq<Seq<char>>)
    requires
        parts.len() >= 1,
        forall|i: int| 0 <= i < parts.len() ==> !(#[trigger] parts[i]).contains(','),
    ensures
        split(join(parts, seq![',']), ',') == parts,
        starts_with(join(parts, seq![',']), parts[0]),
{
    lemma_split_join(parts, ',');
    lemma_join_first_sep(parts, seq![',']);
}

/// Reading a written video gives it back, where its file name holds no comma,
/// it has no commands (commands are read from the lines after it), and its
/// start time survives being written in the version.
#[verifier::rlimit(50)]
#[verifier::spinoff_prover]
pub proof fn law_video_round_trip(v: VideoView, version: Version)
    requires
        !v.file_name.contains(','),
        v.commands == Seq::<CommandView>::empty(),
        time_fits(v.start_time, version),
    ensures
        video_parse(video_text(v, version), version) == Ok::<VideoView, ParseVideoError>(v),
{
    let head = if v.short_hand { seq!['1'] } else { video_word() };
    let st = int_text(written_time(v.start_time, version));
    lemma_int_text_plain(written_time(v.start_time, version), ',');
    lemma_word_no_comma(head);
    let base = seq![head, st, v.file_name];
    let parts = match v.position {
        None => base,
        Some(pos) => base + seq![int_text(pos.x as int), int_text(pos.y as int)],
    };
    match v.position {
        Some(pos) => {
            lemma_int_text_plain(pos.x as int, ',');
            lemma_int_text_plain(pos.y as int, ',');
            lemma_parse_int_text(pos.x as int, i32::MIN as int, i32::MAX as int);
            lemma_parse_int_text(pos.y as int, i32::MIN as int, i32::MAX as int);
        },
        None => {},
    }
    reveal_with_fuel(join, 6);
    assert(join(parts, seq![',']) =~= video_text(v, version));
    assert forall|i: int| 0 <= i < parts.len() implies !(#[trigger] parts[i]).contains(',') by {
        if i < 3 {
            assert(parts[i] == base[i]);
        }
    }
    lemma_parts(parts);
    let p = parts;
    crate::laws::law_time_round_trip(v.start_time, version);
    assert(video_word()[0] == 'V');
    if v.short_hand {
        assert(starts_with(video_text(v, version), seq!['1']));
    } else {
        assert(!starts_with(video_text(v, version), seq!['1'])) by {
            assert(video_text(v, version).take(1)[0] == 'V');
        }
    }
    match v.position {
        Some(pos) => {
            assert(p.skip(4) =~= seq![p[4]]);
            assert(crate::hitobjects::rest_from(p, 4, ',') == p[4]);
        },
        None => {},
    }
}

/// Whether a storyboard object's line is written and read back as it is: it
/// has no commands (commands are read from the lines after it), its file
/// path holds no comma, its origin is written as it reads back (a number is
/// used only for an origin that names no type), and an animation's frame
/// delay reads back from its text.
pub open spec fn object_line_fits(o: ObjectView) -> bool {
    &&& o.commands == Seq::<CommandView>::empty()
    &&& (o.origin.type_ matches OriginValue::Number(n) ==> o.origin.shorthand && OriginType::from_number(n as int) is None)
    &&& match o.object_type {
        ObjectTypeView::Sprite { filepath } => !filepath.contains(','),
        ObjectTypeView::Animation { filepath, frame_delay, .. } => !filepath.contains(',') && reads_back(frame_delay),
    }
}

/// The name of a layer and the text of an origin hold no comma.
#[verifier::rlimit(40)]
#[verifier::spinoff_prover]
proof fn lemma_layer_origin_plain(o: ObjectView)
    ensures
        !o.layer.name().contains(','),
        !origin_text(o.origin).contains(','),
{
    let n = o.layer.name();
    lemma_word_no_comma(n);
    match o.origin.type_ {
        OriginValue::Named(t) => {
            if o.origin.shorthand {
                lemma_int_text_plain(t.number(), ',');
            } else {
                lemma_word_no_comma(t.name());
            }
        },
        OriginValue::Number(k) => lemma_int_text_plain(k as int, ','),
    }
}

/// The fields of an object line after its kind read back.
proof fn lemma_object_common(o: ObjectView, p: Seq<Seq<char>>)
    requires
        object_line_fits(o),
        p.len() >= 6,
        p[1] == o.layer.name(),
        p[2] == origin_text(o.origin),
        p[4] == int_text(o.position.x as int),
        p[5] == int_text(o.position.y as int),
    ensures
        Layer::parse_name(p[1]) == Some(o.layer),
        crate::events::storyboard::sprites::origin_parse(p[2]) == Ok::<crate::events::storyboard::sprites::Origin, crate::events::storyboard::sprites::ParseOriginError>(o.origin),
        crate::hitobjects::i32_field(p[4]) == Some(o.position.x),
        crate::hitobjects::i32_field(p[5]) == Some(o.position.y),
{
    crate::laws::law_layer_round_trip(o.layer, 0);
    crate::laws::law_origin_round_trip(o.origin, 0);
    lemma_parse_int_text(o.position.x as int, i32::MIN as int, i32::MAX as int);
    lemma_parse_int_text(o.position.y as int, i32::MIN as int, i32::MAX as int);
}

#[verifier::rlimit(40)]
#[verifier::spinoff_prover]
proof fn lemma_object_parts(o: ObjectView)
    requires
        object_line_fits(o),
    ensures
        ({
            let p = split(object_line_text(o), ',');
            &&& p.len() >= 6
            &&& p[1] == o.layer.name()
            &&& p[2] == origin_text(o.origin)
            &&& p[4] == int_text(o.position.x as int)
            &&& p[5] == int_text(o.position.y as int)
            &&& (o.object_type matches ObjectTypeView::Sprite { filepath } ==> p.len() == 6 && p[0] == sprite_word() && p[3] == filepath
                && starts_with(object_line_text(o), sprite_word()))
            &&& (o.object_type matches ObjectTypeView::Animation { frame_count, frame_delay, loop_type, filepath } ==> p.len() == 9
                && p[0] == animation_word() && p[3] == filepath && p[6] == int_text(frame_count as int)
                && p[7] == frame_delay.text() && p[8] == loop_type.name()
                && starts_with(object_line_text(o), animation_word()) && !starts_with(object_line_text(o), sprite_word()))
        }),
{
    lemma_layer_origin_plain(o);
    let common = seq![o.layer.name(), origin_text(o.origin)];
    let x = int_text(o.position.x as int);
    let y = int_text(o.position.y as int);
    let pos = seq![x, y];
    lemma_int_text_plain(o.position.x as int, ',');
    lemma_int_text_plain(o.position.y as int, ',');
    lemma_word_no_comma(sprite_word());
    lemma_word_no_comma(animation_word());
    match o.object_type {
        ObjectTypeView::Sprite { filepath } => {
            let parts = seq![sprite_word()] + common + seq![filepath] + pos;
            assert forall|i: int| 0 <= i < parts.len() implies !(#[trigger] parts[i]).contains(',') by {}
            lemma_parts(parts);
        },
        ObjectTypeView::Animation { frame_count, frame_delay, loop_type, filepath } => {
            let parts = seq![animation_word()] + common + seq![filepath] + pos + seq![
                int_text(frame_count as int),
                frame_delay.text(),
                loop_type.name(),
            ];
            lemma_int_text_plain(frame_count as int, ',');
            lemma_word_no_comma(loop_type.name());
            assert forall|i: int| 0 <= i < parts.len() implies !(#[trigger] parts[i]).contains(',') by {}
            lemma_parts(parts);
            let t = object_line_text(o);
            assert(!starts_with(t, sprite_word())) by {
                assert(t.take(9)[0] == 'A');
                assert(t.take(6)[0] == t.take(9)[0]);
            }
        },
    }
}

/// Reading a written storyboard object line gives the object back.
#[verifier::rlimit(40)]
#[verifier::spinoff_prover]
pub proof fn law_object_line_round_trip(o: ObjectView)
    requires
        object_line_fits(o),
    ensures
        object_parse(object_line_text(o)) == Ok::<ObjectView, ParseObjectError>(o),
{
    lemma_object_parts(o);
    let p = split(object_line_text(o), ',');
    lemma_object_common(o, p);
    match o.object_type {
        ObjectTypeView::Sprite { .. } => {},
        ObjectTypeView::Animation { frame_count, frame_delay, loop_type, filepath } => {
            lemma_parse_int_text(frame_count as int, 0, u32::MAX as int);
            crate::laws::law_loop_type_round_trip(loop_type, 0);
            assert(p.skip(8) =~= seq![p[8]]);
            assert(crate::hitobjects::rest_from(p, 8, ',') == p[8]);
        },
    }
}

/// Whether a text keeps to one line: no line break in it and no carriage
/// return at its end.
pub open spec fn on_line(s: Seq<char>) -> bool {
    !s.contains('\n') && (s.len() == 0 || s.last() != '\r')
}

/// What the events law asks of an event: it has no commands (commands are
/// read from the lines after it, and a background's are not written), its
/// file names hold no comma, its texts keep to one line, its times survive
/// being written, a colour transformation is written only before version 14,
/// and an audio sample has a volume (an absent one is written as 100).
pub open spec fn event_fits(e: EventView, version: Version) -> bool {
    match e {
        EventView::Comment(c) => on_line(c),
        EventView::Background(b) => !b.file_name.contains(',') && on_line(b.file_name) && b.commands == Seq::<CommandView>::empty(),
        EventView::Video(v) => !v.file_name.contains(',') && on_line(v.file_name) && v.commands == Seq::<CommandView>::empty()
            && time_fits(v.start_time, version),
        EventView::Break(b) => time_fits(b.start_time, version) && time_fits(b.end_time, version),
        EventView::ColourTransformation(c) => version < 14 && time_fits(c.start_time, version),
        EventView::StoryboardObject(o) => object_line_fits(o) && match o.object_type {
            ObjectTypeView::Sprite { filepath } => on_line(filepath),
            ObjectTypeView::Animation { filepath, frame_delay, .. } => on_line(filepath) && on_line(frame_delay.text()),
        },
        EventView::AudioSample(a) => (a.volume matches Some(v) && 1 <= v <= 100) && !a.filepath.contains(',') && on_line(a.filepath),
    }
}

/// The comma-separated parts of the text of an event other than a comment.
pub open spec fn event_parts(e: EventView, version: Version) -> Seq<Seq<char>> {
    match e {
        EventView::Background(b) => seq![seq!['0'], int_text(b.start_time as int), b.file_name] + pos_parts(b.position),
        EventView::Video(v) => seq![
            if v.short_hand { seq!['1'] } else { video_word() },
            int_text(written_time(v.start_time, version)),
            v.file_name,
        ] + pos_parts(v.position),
        EventView::Break(b) => seq![
            if b.short_hand { seq!['2'] } else { break_word() },
            int_text(written_time(b.start_time, version)),
            int_text(written_time(b.end_time, version)),
        ],
        EventView::ColourTransformation(c) => seq![
            seq!['3'],
            int_text(written_time(c.start_time, version)),
            int_text(c.red as int),
            int_text(c.green as int),
            int_text(c.blue as int),
        ],
        EventView::StoryboardObject(o) => object_line_parts(o),
        EventView::AudioSample(a) => seq![
            sample_word(),
            int_text(a.time as int),
            int_text(a.layer.number()),
            a.filepath,
            int_text(volume_value(a.volume) as int),
        ],
        EventView::Comment(c) => seq![c],
    }
}

/// The parts of an optional position.
pub open spec fn pos_parts(p: Option<Position>) -> Seq<Seq<char>> {
    match p {
        Some(pos) => seq![int_text(pos.x as int), int_text(pos.y as int)],
        None => Seq::empty(),
    }
}

/// The comma-separated parts of an object line.
pub open spec fn object_line_parts(o: ObjectView) -> Seq<Seq<char>> {
    let common = seq![o.layer.name(), origin_text(o.origin)];
    let pos = seq![int_text(o.position.x as int), int_text(o.position.y as int)];
    match o.object_type {
        ObjectTypeView::Sprite { filepath } => seq![sprite_word()] + common + seq![filepath] + pos,
        ObjectTypeView::Animation { frame_count, frame_delay, loop_type, filepath } => seq![animation_word()]
            + common + seq![filepath] + pos + seq![int_text(frame_count as int), frame_delay.text(), loop_type.name()],
    }
}

/// The text of an event other than a comment joins its parts with commas.
#[verifier::rlimit(40)]
#[verifier::spinoff_prover]
pub proof fn lemma_event_text_parts(e: EventView, version: Version)
    requires
        event_fits(e, version),
        !(e is Comment),
    ensures
        event_text(e, version) == Some(join(event_parts(e, version), seq![','])),
{
    reveal_with_fuel(join, 10);
    match e {
        EventView::Background(b) => {
            assert(background_text(b) =~= join(event_parts(e, version), seq![',']));
        },
        EventView::Video(v) => {
            assert(video_text(v, version) =~= join(event_parts(e, version), seq![',']));
        },
        EventView::Break(b) => {
            assert(break_text(b, version) =~= join(event_parts(e, version), seq![',']));
        },
        EventView::ColourTransformation(c) => {},
        EventView::StoryboardObject(o) => {
            assert(command_lines(o.commands, 1) =~= Seq::<Seq<char>>::empty());
            assert(seq![object_line_text(o)] + command_lines(o.commands, 1) =~= seq![object_line_text(o)]);
        },
        EventView::AudioSample(a) => {},
        _ => {},
    }
}

/// Parts that keep to one line, the first starting with neither whitespace
/// nor `[`, joined by commas make a line that stands alone.
#[verifier::rlimit(40)]
#[verifier::spinoff_prover]
pub proof fn lemma_join_line(parts: Seq<Seq<char>>)
    requires
        parts.len() >= 1,
        parts[0].len() > 0,
        !is_ws(parts[0][0]),
        parts[0][0] != '[',
        forall|i: int| 0 <= i < parts.len() ==> on_line(#[trigger] parts[i]),
    ensures
        line_fits(join(parts, seq![','])),
{
    let t = join(parts, seq![',']);
    crate::laws::lemma_comma_no_newline();
    assert forall|i: int| 0 <= i < parts.len() implies !(#[trigger] parts[i]).contains('\n') by {}
    crate::laws::lemma_join_lacks(parts, seq![','], '\n');
    assert forall|i: int| 0 <= i < parts.len() implies (#[trigger] parts[i]).len() == 0 || parts[i].last() != '\r' by {}
    crate::slider_laws::lemma_join_last_not_cr(parts);
    lemma_join_first_sep(parts, seq![',']);
    assert(t.take(parts[0].len() as int)[0] == t[0]);
    crate::laws::lemma_trim_nonempty(t);
}

/// An integer's text keeps to one line.
proof fn lemma_int_on_line(v: int)
    ensures
        on_line(int_text(v)),
{
    lemma_int_text_plain(v, '\n');
    crate::laws::lemma_int_text_end(v);
}

/// A word of letters keeps to one line.
proof fn lemma_word_on_line(w: Seq<char>)
    requires
        w.len() > 0,
        forall|i: int| 0 <= i < w.len() ==> ('A' <= #[trigger] w[i] <= 'Z' || 'a' <= w[i] <= 'z'),
    ensures
        on_line(w),
{
    if w.contains('\n') {
        let i = choose|i: int| 0 <= i < w.len() && w[i] == '\n';
        assert('A' <= w[i] <= 'Z' || 'a' <= w[i] <= 'z');
    }
    assert(w.last() == w[w.len() - 1]);
}

/// The text of an event that fits the events law stands alone as a line.
#[verifier::rlimit(50)]
#[verifier::spinoff_prover]
pub proof fn lemma_event_line_fits(e: EventView, version: Version)
    requires
        event_fits(e, version),
    ensures
        event_text(e, version) is Some,
        line_fits(event_text(e, version).unwrap()),
{
    match e {
        EventView::Comment(c) => {
            let t = comment_start() + c;
            assert(t[0] == '/');
            let cs = comment_start();
            assert(!cs.contains('\n')) by {
                if cs.contains('\n') {
                    let i = choose|i: int| 0 <= i < cs.len() && cs[i] == '\n';
                }
            }
            crate::laws::lemma_concat_lacks(cs, c, '\n');
            if c.len() > 0 {
                assert(t.last() == c.last());
            } else {
                assert(t.last() == '/');
            }
            crate::laws::lemma_trim_nonempty(t);
        },
        _ => {
            lemma_event_text_parts(e, version);
            let parts = event_parts(e, version);
            match e {
                EventView::Background(b) => {
                    lemma_int_on_line(b.start_time as int);
                    match b.position { Some(p) => { lemma_int_on_line(p.x as int); lemma_int_on_line(p.y as int); }, None => {} }
                    assert(seq!['0'].last() == '0' && !seq!['0'].contains('\n')) by {
                        if seq!['0'].contains('\n') { let i = choose|i: int| 0 <= i < 1 && seq!['0'][i] == '\n'; }
                    }
                    assert forall|i: int| 0 <= i < parts.len() implies on_line(#[trigger] parts[i]) by {}
                },
                EventView::Video(v) => {
                    lemma_int_on_line(written_time(v.start_time, version));
                    match v.position { Some(p) => { lemma_int_on_line(p.x as int); lemma_int_on_line(p.y as int); }, None => {} }
                    lemma_word_on_line(video_word());
                    assert(seq!['1'].last() == '1' && !seq!['1'].contains('\n')) by {
                        if seq!['1'].contains('\n') { let i = choose|i: int| 0 <= i < 1 && seq!['1'][i] == '\n'; }
                    }
                    assert forall|i: int| 0 <= i < parts.len() implies on_line(#[trigger] parts[i]) by {}
                },
                EventView::Break(b) => {
                    lemma_int_on_line(written_time(b.start_time, version));
                    lemma_int_on_line(written_time(b.end_time, version));
                    lemma_word_on_line(break_word());
                    assert(seq!['2'].last() == '2' && !seq!['2'].contains('\n')) by {
                        if seq!['2'].contains('\n') { let i = choose|i: int| 0 <= i < 1 && seq!['2'][i] == '\n'; }
                    }
                    assert forall|i: int| 0 <= i < parts.len() implies on_line(#[trigger] parts[i]) by {}
                },
                EventView::ColourTransformation(c) => {
                    lemma_int_on_line(written_time(c.start_time, version));
                    lemma_int_on_line(c.red as int);
                    lemma_int_on_line(c.green as int);
                    lemma_int_on_line(c.blue as int);
                    assert(seq!['3'].last() == '3' && !seq!['3'].contains('\n')) by {
                        if seq!['3'].contains('\n') { let i = choose|i: int| 0 <= i < 1 && seq!['3'][i] == '\n'; }
                    }
                    assert forall|i: int| 0 <= i < parts.len() implies on_line(#[trigger] parts[i]) by {}
                },
                EventView::StoryboardObject(o) => {
                    lemma_word_on_line(sprite_word());
                    lemma_word_on_line(animation_word());
                    lemma_word_on_line(o.layer.name());
                    match o.origin.type_ {
                        OriginValue::Named(t) => {
                            lemma_int_on_line(t.number());
                            lemma_word_on_line(t.name());
                        },
                        OriginValue::Number(k) => lemma_int_on_line(k as int),
                    }
                    lemma_int_on_line(o.position.x as int);
                    lemma_int_on_line(o.position.y as int);
                    match o.object_type {
                        ObjectTypeView::Animation { frame_count, loop_type, .. } => {
                            lemma_int_on_line(frame_count as int);
                            lemma_word_on_line(loop_type.name());
                        },
                        _ => {},
                    }
                    assert forall|i: int| 0 <= i < parts.len() implies on_line(#[trigger] parts[i]) by {}
                },
                EventView::AudioSample(a) => {
                    lemma_word_on_line(sample_word());
                    lemma_int_on_line(a.time as int);
                    lemma_int_on_line(a.layer.number());
                    lemma_int_on_line(volume_value(a.volume) as int);
                    assert forall|i: int| 0 <= i < parts.len() implies on_line(#[trigger] parts[i]) by {}
                },
                _ => {},
            }
            lemma_join_line(parts);
        },
    }
}

/// A line of parts joined by commas starts with its first part and a comma.
pub proof fn lemma_line_head(parts: Seq<Seq<char>>)
    requires
        parts.len() >= 2,
    ensures
        ({
            let t = join(parts, seq![',']);
            &&& t.len() > parts[0].len()
            &&& t[parts[0].len() as int] == ','
            &&& forall|i: int| 0 <= i < parts[0].len() ==> t[i] == parts[0][i]
        }),
{
    let rest = parts.drop_first();
    assert(parts =~= seq![parts[0]] + rest);
    crate::slider_laws::lemma_join_concat(seq![parts[0]], rest, seq![',']);
    assert(join(seq![parts[0]], seq![',']) == parts[0]);
    let t = join(parts, seq![',']);
    assert(t == parts[0] + seq![','] + join(rest, seq![',']));
}

/// A text whose character `i` differs from that of `p` does not start with `p`.
proof fn lemma_not_starts(t: Seq<char>, p: Seq<char>, i: int)
    requires
        0 <= i < p.len(),
        i < t.len(),
        t[i] != p[i],
    ensures
        !starts_with(t, p),
{
    if starts_with(t, p) {
        assert(t.take(p.len() as int)[i] == t[i]);
    }
}

/// A text that starts with `p` (of the given characters) starts with it.
proof fn lemma_starts(t: Seq<char>, p: Seq<char>)
    requires
        p.len() <= t.len(),
        forall|i: int| 0 <= i < p.len() ==> t[i] == p[i],
    ensures
        starts_with(t, p),
{
    assert(t.take(p.len() as int) =~= p);
}

/// The line of an event other than a comment: it is no blank line, no
/// comment and not indented, and it starts with the first of its parts and a
/// comma.
#[verifier::rlimit(40)]
#[verifier::spinoff_prover]
proof fn lemma_line_start(e: EventView, version: Version)
    requires
        event_fits(e, version),
        !(e is Comment),
    ensures
        ({
            let t = event_text(e, version).unwrap();
            let p0 = event_parts(e, version)[0];
            &&& event_text(e, version) is Some
            &&& trim(t).len() > 0
            &&& !starts_with(t, comment_start())
            &&& indent_len(t) == 0
            &&& t.len() > p0.len()
            &&& t[p0.len() as int] == ','
            &&& forall|i: int| 0 <= i < p0.len() ==> t[i] == p0[i]
        }),
{
    lemma_event_line_fits(e, version);
    lemma_event_text_parts(e, version);
    let t = event_text(e, version).unwrap();
    let parts = event_parts(e, version);
    assert(parts.len() >= 2);
    lemma_line_head(parts);
    assert(t[0] == parts[0][0]);
    lemma_not_starts(t, comment_start(), 0);
}

/// Reading the line of a background after some events adds it.
#[verifier::rlimit(60)]
#[verifier::spinoff_prover]
proof fn lemma_background_step(evs: Seq<EventView>, e: EventView, idx: int, version: Version, vars: Seq<VariableView>)
    requires
        event_fits(e, version),
        e is Background,
    ensures
        event_line_step(evs, event_text(e, version).unwrap(), idx, version, vars)
            == Ok::<Seq<EventView>, Option<Error<EventsParseError>>>(evs.push(e)),
{
    lemma_line_start(e, version);
    let t = event_text(e, version).unwrap();
    crate::laws::law_background_round_trip(e->Background_0);
    lemma_starts(t, seq!['0']);
}

/// Reading the line of a video after some events adds it.
#[verifier::rlimit(60)]
#[verifier::spinoff_prover]
proof fn lemma_video_step(evs: Seq<EventView>, e: EventView, idx: int, version: Version, vars: Seq<VariableView>)
    requires
        event_fits(e, version),
        e is Video,
    ensures
        event_line_step(evs, event_text(e, version).unwrap(), idx, version, vars)
            == Ok::<Seq<EventView>, Option<Error<EventsParseError>>>(evs.push(e)),
{
    lemma_line_start(e, version);
    let t = event_text(e, version).unwrap();
    let v = e->Video_0;
    law_video_round_trip(v, version);
    lemma_not_starts(t, seq!['0'], 0);
    if v.short_hand {
        lemma_starts(t, seq!['1']);
    } else {
        lemma_not_starts(t, seq!['1'], 0);
        lemma_starts(t, video_word());
    }
}

/// Reading the line of a break after some events adds it.
#[verifier::rlimit(60)]
#[verifier::spinoff_prover]
proof fn lemma_break_step(evs: Seq<EventView>, e: EventView, idx: int, version: Version, vars: Seq<VariableView>)
    requires
        event_fits(e, version),
        e is Break,
    ensures
        event_line_step(evs, event_text(e, version).unwrap(), idx, version, vars)
            == Ok::<Seq<EventView>, Option<Error<EventsParseError>>>(evs.push(e)),
{
    lemma_line_start(e, version);
    let t = event_text(e, version).unwrap();
    let b = e->Break_0;
    crate::laws::law_break_round_trip(b, version);
    lemma_not_starts(t, seq!['0'], 0);
    lemma_not_starts(t, seq!['1'], 0);
    lemma_not_starts(t, video_word(), 0);
    if b.short_hand {
        lemma_starts(t, seq!['2']);
    } else {
        lemma_not_starts(t, seq!['2'], 0);
        lemma_starts(t, break_word());
    }
}

/// Reading the line of a colour transformation after some events adds it.
#[verifier::rlimit(60)]
#[verifier::spinoff_prover]
proof fn lemma_colour_step(evs: Seq<EventView>, e: EventView, idx: int, version: Version, vars: Seq<VariableView>)
    requires
        event_fits(e, version),
        e is ColourTransformation,
    ensures
        event_line_step(evs, event_text(e, version).unwrap(), idx, version, vars)
            == Ok::<Seq<EventView>, Option<Error<EventsParseError>>>(evs.push(e)),
{
    lemma_line_start(e, version);
    let t = event_text(e, version).unwrap();
    crate::laws::law_colour_transformation_round_trip(e->ColourTransformation_0, version);
    lemma_not_starts(t, seq!['0'], 0);
    lemma_not_starts(t, seq!['1'], 0);
    lemma_not_starts(t, video_word(), 0);
    lemma_not_starts(t, seq!['2'], 0);
    lemma_not_starts(t, break_word(), 0);
    lemma_starts(t, seq!['3']);
}

/// A line that starts with a letter other than `V` and `B` reads as a
/// storyboard object or an audio sample.
proof fn lemma_other_kind(t: Seq<char>)
    requires
        t.len() > 5,
        t[0] != '0' && t[0] != '1' && t[0] != '2' && t[0] != '3' && t[0] != 'V' && t[0] != 'B',
    ensures
        header_kind(t) is Other,
{
    lemma_not_starts(t, seq!['0'], 0);
    lemma_not_starts(t, seq!['1'], 0);
    lemma_not_starts(t, video_word(), 0);
    lemma_not_starts(t, seq!['2'], 0);
    lemma_not_starts(t, break_word(), 0);
    lemma_not_starts(t, seq!['3'], 0);
}

/// Reading the line of a storyboard object after some events adds it.
#[verifier::rlimit(60)]
#[verifier::spinoff_prover]
proof fn lemma_object_step(evs: Seq<EventView>, e: EventView, idx: int, version: Version, vars: Seq<VariableView>)
    requires
        event_fits(e, version),
        e is StoryboardObject,
    ensures
        event_line_step(evs, event_text(e, version).unwrap(), idx, version, vars)
            == Ok::<Seq<EventView>, Option<Error<EventsParseError>>>(evs.push(e)),
{
    lemma_line_start(e, version);
    let t = event_text(e, version).unwrap();
    let o = e->StoryboardObject_0;
    law_object_line_round_trip(o);
    lemma_event_text_parts(e, version);
    assert(t == object_line_text(o));
    lemma_other_kind(t);
}

/// Reading the line of an audio sample after some events adds it.
#[verifier::rlimit(60)]
#[verifier::spinoff_prover]
proof fn lemma_sample_step(evs: Seq<EventView>, e: EventView, idx: int, version: Version, vars: Seq<VariableView>)
    requires
        event_fits(e, version),
        e is AudioSample,
    ensures
        event_line_step(evs, event_text(e, version).unwrap(), idx, version, vars)
            == Ok::<Seq<EventView>, Option<Error<EventsParseError>>>(evs.push(e)),
{
    lemma_line_start(e, version);
    let t = event_text(e, version).unwrap();
    crate::laws::law_audio_sample_round_trip(e->AudioSample_0);
    lemma_other_kind(t);
    lemma_not_starts(t, sprite_word(), 1);
    lemma_not_starts(t, animation_word(), 0);
    assert(object_parse(t) == Err::<ObjectView, ParseObjectError>(ParseObjectError::UnknownObjectType));
    assert(!audio_sample_stuck(t));
}

/// Reading the line of a comment after some events adds it.
proof fn lemma_comment_step(evs: Seq<EventView>, e: EventView, idx: int, version: Version, vars: Seq<VariableView>)
    requires
        event_fits(e, version),
        e is Comment,
    ensures
        event_line_step(evs, event_text(e, version).unwrap(), idx, version, vars)
            == Ok::<Seq<EventView>, Option<Error<EventsParseError>>>(evs.push(e)),
{
    lemma_event_line_fits(e, version);
    let t = event_text(e, version).unwrap();
    lemma_starts(t, comment_start());
    assert(t.skip(2) =~= e->Comment_0);
}

/// The line of an event that fits the events law, read after some events,
/// adds that event to them.
#[verifier::rlimit(40)]
#[verifier::spinoff_prover]
pub proof fn lemma_event_step(evs: Seq<EventView>, e: EventView, idx: int, version: Version, vars: Seq<VariableView>)
    requires
        event_fits(e, version),
    ensures
        event_line_step(evs, event_text(e, version).unwrap(), idx, version, vars)
            == Ok::<Seq<EventView>, Option<Error<EventsParseError>>>(evs.push(e)),
{
    match e {
        EventView::Comment(_) => lemma_comment_step(evs, e, idx, version, vars),
        EventView::Background(_) => lemma_background_step(evs, e, idx, version, vars),
        EventView::Video(_) => lemma_video_step(evs, e, idx, version, vars),
        EventView::Break(_) => lemma_break_step(evs, e, idx, version, vars),
        EventView::ColourTransformation(_) => lemma_colour_step(evs, e, idx, version, vars),
        EventView::StoryboardObject(_) => lemma_object_step(evs, e, idx, version, vars),
        EventView::AudioSample(_) => lemma_sample_step(evs, e, idx, version, vars),
    }
}

/// The texts of events that all have one.
pub open spec fn event_texts(evs: Seq<EventView>, version: Version) -> Seq<Seq<char>> {
    evs.map_values(|e: EventView| event_text(e, version).unwrap())
}

/// Where every event has a text, the present texts are all of them.
#[verifier::rlimit(40)]
#[verifier::spinoff_prover]
proof fn lemma_present_all(evs: Seq<EventView>, version: Version)
    requires
        forall|i: int| 0 <= i < evs.len() ==> (event_text(#[trigger] evs[i], version) is Some),
    ensures
        present_texts(evs.map_values(|e: EventView| event_text(e, version))) == event_texts(evs, version),
    decreases evs.len(),
{
    let os = evs.map_values(|e: EventView| event_text(e, version));
    if evs.len() > 0 {
        let init = evs.drop_last();
        assert forall|i: int| 0 <= i < init.len() implies (event_text(#[trigger] init[i], version) is Some) by {
            assert(init[i] == evs[i]);
        }
        lemma_present_all(init, version);
        assert(os.drop_last() =~= init.map_values(|e: EventView| event_text(e, version)));
        assert(event_text(evs[evs.len() - 1], version) is Some);
        assert(event_texts(init, version).push(event_text(evs.last(), version).unwrap()) =~= event_texts(evs, version));
    } else {
        assert(event_texts(evs, version) =~= Seq::<Seq<char>>::empty());
    }
}

/// The object without its commands.
pub open spec fn bare_object(o: ObjectView) -> ObjectView {
    ObjectView { commands: Seq::empty(), ..o }
}

/// What the events law with commands asks of an event: a storyboard object
/// may carry commands, nested ones too, that fit (see `tree_fits`), and
/// otherwise the event fits the events law (see `event_fits`).
pub open spec fn event_with_commands_fits(e: EventView, version: Version, vars: Seq<VariableView>) -> bool {
    match e {
        EventView::StoryboardObject(o) => event_fits(EventView::StoryboardObject(bare_object(o)), version)
            && tree_fits(o.commands, 1, vars),
        _ => event_fits(e, version),
    }
}

/// The lines of an event's text.
pub open spec fn event_lines(e: EventView, version: Version) -> Seq<Seq<char>> {
    match e {
        EventView::StoryboardObject(o) => seq![object_line_text(o)] + command_lines(o.commands, 1),
        _ => seq![event_text(e, version).unwrap()],
    }
}

/// The lines of the texts of events, in order.
pub open spec fn all_lines(evs: Seq<EventView>, version: Version) -> Seq<Seq<char>>
    decreases evs.len(),
{
    if evs.len() == 0 {
        Seq::empty()
    } else {
        all_lines(evs.drop_last(), version) + event_lines(evs.last(), version)
    }
}

/// Reading the lines of an event after some events adds the event.
#[verifier::rlimit(40)]
#[verifier::spinoff_prover]
proof fn lemma_read_event(evs0: Seq<EventView>, e: EventView, base: int, version: Version, vars: Seq<VariableView>)
    requires
        event_with_commands_fits(e, version, vars),
    ensures
        read_from(evs0, event_lines(e, version), base, version, vars)
            == Ok::<Seq<EventView>, Option<Error<EventsParseError>>>(evs0.push(e)),
{
    let e0 = match e {
        EventView::StoryboardObject(o) => EventView::StoryboardObject(bare_object(o)),
        _ => e,
    };
    let line = event_lines(e, version)[0];
    lemma_event_step(evs0, e0, base, version, vars);
    reveal(step_at);
    assert(read_from(evs0, seq![line], base, version, vars) == step_at(evs0, line, base, version, vars)) by {
        assert(seq![line].drop_last() =~= Seq::<Seq<char>>::empty());
        assert(read_from(evs0, Seq::<Seq<char>>::empty(), base, version, vars) == Ok::<Seq<EventView>, Option<Error<EventsParseError>>>(evs0));
        assert(seq![line].last() == line);
    }
    match e {
        EventView::StoryboardObject(o) => {
            assert(command_lines(Seq::<CommandView>::empty(), 1) =~= Seq::<Seq<char>>::empty());
            assert(seq![object_line_text(bare_object(o))] + command_lines(Seq::<CommandView>::empty(), 1)
                =~= seq![object_line_text(o)]);
            assert(event_text(e0, version) == Some(line));
            assert(evs0.push(e0) == obj_with(evs0, o, Seq::empty()));
            lemma_read_concat(evs0, seq![line], command_lines(o.commands, 1), base, version, vars);
            assert(event_lines(e, version) == seq![line] + command_lines(o.commands, 1));
            lemma_read_lines(evs0, o, Seq::empty(), o.commands, 1, base + 1, version, vars);
            assert(append_at(Seq::empty(), o.commands, 1) =~= o.commands);
            assert(obj_with(evs0, o, o.commands) =~= evs0.push(e));
        },
        _ => {
            assert(event_lines(e, version) == seq![line]);
        },
    }
}

/// The lines of events that fit the events law with commands read back as
/// the events.
#[verifier::rlimit(40)]
#[verifier::spinoff_prover]
proof fn lemma_read_all(evs: Seq<EventView>, version: Version, vars: Seq<VariableView>)
    requires
        forall|i: int| 0 <= i < evs.len() ==> event_with_commands_fits(#[trigger] evs[i], version, vars),
    ensures
        read_from(Seq::empty(), all_lines(evs, version), 0, version, vars) == Ok::<Seq<EventView>, Option<Error<EventsParseError>>>(evs),
    decreases evs.len(),
{
    if evs.len() == 0 {
        assert(evs =~= Seq::<EventView>::empty());
        assert(all_lines(evs, version) =~= Seq::<Seq<char>>::empty());
    } else {
        let init = evs.drop_last();
        let e = evs.last();
        assert forall|i: int| 0 <= i < init.len() implies event_with_commands_fits(#[trigger] init[i], version, vars) by {
            assert(init[i] == evs[i]);
        }
        assert(event_with_commands_fits(evs[evs.len() - 1], version, vars));
        lemma_read_all(init, version, vars);
        lemma_read_concat(Seq::empty(), all_lines(init, version), event_lines(e, version), 0, version, vars);
        lemma_read_event(init, e, all_lines(init, version).len() as int, version, vars);
        assert(init.push(e) =~= evs);
    }
}

/// The lines of an event's text, joined, give its text.
#[verifier::rlimit(40)]
#[verifier::spinoff_prover]
proof fn lemma_event_lines_text(e: EventView, version: Version, vars: Seq<VariableView>)
    requires
        event_with_commands_fits(e, version, vars),
    ensures
        event_text(e, version) == Some(join(event_lines(e, version), seq!['\n'])),
        event_lines(e, version).len() >= 1,
{
    match e {
        EventView::StoryboardObject(o) => {},
        _ => {
            lemma_event_line_fits(e, version);
            assert(join(seq![event_text(e, version).unwrap()], seq!['\n']) == event_text(e, version).unwrap());
        },
    }
}

/// The texts of events, joined by line breaks, are their lines joined.
#[verifier::rlimit(40)]
#[verifier::spinoff_prover]
proof fn lemma_all_lines_text(evs: Seq<EventView>, version: Version, vars: Seq<VariableView>)
    requires
        forall|i: int| 0 <= i < evs.len() ==> event_with_commands_fits(#[trigger] evs[i], version, vars),
    ensures
        join(event_texts(evs, version), seq!['\n']) == join(all_lines(evs, version), seq!['\n']),
        evs.len() > 0 ==> all_lines(evs, version).len() > 0,
    decreases evs.len(),
{
    if evs.len() > 0 {
        let init = evs.drop_last();
        let e = evs.last();
        assert forall|i: int| 0 <= i < init.len() implies event_with_commands_fits(#[trigger] init[i], version, vars) by {
            assert(init[i] == evs[i]);
        }
        assert(event_with_commands_fits(evs[evs.len() - 1], version, vars));
        lemma_all_lines_text(init, version, vars);
        lemma_event_lines_text(e, version, vars);
        let ts = event_texts(evs, version);
        assert(ts.drop_last() =~= event_texts(init, version));
        assert(ts.last() == join(event_lines(e, version), seq!['\n']));
        if init.len() == 0 {
            assert(all_lines(init, version) =~= Seq::<Seq<char>>::empty());
            assert(all_lines(evs, version) =~= event_lines(e, version));
            assert(ts =~= seq![ts.last()]);
        } else {
            crate::slider_laws::lemma_join_concat(all_lines(init, version), event_lines(e, version), seq!['\n']);
        }
    }
}

/// Every line of the text of events that fit the events law with commands
/// keeps to one line and is no section header.
#[verifier::rlimit(40)]
#[verifier::spinoff_prover]
proof fn lemma_all_lines_plain(evs: Seq<EventView>, version: Version, vars: Seq<VariableView>)
    requires
        forall|i: int| 0 <= i < evs.len() ==> event_with_commands_fits(#[trigger] evs[i], version, vars),
    ensures
        forall|j: int| 0 <= j < all_lines(evs, version).len() ==> plain_line(#[trigger] all_lines(evs, version)[j]),
    decreases evs.len(),
{
    if evs.len() > 0 {
        let init = evs.drop_last();
        let e = evs.last();
        assert forall|i: int| 0 <= i < init.len() implies event_with_commands_fits(#[trigger] init[i], version, vars) by {
            assert(init[i] == evs[i]);
        }
        assert(event_with_commands_fits(evs[evs.len() - 1], version, vars));
        lemma_all_lines_plain(init, version, vars);
        let a = all_lines(init, version);
        let ls = event_lines(e, version);
        let first = match e {
            EventView::StoryboardObject(o) => EventView::StoryboardObject(bare_object(o)),
            _ => e,
        };
        lemma_event_line_fits(first, version);
        let t0 = event_text(first, version).unwrap();
        crate::file_laws::lemma_not_header(t0);
        match e {
            EventView::StoryboardObject(o) => {
                assert(command_lines(Seq::<CommandView>::empty(), 1) =~= Seq::<Seq<char>>::empty());
                assert(seq![object_line_text(bare_object(o))] + command_lines(Seq::<CommandView>::empty(), 1)
                    =~= seq![object_line_text(o)]);
                assert(t0 == object_line_text(o));
                lemma_lines_plain(o.commands, 1, vars);
                assert forall|j: int| 1 <= j < ls.len() implies plain_line(#[trigger] ls[j]) by {
                    assert(ls[j] == command_lines(o.commands, 1)[j - 1]);
                }
            },
            _ => {},
        }
        assert forall|j: int| 0 <= j < all_lines(evs, version).len() implies plain_line(#[trigger] all_lines(evs, version)[j]) by {
            if j < a.len() {
                assert(all_lines(evs, version)[j] == a[j]);
            } else {
                assert(all_lines(evs, version)[j] == ls[j - a.len()]);
                if j - a.len() == 0 {
                    assert(ls[0] == t0);
                }
            }
        }
    }
}

/// Reading written events gives them back, where each event fits the events
/// law with commands (see `event_with_commands_fits`): storyboard objects
/// may carry commands, loops and triggers with their nested commands among
/// them, whose lines the variables leave alone. The text can stand as a section of a file.
#[verifier::rlimit(40)]
#[verifier::spinoff_prover]
pub proof fn law_events_round_trip(evs: Seq<EventView>, version: Version, vars: Seq<VariableView>)
    requires
        forall|i: int| 0 <= i < evs.len() ==> event_with_commands_fits(#[trigger] evs[i], version, vars),
    ensures
        !events_stuck(events_text(evs, version), version, vars),
        events_parse(events_text(evs, version), version, vars) == Ok::<Seq<EventView>, Error<EventsParseError>>(evs),
        crate::file_laws::text_plain(events_text(evs, version)),
{
    assert forall|i: int| 0 <= i < evs.len() implies (event_text(#[trigger] evs[i], version) is Some) by {
        lemma_event_lines_text(evs[i], version, vars);
    }
    lemma_present_all(evs, version);
    lemma_all_lines_text(evs, version, vars);
    lemma_all_lines_plain(evs, version, vars);
    let ls = all_lines(evs, version);
    assert forall|i: int| 0 <= i < ls.len() implies !(#[trigger] ls[i]).contains('\n') && strip_cr(ls[i]) == ls[i] by {
        assert(plain_line(ls[i]));
    }
    if ls.len() > 0 {
        assert(plain_line(ls[ls.len() - 1]));
    }
    crate::laws::lemma_lines_join(ls);
    lemma_read_all(evs, version, vars);
    lemma_fold_is_read(ls, version, vars);
    lemma_text_plain_of_block_lines(ls);
}

/// The text of lines that keep to one line, are no section header and the
/// last of which is not empty can stand in a block.
#[verifier::rlimit(40)]
#[verifier::spinoff_prover]
proof fn lemma_text_plain_of_block_lines(ls: Seq<Seq<char>>)
    requires
        forall|j: int| 0 <= j < ls.len() ==> plain_line(#[trigger] ls[j]),
    ensures
        crate::file_laws::text_plain(join(ls, seq!['\n'])),
{
    let t = join(ls, seq!['\n']);
    assert forall|j: int| 0 <= j < ls.len() implies !is_header(#[trigger] ls[j]) && !ls[j].contains('\n') by {
        assert(plain_line(ls[j]));
    }
    if ls.len() == 0 {
        assert(t =~= Seq::<char>::empty());
        assert(split(t, '\n') == seq![Seq::<char>::empty()]);
        assert(!is_header(Seq::<char>::empty())) by {
            assert(trim(Seq::<char>::empty()) =~= Seq::<char>::empty());
        }
    } else {
        crate::text::lemma_split_join(ls, '\n');
        assert(ls.last() == ls[ls.len() - 1]);
        assert(plain_line(ls[ls.len() - 1]));
        crate::laws::lemma_join_last(ls, seq!['\n']);
        assert(ls.last().last() != '\n') by {
            if ls.last().last() == '\n' {
                assert(ls.last()[ls.last().len() - 1] == '\n');
                assert(ls.last().contains('\n'));
            }
        }
    }
}

/// The text of events that fit the events law with commands joins their
/// lines, which are plain and read back as the events.
#[verifier::rlimit(40)]
#[verifier::spinoff_prover]
pub proof fn lemma_events_lines(evs: Seq<EventView>, version: Version, vars: Seq<VariableView>)
    requires
        forall|i: int| 0 <= i < evs.len() ==> event_with_commands_fits(#[trigger] evs[i], version, vars),
    ensures
        events_text(evs, version) == join(all_lines(evs, version), seq!['\n']),
        read_from(Seq::empty(), all_lines(evs, version), 0, version, vars) == Ok::<Seq<EventView>, Option<Error<EventsParseError>>>(evs),
        forall|j: int| 0 <= j < all_lines(evs, version).len() ==> plain_line(#[trigger] all_lines(evs, version)[j]),
        evs.len() > 0 ==> all_lines(evs, version).len() > 0,
{
    assert forall|i: int| 0 <= i < evs.len() implies (event_text(#[trigger] evs[i], version) is Some) by {
        lemma_event_lines_text(evs[i], version, vars);
    }
    lemma_present_all(evs, version);
    lemma_all_lines_text(evs, version, vars);
    lemma_all_lines_plain(evs, version, vars);
    lemma_read_all(evs, version, vars);
}

} // verus!
