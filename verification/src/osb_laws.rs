//! Laws of storyboard files: reading a written `.osb` file gives it back.
use vstd::prelude::*;

use crate::osb::{
    ends_newline, events_header, events_word, name_end, newlines, osb_fold, osb_parse, osb_section_step,
    osb_stuck, osb_text, OsbAcc, OsbSpacing, variable_lines_parse, variable_parse,
    variable_stuck, variable_text, variables_header, variables_word, OsbView, ParseError,
    ParseVariableError, VariableView,
};
use crate::event_laws::{all_lines, event_with_commands_fits, lemma_events_lines};
use crate::events::events_text;
use crate::file_laws::header_line;
use crate::text::{join, lines};
use crate::nested_laws::{lemma_fold_is_read, lemma_read_concat, plain_line, read_from, step_at};
use crate::events::{events_parse, events_stuck, EventView, ParseError as EventsParseError};
use crate::file_laws::{lemma_sections_append, lemma_sections_header};
use crate::sections::{section_body, sections_of, SectionText};
use crate::types::Version;
use crate::sections::{is_header, trailing_blank_lines};
use crate::text::{strip_cr, trim};
use crate::types::Error;

verus! {

/// Whether a variable is read back from its line: its name holds no `=` and
/// no line break, its value no line break, and its line does not end with a
/// carriage return.
pub open spec fn variable_fits(v: VariableView) -> bool {
    &&& !v.name.contains('=')
    &&& !v.name.contains('\n')
    &&& !v.value.contains('\n')
    &&& (v.value.len() == 0 || v.value.last() != '\r')
}

/// `k` empty lines.
pub open spec fn blanks(k: nat) -> Seq<Seq<char>> {
    Seq::new(k, |i: int| Seq::<char>::empty())
}

/// The name of a variable ends at the `=` after it.
#[verifier::rlimit(40)]
#[verifier::spinoff_prover]
proof fn lemma_name_end(name: Seq<char>, value: Seq<char>)
    requires
        !name.contains('='),
        !name.contains('\n'),
    ensures
        name_end(name + seq!['='] + value) == Some(name.len()),
    decreases name.len(),
{
    let r = name + seq!['='] + value;
    if name.len() == 0 {
        assert(r[0] == '=');
    } else {
        assert(r[0] == name[0]);
        let n1 = name.drop_first();
        assert(!n1.contains('=') && !n1.contains('\n')) by {
            if n1.contains('=') {
                let i = choose|i: int| 0 <= i < n1.len() && n1[i] == '=';
                assert(name[i + 1] == '=');
            }
            if n1.contains('\n') {
                let i = choose|i: int| 0 <= i < n1.len() && n1[i] == '\n';
                assert(name[i + 1] == '\n');
            }
        }
        lemma_name_end(n1, value);
        assert(r.drop_first() =~= n1 + seq!['='] + value);
        assert(name[0] != '=' && name[0] != '\n');
    }
}

/// The line of a variable that fits reads back as it, and is a plain line.
#[verifier::rlimit(40)]
#[verifier::spinoff_prover]
pub proof fn lemma_variable_line(v: VariableView)
    requires
        variable_fits(v),
    ensures
        variable_parse(variable_text(v)) == Ok::<VariableView, ParseVariableError>(v),
        !variable_stuck(variable_text(v)),
        crate::nested_laws::plain_line(variable_text(v)),
{
    let l = variable_text(v);
    let rest = v.name + seq!['='] + v.value;
    assert(l =~= seq!['$'] + rest);
    assert(l.drop_first() =~= rest);
    lemma_name_end(v.name, v.value);
    assert(rest[v.name.len() as int] == '=');
    assert(rest.take(v.name.len() as int) =~= v.name);
    assert(rest.skip((v.name.len() + 1) as int) =~= v.value);
    assert(l[0] == '$');
    crate::laws::lemma_trim_nonempty(l);
    crate::file_laws::lemma_not_header(l);
    assert(!l.contains('\n')) by {
        if l.contains('\n') {
            let i = choose|i: int| 0 <= i < l.len() && l[i] == '\n';
            if 1 <= i < 1 + v.name.len() {
                assert(v.name[i - 1] == '\n');
            } else if i > 1 + v.name.len() {
                assert(v.value[i - 2 - v.name.len()] == '\n');
            }
        }
    }
    if v.value.len() > 0 {
        assert(l.last() == v.value.last());
    } else {
        assert(l.last() == '=');
    }
}

/// Empty lines after some variable lines add nothing to them.
#[verifier::rlimit(40)]
#[verifier::spinoff_prover]
proof fn lemma_variables_blanks(a: Seq<Seq<char>>, k: nat, base: usize)
    ensures
        variable_lines_parse(a + blanks(k), base) == variable_lines_parse(a, base),
    decreases k,
{
    if k == 0 {
        assert(a + blanks(0) =~= a);
    } else {
        lemma_variables_blanks(a, (k - 1) as nat, base);
        assert((a + blanks(k)).drop_last() =~= a + blanks((k - 1) as nat));
        assert((a + blanks(k)).last() == Seq::<char>::empty());
        assert(trim(Seq::<char>::empty()) =~= Seq::<char>::empty());
    }
}

/// The texts of variables.
pub open spec fn variable_texts(vs: Seq<VariableView>) -> Seq<Seq<char>> {
    vs.map_values(|v: VariableView| variable_text(v))
}

/// The lines of variables that fit read back as the variables.
#[verifier::rlimit(40)]
#[verifier::spinoff_prover]
proof fn lemma_variable_lines(vs: Seq<VariableView>, base: usize)
    requires
        forall|i: int| 0 <= i < vs.len() ==> variable_fits(#[trigger] vs[i]),
    ensures
        variable_lines_parse(variable_texts(vs), base) == Ok::<Seq<VariableView>, Option<Error<ParseError>>>(vs),
    decreases vs.len(),
{
    let ts = variable_texts(vs);
    if vs.len() == 0 {
        assert(ts.len() == 0);
        assert(vs =~= Seq::<VariableView>::empty());
    } else {
        let init = vs.drop_last();
        assert forall|i: int| 0 <= i < init.len() implies variable_fits(#[trigger] init[i]) by {
            assert(init[i] == vs[i]);
        }
        lemma_variable_lines(init, base);
        assert(ts.drop_last() =~= variable_texts(init));
        assert(variable_fits(vs[vs.len() - 1]));
        lemma_variable_line(vs.last());
        assert(ts.last() == variable_text(vs.last()));
        assert(init.push(vs.last()) =~= vs);
    }
}

/// Lines followed by `k` empty lines end with `k` blank lines, where their
/// last is not blank.
#[verifier::rlimit(40)]
#[verifier::spinoff_prover]
proof fn lemma_trailing_blanks(a: Seq<Seq<char>>, k: nat)
    requires
        a.len() > 0,
        trim(a.last()).len() > 0,
    ensures
        trailing_blank_lines(a + blanks(k)) == k,
    decreases k,
{
    if k == 0 {
        assert(a + blanks(0) =~= a);
    } else {
        lemma_trailing_blanks(a, (k - 1) as nat);
        assert((a + blanks(k)).drop_last() =~= a + blanks((k - 1) as nat));
        assert((a + blanks(k)).last() == Seq::<char>::empty());
        assert(trim(Seq::<char>::empty()) =~= Seq::<char>::empty());
    }
}

/// Joining lines followed by `k` empty lines adds `k` line breaks.
#[verifier::rlimit(40)]
#[verifier::spinoff_prover]
proof fn lemma_join_blanks(x: Seq<Seq<char>>, k: nat)
    requires
        x.len() >= 1,
    ensures
        join(x + blanks(k), seq!['\n']) == join(x, seq!['\n']) + newlines(k),
    decreases k,
{
    if k == 0 {
        assert(x + blanks(0) =~= x);
        assert(join(x, seq!['\n']) + newlines(0) =~= join(x, seq!['\n']));
    } else {
        lemma_join_blanks(x, (k - 1) as nat);
        let y = x + blanks(k);
        assert(y.drop_last() =~= x + blanks((k - 1) as nat));
        assert(y.last() == Seq::<char>::empty());
        assert(join(x, seq!['\n']) + newlines((k - 1) as nat) + seq!['\n'] + Seq::<char>::empty()
            =~= join(x, seq!['\n']) + newlines(k));
    }
}

/// Joining a first line and more lines puts a line break between them.
proof fn lemma_join_head(h: Seq<char>, x: Seq<Seq<char>>)
    requires
        x.len() >= 1,
    ensures
        join(seq![h] + x, seq!['\n']) == h + seq!['\n'] + join(x, seq!['\n']),
{
    crate::slider_laws::lemma_join_concat(seq![h], x, seq!['\n']);
    assert(join(seq![h], seq!['\n']) == h);
}

/// The variables of a storyboard file, none where it has no section of them.
pub open spec fn vars_of(o: OsbView) -> Seq<VariableView> {
    match o.variables {
        Some(vs) => vs,
        None => Seq::empty(),
    }
}

/// The lines of the variables section, from its header to its empty lines.
pub open spec fn variables_part(o: OsbView) -> Seq<Seq<char>> {
    match o.variables {
        Some(vs) => seq![header_line(variables_word())] + variable_texts(vs) + blanks(o.spacing.variables as nat),
        None => Seq::empty(),
    }
}

/// The lines of the events section, from its header to its empty lines.
pub open spec fn events_part(o: OsbView, version: Version) -> Seq<Seq<char>> {
    seq![header_line(events_word())] + all_lines(o.events.unwrap(), version) + blanks(o.spacing.events as nat)
}

/// What the storyboard law asks of a file: a version that has storyboard
/// files; variables, if any, that fit (see `variable_fits`), at least one of
/// them; events, at least one, that fit the events law with commands given
/// the variables; and, where there are no variables, the spacing after them
/// that reading gives (one).
pub open spec fn osb_fits(o: OsbView, version: Version) -> bool {
    &&& version >= 14
    &&& (o.variables matches Some(vs) ==> vs.len() > 0 && forall|i: int| 0 <= i < vs.len() ==> variable_fits(#[trigger] vs[i]))
    &&& (o.variables is None ==> o.spacing.variables == 1)
    &&& (o.events matches Some(evs) && evs.len() > 0
        && forall|i: int| 0 <= i < evs.len() ==> event_with_commands_fits(#[trigger] evs[i], version, vars_of(o)))
}

/// The text of a storyboard file that fits joins its lines.
#[verifier::rlimit(40)]
#[verifier::spinoff_prover]
proof fn lemma_osb_text_parts(o: OsbView, version: Version)
    requires
        osb_fits(o, version),
    ensures
        osb_text(o, version) == Some(join(variables_part(o) + events_part(o, version), seq!['\n'])),
{
    let evs = o.events.unwrap();
    lemma_events_lines(evs, version, vars_of(o));
    let l = all_lines(evs, version);
    let b = events_part(o, version);
    lemma_join_blanks(seq![header_line(events_word())] + l, o.spacing.events as nat);
    lemma_join_head(header_line(events_word()), l);
    assert(events_header() =~= header_line(events_word()) + seq!['\n']);
    let eb = events_header() + events_text(evs, version) + newlines(o.spacing.events as nat);
    assert(join(b, seq!['\n']) =~= eb);
    match o.variables {
        Some(vs) => {
            let vt = variable_texts(vs);
            let a = variables_part(o);
            lemma_join_blanks(seq![header_line(variables_word())] + vt, o.spacing.variables as nat);
            lemma_join_head(header_line(variables_word()), vt);
            crate::slider_laws::lemma_join_concat(a, b, seq!['\n']);
            assert(variables_header() =~= header_line(variables_word()) + seq!['\n']);
            assert(newlines((o.spacing.variables + 1) as nat) =~= newlines(o.spacing.variables as nat) + seq!['\n']);
            assert(osb_text(o, version).unwrap() =~= join(a + b, seq!['\n']));
        },
        None => {
            assert(variables_part(o) + b =~= b);
            assert(osb_text(o, version).unwrap() =~= join(b, seq!['\n']));
        },
    }
}

/// The lines of the events section as read: its events' lines and the empty
/// lines after them but the one that ends the text.
pub open spec fn events_read_lines(o: OsbView, version: Version) -> Seq<Seq<char>> {
    all_lines(o.events.unwrap(), version) + blanks(if o.spacing.events >= 1 { (o.spacing.events - 1) as nat } else { 0 })
}

/// A header line keeps to one line and ends with no carriage return.
#[verifier::rlimit(40)]
#[verifier::spinoff_prover]
proof fn lemma_header_plain(n: Seq<char>)
    requires
        !n.contains('\n'),
    ensures
        !header_line(n).contains('\n'),
        strip_cr(header_line(n)) == header_line(n),
{
    let h = header_line(n);
    if h.contains('\n') {
        let i = choose|i: int| 0 <= i < h.len() && h[i] == '\n';
        if 1 <= i < 1 + n.len() {
            assert(n[i - 1] == '\n');
        }
    }
    assert(h.last() == ']');
}

/// The lines of a written storyboard file that fits, and whether it ends
/// with a line break.
#[verifier::rlimit(40)]
#[verifier::spinoff_prover]
proof fn lemma_osb_lines(o: OsbView, version: Version)
    requires
        osb_fits(o, version),
    ensures
        lines(osb_text(o, version).unwrap()) == variables_part(o) + seq![header_line(events_word())] + events_read_lines(o, version),
        ends_newline(osb_text(o, version).unwrap()) == (o.spacing.events >= 1),
{
    lemma_osb_text_parts(o, version);
    let evs = o.events.unwrap();
    lemma_events_lines(evs, version, vars_of(o));
    let l = all_lines(evs, version);
    let a = variables_part(o);
    let b = events_part(o, version);
    let p = a + b;
    let t = osb_text(o, version).unwrap();
    assert(!variables_word().contains('\n')) by {
        if variables_word().contains('\n') {
            let i = choose|i: int| 0 <= i < variables_word().len() && variables_word()[i] == '\n';
        }
    }
    assert(!events_word().contains('\n')) by {
        if events_word().contains('\n') {
            let i = choose|i: int| 0 <= i < events_word().len() && events_word()[i] == '\n';
        }
    }
    lemma_header_plain(variables_word());
    lemma_header_plain(events_word());
    assert(!Seq::<char>::empty().contains('\n'));
    match o.variables {
        Some(vs) => {
            assert forall|i: int| 0 <= i < vs.len() implies plain_line(#[trigger] variable_texts(vs)[i]) by {
                lemma_variable_line(vs[i]);
            }
        },
        None => {},
    }
    assert forall|i: int| 0 <= i < p.len() implies !(#[trigger] p[i]).contains('\n') && strip_cr(p[i]) == p[i] by {
        if i < a.len() {
            assert(p[i] == a[i]);
            let vs = o.variables.unwrap();
            let vt = variable_texts(vs);
            if i >= 1 && i < 1 + vt.len() {
                assert(a[i] == vt[i - 1]);
                assert(plain_line(vt[i - 1]));
            } else if i >= 1 + vt.len() {
                assert(a[i] == Seq::<char>::empty());
            }
        } else {
            let j = i - a.len();
            assert(p[i] == b[j]);
            if j >= 1 && j < 1 + l.len() {
                assert(b[j] == l[j - 1]);
                assert(plain_line(l[j - 1]));
            } else if j >= 1 + l.len() {
                assert(b[j] == Seq::<char>::empty());
            }
        }
    }
    crate::text::lemma_split_join(p, '\n');
    crate::file_laws::lemma_lines_of_parts(t);
    let se = o.spacing.events as nat;
    assert(l.len() > 0);
    assert(l.last() == l[l.len() - 1]);
    assert(plain_line(l[l.len() - 1]));
    if se >= 1 {
        assert(p.last() == Seq::<char>::empty());
        assert(blanks(se).drop_last() =~= blanks((se - 1) as nat));
        assert(p.drop_last() =~= a + seq![header_line(events_word())] + events_read_lines(o, version));
        crate::slider_laws::lemma_join_concat(p.drop_last(), seq![Seq::<char>::empty()], seq!['\n']);
        assert(p.drop_last() + seq![Seq::<char>::empty()] =~= p);
        assert(join(seq![Seq::<char>::empty()], seq!['\n']) == Seq::<char>::empty());
        assert(t.last() == '\n');
    } else {
        assert(blanks(0) =~= Seq::<Seq<char>>::empty());
        assert(p.last() == l.last());
        assert(p =~= a + seq![header_line(events_word())] + events_read_lines(o, version));
        crate::laws::lemma_join_last(p, seq!['\n']);
        assert(l.last().last() != '\n') by {
            if l.last().last() == '\n' {
                assert(l.last()[l.last().len() - 1] == '\n');
                assert(l.last().contains('\n'));
            }
        }
    }
}

/// The sections found in a written storyboard file that fits.
pub open spec fn osb_sections(o: OsbView, version: Version) -> Seq<SectionText> {
    let ev = SectionText { name: events_word(), header: variables_part(o).len(), lines: events_read_lines(o, version) };
    match o.variables {
        Some(vs) => seq![
            SectionText {
                name: variables_word(),
                header: 0,
                lines: variable_texts(vs) + blanks(o.spacing.variables as nat),
            },
            ev,
        ],
        None => seq![ev],
    }
}

/// Empty lines are no section headers.
proof fn lemma_blank_not_header()
    ensures
        !is_header(Seq::<char>::empty()),
        trim(Seq::<char>::empty()).len() == 0,
{
    assert(trim(Seq::<char>::empty()) =~= Seq::<char>::empty());
}

/// The sections of a written storyboard file that fits.
#[verifier::rlimit(40)]
#[verifier::spinoff_prover]
proof fn lemma_osb_sections(o: OsbView, version: Version)
    requires
        osb_fits(o, version),
    ensures
        sections_of(variables_part(o) + seq![header_line(events_word())] + events_read_lines(o, version), 0)
            == osb_sections(o, version),
{
    let evs = o.events.unwrap();
    lemma_events_lines(evs, version, vars_of(o));
    lemma_blank_not_header();
    let l = all_lines(evs, version);
    let a = variables_part(o);
    let h2 = header_line(events_word());
    let erl = events_read_lines(o, version);
    crate::file_laws::lemma_header_line(variables_word());
    crate::file_laws::lemma_header_line(events_word());
    assert forall|i: int| 0 <= i < erl.len() implies !is_header(#[trigger] erl[i]) by {
        if i < l.len() {
            assert(erl[i] == l[i]);
            assert(plain_line(l[i]));
        } else {
            assert(erl[i] == Seq::<char>::empty());
        }
    }
    let e = Seq::<Seq<char>>::empty();
    assert(sections_of(e, 0) =~= Seq::<SectionText>::empty());
    match o.variables {
        Some(vs) => {
            let h1 = header_line(variables_word());
            let vt = variable_texts(vs);
            let rest = vt + blanks(o.spacing.variables as nat);
            assert forall|i: int| 0 <= i < rest.len() implies !is_header(#[trigger] rest[i]) by {
                if i < vt.len() {
                    assert(rest[i] == vt[i]);
                    lemma_variable_line(vs[i]);
                } else {
                    assert(rest[i] == Seq::<char>::empty());
                }
            }
            lemma_sections_header(e, h1, 0);
            assert(e.push(h1) =~= seq![h1]);
            lemma_sections_append(seq![h1], rest, 0);
            assert(seq![h1] + rest =~= a);
            assert(Seq::<Seq<char>>::empty() + rest =~= rest);
            lemma_sections_header(a, h2, 0);
            lemma_sections_append(a.push(h2), erl, 0);
            assert(a.push(h2) + erl =~= a + seq![h2] + erl);
            assert(Seq::<Seq<char>>::empty() + erl =~= erl);
            assert(sections_of(a + seq![h2] + erl, 0) =~= osb_sections(o, version));
        },
        None => {
            assert(a =~= Seq::<Seq<char>>::empty());
            lemma_sections_header(e, h2, 0);
            assert(e.push(h2) =~= seq![h2]);
            lemma_sections_append(seq![h2], erl, 0);
            assert(a + seq![h2] + erl =~= seq![h2] + erl);
            assert(Seq::<Seq<char>>::empty() + erl =~= erl);
            assert(sections_of(a + seq![h2] + erl, 0) =~= osb_sections(o, version));
        },
    }
}

/// Blank lines read after some events leave them as they are.
#[verifier::rlimit(40)]
#[verifier::spinoff_prover]
proof fn lemma_read_blanks(evs: Seq<EventView>, k: nat, base: int, version: Version, vars: Seq<VariableView>)
    ensures
        read_from(evs, blanks(k), base, version, vars) == Ok::<Seq<EventView>, Option<Error<EventsParseError>>>(evs),
    decreases k,
{
    if k > 0 {
        lemma_read_blanks(evs, (k - 1) as nat, base, version, vars);
        assert(blanks(k).drop_last() =~= blanks((k - 1) as nat));
        assert(blanks(k).last() == Seq::<char>::empty());
        lemma_blank_not_header();
        reveal(step_at);
    }
}

/// The events section of a written storyboard file that fits reads back as
/// its events.
#[verifier::rlimit(40)]
#[verifier::spinoff_prover]
proof fn lemma_osb_events(o: OsbView, version: Version)
    requires
        osb_fits(o, version),
    ensures
        !events_stuck(join(events_read_lines(o, version), seq!['\n']), version, vars_of(o)),
        events_parse(join(events_read_lines(o, version), seq!['\n']), version, vars_of(o))
            == Ok::<Seq<EventView>, Error<EventsParseError>>(o.events.unwrap()),
        trailing_blank_lines(events_read_lines(o, version)) + (if o.spacing.events >= 1 { 1nat } else { 0nat }) == o.spacing.events,
{
    let evs = o.events.unwrap();
    let vars = vars_of(o);
    lemma_events_lines(evs, version, vars);
    lemma_blank_not_header();
    let l = all_lines(evs, version);
    let m = if o.spacing.events >= 1 { (o.spacing.events - 1) as nat } else { 0 };
    let erl = events_read_lines(o, version);
    let t = join(erl, seq!['\n']);
    assert(l.last() == l[l.len() - 1]);
    assert(plain_line(l[l.len() - 1]));
    lemma_trailing_blanks(l, m);
    assert forall|i: int| 0 <= i < erl.len() implies !(#[trigger] erl[i]).contains('\n') && strip_cr(erl[i]) == erl[i] by {
        if i < l.len() {
            assert(erl[i] == l[i]);
            assert(plain_line(l[i]));
        } else {
            assert(erl[i] == Seq::<char>::empty());
        }
    }
    crate::text::lemma_split_join(erl, '\n');
    crate::file_laws::lemma_lines_of_parts(t);
    let m2 = if m >= 1 { (m - 1) as nat } else { 0 };
    if m >= 1 {
        assert(erl.last() == Seq::<char>::empty());
        assert(erl.drop_last() =~= l + blanks(m2));
        assert(lines(t) == l + blanks(m2));
    } else {
        assert(erl =~= l);
        assert(erl.last() == l.last());
        assert(lines(t) == l + blanks(m2)) by {
            assert(l + blanks(0) =~= l);
        }
    }
    lemma_fold_is_read(l + blanks(m2), version, vars);
    lemma_read_concat(Seq::empty(), l, blanks(m2), 0, version, vars);
    lemma_read_blanks(evs, m2, l.len() as int, version, vars);
}

/// The variables section of a written storyboard file reads back as its
/// variables, with its empty lines after them.
#[verifier::rlimit(40)]
#[verifier::spinoff_prover]
proof fn lemma_osb_variables(o: OsbView, base: usize)
    requires
        o.variables is Some,
        o.variables matches Some(vs) && vs.len() > 0 && forall|i: int| 0 <= i < vs.len() ==> variable_fits(#[trigger] vs[i]),
    ensures
        variable_lines_parse(variable_texts(o.variables.unwrap()) + blanks(o.spacing.variables as nat), base)
            == Ok::<Seq<VariableView>, Option<Error<ParseError>>>(o.variables.unwrap()),
        trailing_blank_lines(variable_texts(o.variables.unwrap()) + blanks(o.spacing.variables as nat)) == o.spacing.variables,
{
    let vs = o.variables.unwrap();
    let vt = variable_texts(vs);
    lemma_variables_blanks(vt, o.spacing.variables as nat, base);
    lemma_variable_lines(vs, base);
    assert(vt.last() == vt[vt.len() - 1]);
    lemma_variable_line(vs[vs.len() - 1]);
    lemma_trailing_blanks(vt, o.spacing.variables as nat);
}

/// Reading a written storyboard file gives it back, where the file fits the
/// storyboard law (see `osb_fits`): its variables and events, nested
/// commands and all, and the empty lines after each section.
#[verifier::rlimit(60)]
#[verifier::spinoff_prover]
pub proof fn law_osb_round_trip(o: OsbView, version: Version)
    requires
        osb_fits(o, version),
    ensures
        !osb_stuck(osb_text(o, version).unwrap(), version),
        osb_parse(osb_text(o, version).unwrap(), version) == Ok::<Option<OsbView>, Error<ParseError>>(Some(o)),
{
    let t = osb_text(o, version).unwrap();
    lemma_osb_text_parts(o, version);
    lemma_osb_lines(o, version);
    lemma_osb_sections(o, version);
    lemma_osb_events(o, version);
    let secs = osb_sections(o, version);
    let nl = ends_newline(t);
    assert(sections_of(lines(t), 0) == secs);
    let init = OsbAcc { seen: Seq::empty(), variables: None, events: None, spacing: OsbSpacing { variables: 1, events: 1 } };
    let ev = secs.last();
    assert(section_body(ev) == join(events_read_lines(o, version), seq!['\n']));
    reveal(osb_section_step);
    assert(variables_word() != events_word()) by {
        assert(variables_word()[0] != events_word()[0]);
    }
    match o.variables {
        Some(vs) => {
            let s1 = secs[0];
            let base1 = (s1.header as usize).saturating_add(1);
            lemma_osb_variables(o, base1);
            assert(secs.drop_last() =~= seq![s1]);
            assert(seq![s1].drop_last() =~= Seq::<SectionText>::empty());
            assert(osb_fold(Seq::<SectionText>::empty(), 2, nl, version) == Ok::<OsbAcc, Option<Error<ParseError>>>(init));
            let acc1 = OsbAcc {
                seen: seq![variables_word()],
                variables: Some(vs),
                events: None,
                spacing: OsbSpacing { variables: o.spacing.variables, events: 1 },
            };
            assert(seq![variables_word()] =~= Seq::<Seq<char>>::empty().push(variables_word()));
            assert(!init.seen.contains(variables_word()));
            assert(osb_fold(seq![s1], 2, nl, version) == Ok::<OsbAcc, Option<Error<ParseError>>>(acc1));
            assert(!acc1.seen.contains(events_word())) by {
                if acc1.seen.contains(events_word()) {
                    let i = choose|i: int| 0 <= i < acc1.seen.len() && acc1.seen[i] == events_word();
                }
            }
        },
        None => {
            assert(secs.drop_last() =~= Seq::<SectionText>::empty());
            assert(osb_fold(Seq::<SectionText>::empty(), 1, nl, version) == Ok::<OsbAcc, Option<Error<ParseError>>>(init));
            assert(!init.seen.contains(events_word()));
        },
    }
}

/// Reading the text of a written storyboard file and writing what was read
/// gives the text back, so the two texts are equal once trimmed; for the
/// storyboards that `law_osb_round_trip` covers.
pub proof fn law_osb_text_round_trip(s: Seq<char>, o: OsbView, version: Version)
    requires
        osb_fits(o, version),
        osb_text(o, version) == Some(s),
    ensures
        !osb_stuck(s, version),
        osb_parse(s, version) matches Ok(Some(p)) && osb_text(p, version) == Some(s)
            && crate::compare::trimmed(osb_text(p, version).unwrap()) == crate::compare::trimmed(s),
{
    law_osb_round_trip(o, version);
}

} // verus!
