//! Laws of nested storyboard commands: the lines of a tree of commands,
//! indented by depth, read back as the tree.
use vstd::prelude::*;

use crate::events::{
    comment_start, event_line_step, events_fold, with_commands, EventView, EventsStep,
    ParseError as EventsParseError,
};
use crate::events::storyboard::cmds::{
    command_block, command_lines, command_parse, command_stuck, command_text, deeper, indent_len,
    nested_of, push_below_last, push_indented, with_nested, CommandPropertiesView, CommandPushError,
    CommandView, ParseCommandError,
};
use crate::events::storyboard::sprites::ObjectView;
use crate::command_laws::{command_fits, law_command_round_trip};
use crate::event_laws::on_line;
use crate::osb::{after_first_comma, first_index_of, occurs, substitute, VariableView};
use crate::section::spaces;
use crate::sections::is_header;
use crate::text::{lead_ws, starts_with, strip_cr, trim, trim_start};
use crate::types::{Error, Version};

verus! {

/// The command with its nested commands taken away.
pub open spec fn flat(c: CommandView) -> CommandView {
    with_nested(c, Seq::empty())
}

/// The commands after adding a command at indentation level `level`: at the
/// end for level one, else below the last command, one level deeper.
pub open spec fn insert_at(cs: Seq<CommandView>, cmd: CommandView, level: nat) -> Seq<CommandView>
    decreases level,
{
    if level <= 1 {
        cs.push(cmd)
    } else {
        cs.update(cs.len() - 1, with_nested(cs.last(), insert_at(nested_of(cs.last()).unwrap(), cmd, (level - 1) as nat)))
    }
}

/// The commands after adding commands at indentation level `level`.
pub open spec fn append_at(cs: Seq<CommandView>, ts: Seq<CommandView>, level: nat) -> Seq<CommandView>
    decreases level,
{
    if level <= 1 {
        cs + ts
    } else {
        cs.update(cs.len() - 1, with_nested(cs.last(), append_at(nested_of(cs.last()).unwrap(), ts, (level - 1) as nat)))
    }
}

/// Whether a command can be added at indentation level `level`: each level
/// above it ends with a loop or trigger.
pub open spec fn path_ok(cs: Seq<CommandView>, level: nat) -> bool
    decreases level,
{
    if level <= 1 {
        true
    } else {
        cs.len() > 0 && nested_of(cs.last()) is Some && path_ok(nested_of(cs.last()).unwrap(), (level - 1) as nat)
    }
}

/// Below the last command of `cs`, at level `i`, a command goes to level
/// `ind` where the path is there.
#[verifier::rlimit(40)]
#[verifier::spinoff_prover]
proof fn lemma_push_below_last(cs: Seq<CommandView>, cmd: CommandView, ind: nat, i: nat)
    requires
        1 <= i < ind,
        path_ok(cs, (ind - i + 1) as nat),
    ensures
        push_below_last(cs, cmd, ind, i) == Ok::<Seq<CommandView>, CommandPushError>(insert_at(cs, cmd, (ind - i + 1) as nat)),
    decreases ind - i,
{
    let n = nested_of(cs.last()).unwrap();
    if i + 1 < ind {
        lemma_push_below_last(n, cmd, ind, i + 1);
        assert((ind - (i + 1) + 1) as nat == (ind - i) as nat);
    } else {
        assert(insert_at(n, cmd, 1) == n.push(cmd));
    }
}

/// A command pushed at an indentation with the path there goes to that level.
pub proof fn lemma_push_indented(cs: Seq<CommandView>, cmd: CommandView, ind: nat)
    requires
        ind >= 1,
        path_ok(cs, ind),
    ensures
        push_indented(cs, cmd, ind) == Ok::<Seq<CommandView>, CommandPushError>(insert_at(cs, cmd, ind)),
{
    if ind > 1 {
        lemma_push_below_last(cs, cmd, ind, 1);
    }
}

/// Reading one line of the section after some events.
#[verifier::opaque]
pub open spec fn step_at(evs: Seq<EventView>, line: Seq<char>, idx: int, version: Version, vars: Seq<VariableView>) -> EventsStep {
    event_line_step(evs, line, idx, version, vars)
}

/// Reading lines after some events, the first line at index `base`.
pub open spec fn read_from(evs: Seq<EventView>, ls: Seq<Seq<char>>, base: int, version: Version, vars: Seq<VariableView>) -> EventsStep
    decreases ls.len(),
{
    if ls.len() == 0 {
        Ok(evs)
    } else {
        match read_from(evs, ls.drop_last(), base, version, vars) {
            Err(e) => Err(e),
            Ok(e2) => step_at(e2, ls.last(), base + ls.len() - 1, version, vars),
        }
    }
}

/// Reading a section is reading its lines from no events.
pub proof fn lemma_fold_is_read(ls: Seq<Seq<char>>, version: Version, vars: Seq<VariableView>)
    ensures
        events_fold(ls, version, vars) == read_from(Seq::empty(), ls, 0, version, vars),
    decreases ls.len(),
{
    if ls.len() > 0 {
        lemma_fold_is_read(ls.drop_last(), version, vars);
        reveal(step_at);
    }
}

/// Reading two runs of lines is reading the first, then the second.
#[verifier::rlimit(40)]
#[verifier::spinoff_prover]
pub proof fn lemma_read_concat(evs: Seq<EventView>, a: Seq<Seq<char>>, b: Seq<Seq<char>>, base: int, version: Version, vars: Seq<VariableView>)
    ensures
        read_from(evs, a + b, base, version, vars) == match read_from(evs, a, base, version, vars) {
            Ok(e) => read_from(e, b, base + a.len(), version, vars),
            Err(x) => Err(x),
        },
    decreases b.len(),
{
    if b.len() == 0 {
        assert(a + b =~= a);
    } else {
        assert((a + b).drop_last() =~= a + b.drop_last());
        lemma_read_concat(evs, a, b.drop_last(), base, version, vars);
        assert((a + b).last() == b.last());
    }
}


/// Adding no commands leaves the commands as they are.
#[verifier::rlimit(40)]
#[verifier::spinoff_prover]
proof fn lemma_append_none(cs: Seq<CommandView>, d: nat)
    requires
        path_ok(cs, d),
    ensures
        append_at(cs, Seq::empty(), d) == cs,
    decreases d,
{
    if d <= 1 {
        assert(cs + Seq::<CommandView>::empty() =~= cs);
    } else {
        let n = nested_of(cs.last()).unwrap();
        lemma_append_none(n, (d - 1) as nat);
        assert(with_nested(cs.last(), n) == cs.last());
        assert(cs.update(cs.len() - 1, cs.last()) =~= cs);
    }
}

/// Adding one command is inserting it.
proof fn lemma_insert_is_append(cs: Seq<CommandView>, x: CommandView, d: nat)
    ensures
        insert_at(cs, x, d) == append_at(cs, seq![x], d),
    decreases d,
{
    if d <= 1 {
        assert(cs.push(x) =~= cs + seq![x]);
    } else {
        lemma_insert_is_append(nested_of(cs.last()).unwrap(), x, (d - 1) as nat);
    }
}

/// Adding commands keeps the path to their level.
proof fn lemma_append_path(cs: Seq<CommandView>, a: Seq<CommandView>, d: nat)
    requires
        path_ok(cs, d),
    ensures
        path_ok(append_at(cs, a, d), d),
        append_at(cs, a, d).len() >= cs.len(),
    decreases d,
{
    if d > 1 {
        let n = nested_of(cs.last()).unwrap();
        lemma_append_path(n, a, (d - 1) as nat);
        let cs1 = append_at(cs, a, d);
        assert(cs1.last() == with_nested(cs.last(), append_at(n, a, (d - 1) as nat)));
    }
}

/// Adding two runs of commands at a level is adding them together.
#[verifier::rlimit(40)]
#[verifier::spinoff_prover]
proof fn lemma_append_concat(cs: Seq<CommandView>, a: Seq<CommandView>, b: Seq<CommandView>, d: nat)
    requires
        path_ok(cs, d),
    ensures
        append_at(append_at(cs, a, d), b, d) == append_at(cs, a + b, d),
    decreases d,
{
    if d <= 1 {
        assert(cs + a + b =~= cs + (a + b));
    } else {
        let n = nested_of(cs.last()).unwrap();
        lemma_append_concat(n, a, b, (d - 1) as nat);
        let cs1 = append_at(cs, a, d);
        let n1 = append_at(n, a, (d - 1) as nat);
        assert(cs1.last() == with_nested(cs.last(), n1));
        assert(nested_of(cs1.last()) == Some(n1));
        assert(cs1.update(cs1.len() - 1, with_nested(cs1.last(), append_at(n1, b, (d - 1) as nat)))
            =~= cs.update(cs.len() - 1, with_nested(cs.last(), append_at(n, a + b, (d - 1) as nat))));
    }
}

/// After adding a loop or trigger at a level, commands one level deeper go
/// below it.
#[verifier::rlimit(40)]
#[verifier::spinoff_prover]
proof fn lemma_append_deeper(cs: Seq<CommandView>, x: CommandView, ys: Seq<CommandView>, d: nat)
    requires
        d >= 1,
        path_ok(cs, d),
        nested_of(x) is Some,
    ensures
        path_ok(append_at(cs, seq![x], d), d + 1),
        append_at(append_at(cs, seq![x], d), ys, d + 1)
            == append_at(cs, seq![with_nested(x, nested_of(x).unwrap() + ys)], d),
    decreases d,
{
    if d <= 1 {
        let cs1 = cs + seq![x];
        assert(cs1.last() == x);
        assert(path_ok(nested_of(x).unwrap(), 1));
        assert(path_ok(cs1, 2));
        assert(append_at(cs, seq![x], d) == cs1);
        assert(append_at(nested_of(x).unwrap(), ys, 1) == nested_of(x).unwrap() + ys);
        assert((d + 1) as nat == 2);
        assert(cs1.update(cs1.len() - 1, with_nested(x, nested_of(x).unwrap() + ys)) =~= cs + seq![with_nested(x, nested_of(x).unwrap() + ys)]);
    } else {
        let n = nested_of(cs.last()).unwrap();
        lemma_append_deeper(n, x, ys, (d - 1) as nat);
        let n1 = append_at(n, seq![x], (d - 1) as nat);
        let cs1 = append_at(cs, seq![x], d);
        assert(cs1.last() == with_nested(cs.last(), n1));
        assert(nested_of(cs1.last()) == Some(n1));
        assert((d + 1 - 1) as nat == d);
        assert(((d - 1) as nat + 1) as nat == d);
        assert(cs1.update(cs1.len() - 1, with_nested(cs1.last(), append_at(n1, ys, d)))
            =~= cs.update(cs.len() - 1, with_nested(cs.last(), append_at(n, seq![with_nested(x, nested_of(x).unwrap() + ys)], (d - 1) as nat))));
    }
}

/// Indentation of `d` spaces before a text that starts with a letter.
#[verifier::rlimit(40)]
#[verifier::spinoff_prover]
proof fn lemma_spaces_prefix(d: nat, t: Seq<char>)
    requires
        t.len() > 0,
        'A' <= t[0] <= 'Z',
    ensures
        indent_len(spaces(d) + t) == d,
        lead_ws(spaces(d) + t) == d,
        (spaces(d) + t).skip(d as int) == t,
        (spaces(d) + t).len() > 0,
        (spaces(d) + t).last() == t.last(),
        d > 0 ==> (spaces(d) + t)[0] == ' ',
        !spaces(d).contains('\n'),
    decreases d,
{
    let l = spaces(d) + t;
    assert(l.skip(d as int) =~= t);
    assert(l.last() == t[t.len() - 1]);
    if spaces(d).contains('\n') {
        let i = choose|i: int| 0 <= i < d && spaces(d)[i] == '\n';
    }
    if d == 0 {
        assert(l =~= t);
    } else {
        lemma_spaces_prefix((d - 1) as nat, t);
        assert(l.drop_first() =~= spaces((d - 1) as nat) + t);
        assert(l[0] == ' ');
    }
}

/// The line of a command indented `d` deep reads back as the command with
/// no nested commands, at indentation `d`, and keeps to one line.
#[verifier::rlimit(40)]
#[verifier::spinoff_prover]
pub proof fn lemma_indented_at(c: CommandView, d: nat)
    requires
        d >= 1,
        command_fits(flat(c)),
        on_line(command_text(c)),
    ensures
        ({
            let l = spaces(d) + command_text(c);
            &&& indent_len(l) == d
            &&& trim(l).len() > 0
            &&& !starts_with(l, comment_start())
            &&& !command_stuck(l)
            &&& command_parse(l) == Ok::<CommandView, ParseCommandError>(flat(c))
            &&& !l.contains('\n')
            &&& strip_cr(l) == l
            &&& l.len() > 0
            &&& !is_header(l)
        }),
{
    assert(command_text(flat(c)) == command_text(c));
    law_command_round_trip(flat(c));
    let t = command_text(c);
    let l = spaces(d) + t;
    lemma_spaces_prefix(d, t);
    assert(indent_len(t) == 0);
    assert(t.skip(0) =~= t);
    reveal(command_parse);
    assert(command_parse(l) == command_parse(t));
    assert(lead_ws(t) == 0);
    assert(trim_start(l) =~= t);
    assert(trim_start(t) =~= t);
    assert(trim(l) == trim(t));
    crate::laws::lemma_trim_nonempty(t);
    if starts_with(l, comment_start()) {
        assert(l.take(2)[0] == l[0]);
    }
    crate::laws::lemma_concat_lacks(spaces(d), t, '\n');
    crate::file_laws::lemma_not_header(t);
}

/// Whether the variables leave a text alone: there are none, or the text
/// holds no `$`.
pub open spec fn free_of_variables(t: Seq<char>, vars: Seq<VariableView>) -> bool {
    vars.len() == 0 || !t.contains('$')
}

/// A pattern whose first character a text lacks does not occur in it.
#[verifier::rlimit(40)]
#[verifier::spinoff_prover]
proof fn lemma_occurs_absent(s: Seq<char>, pat: Seq<char>)
    requires
        pat.len() > 0,
        !s.contains(pat[0]),
    ensures
        !occurs(s, pat),
    decreases s.len(),
{
    if s.len() >= pat.len() {
        if starts_with(s, pat) {
            assert(s.take(pat.len() as int)[0] == s[0]);
        }
        if s.len() > 0 {
            if s.drop_first().contains(pat[0]) {
                let i = choose|i: int| 0 <= i < s.drop_first().len() && s.drop_first()[i] == pat[0];
                assert(s[i + 1] == pat[0]);
            }
            lemma_occurs_absent(s.drop_first(), pat);
        }
    }
}

/// The first comma of a text, if any, lies in it.
proof fn lemma_first_index_bound(s: Seq<char>, c: char)
    ensures
        first_index_of(s, c) matches Some(i) ==> i < s.len(),
    decreases s.len(),
{
    if s.len() > 0 && s[0] != c {
        lemma_first_index_bound(s.drop_first(), c);
    }
}

/// A command line with no `$` is left alone by any variables; so is any line
/// where there are none.
#[verifier::rlimit(40)]
#[verifier::spinoff_prover]
pub proof fn lemma_substitute_free(line: Seq<char>, vars: Seq<VariableView>)
    requires
        vars.len() == 0 || !line.contains('$'),
    ensures
        substitute(line, vars) == line,
    decreases vars.len(),
{
    if vars.len() > 0 {
        lemma_substitute_free(line, vars.drop_last());
        let full = seq!['$'] + vars.last().name;
        let rest = after_first_comma(line);
        lemma_first_index_bound(line, ',');
        if rest.contains('$') {
            let i = choose|i: int| 0 <= i < rest.len() && rest[i] == '$';
            match first_index_of(line, ',') {
                Some(k) => assert(line[k + 1 + i] == '$'),
                None => {},
            }
        }
        lemma_occurs_absent(rest, full);
    }
}

/// The events with a storyboard object last, holding the given commands.
pub open spec fn obj_with(evs0: Seq<EventView>, o: ObjectView, cs: Seq<CommandView>) -> Seq<EventView> {
    evs0.push(EventView::StoryboardObject(ObjectView { commands: cs, ..o }))
}

/// Reading the line of a command indented `d` deep after an object adds it
/// to the object's commands at that level.
#[verifier::rlimit(40)]
#[verifier::spinoff_prover]
proof fn lemma_command_step(evs0: Seq<EventView>, o: ObjectView, cs: Seq<CommandView>, c: CommandView, d: nat, idx: int, version: Version, vars: Seq<VariableView>)
    requires
        d >= 1,
        path_ok(cs, d),
        command_fits(flat(c)),
        on_line(command_text(c)),
        free_of_variables(command_text(c), vars),
    ensures
        step_at(obj_with(evs0, o, cs), spaces(d) + command_text(c), idx, version, vars)
            == Ok::<Seq<EventView>, Option<Error<EventsParseError>>>(obj_with(evs0, o, insert_at(cs, flat(c), d))),
{
    reveal(step_at);
    lemma_indented_at(c, d);
    lemma_push_indented(cs, flat(c), d);
    let line = spaces(d) + command_text(c);
    let evs = obj_with(evs0, o, cs);
    assert(evs.last() == EventView::StoryboardObject(ObjectView { commands: cs, ..o }));
    if vars.len() > 0 {
        assert(!spaces(d).contains('$')) by {
            if spaces(d).contains('$') {
                let i = choose|i: int| 0 <= i < spaces(d).len() && spaces(d)[i] == '$';
            }
        }
        crate::laws::lemma_concat_lacks(spaces(d), command_text(c), '$');
    }
    lemma_substitute_free(line, vars);
    assert(evs.update(evs.len() - 1, with_commands(evs.last(), insert_at(cs, flat(c), d)))
        =~= obj_with(evs0, o, insert_at(cs, flat(c), d)));
}

/// Whether a list of commands is read back from its lines at depth `d`.
pub open spec fn tree_fits(ts: Seq<CommandView>, d: usize, vars: Seq<VariableView>) -> bool
    decreases ts, 0nat,
{
    if ts.len() == 0 {
        true
    } else {
        tree_fits(ts.drop_last(), d, vars) && block_fits(ts.last(), d, vars)
    }
}

/// Whether a command and its nested commands are read back from their lines
/// at depth `d` with the given variables: the command fits the command law,
/// its text keeps to one line and is left alone by the variables, and its
/// nested commands, one level deeper, fit in turn.
pub open spec fn block_fits(c: CommandView, d: usize, vars: Seq<VariableView>) -> bool
    decreases c, 1nat,
{
    &&& command_fits(flat(c))
    &&& on_line(command_text(c))
    &&& free_of_variables(command_text(c), vars)
    &&& match c.properties {
        CommandPropertiesView::Loop { commands, .. } => (commands.len() > 0 ==> d < usize::MAX) && tree_fits(commands, deeper(d), vars),
        CommandPropertiesView::Trigger { commands, .. } => (commands.len() > 0 ==> d < usize::MAX) && tree_fits(commands, deeper(d), vars),
        _ => true,
    }
}

/// Reading the lines of a list of commands at depth `d` adds them at that
/// level.
#[verifier::rlimit(40)]
#[verifier::spinoff_prover]
pub proof fn lemma_read_lines(evs0: Seq<EventView>, o: ObjectView, cs: Seq<CommandView>, ts: Seq<CommandView>, d: usize, base: int, version: Version, vars: Seq<VariableView>)
    requires
        d >= 1,
        path_ok(cs, d as nat),
        tree_fits(ts, d, vars),
    ensures
        read_from(obj_with(evs0, o, cs), command_lines(ts, d), base, version, vars)
            == Ok::<Seq<EventView>, Option<Error<EventsParseError>>>(obj_with(evs0, o, append_at(cs, ts, d as nat))),
    decreases ts, 0nat,
{
    if ts.len() == 0 {
        lemma_append_none(cs, d as nat);
        assert(ts =~= Seq::<CommandView>::empty());
        assert(command_lines(ts, d) =~= Seq::<Seq<char>>::empty());
    } else {
        let init = ts.drop_last();
        let c = ts.last();
        assert(command_lines(ts, d) == command_lines(init, d) + command_block(c, d));
        lemma_read_concat(obj_with(evs0, o, cs), command_lines(init, d), command_block(c, d), base, version, vars);
        lemma_read_lines(evs0, o, cs, init, d, base, version, vars);
        let cs1 = append_at(cs, init, d as nat);
        lemma_append_path(cs, init, d as nat);
        lemma_read_block(evs0, o, cs1, c, d, base + command_lines(init, d).len(), version, vars);
        lemma_append_concat(cs, init, seq![c], d as nat);
        assert(init + seq![c] =~= ts);
    }
}

/// Reading the lines of a command and its nested commands at depth `d`
/// adds the command, nested commands and all, at that level.
#[verifier::rlimit(40)]
#[verifier::spinoff_prover]
pub proof fn lemma_read_block(evs0: Seq<EventView>, o: ObjectView, cs: Seq<CommandView>, c: CommandView, d: usize, base: int, version: Version, vars: Seq<VariableView>)
    requires
        d >= 1,
        path_ok(cs, d as nat),
        block_fits(c, d, vars),
    ensures
        read_from(obj_with(evs0, o, cs), command_block(c, d), base, version, vars)
            == Ok::<Seq<EventView>, Option<Error<EventsParseError>>>(obj_with(evs0, o, append_at(cs, seq![c], d as nat))),
    decreases c, 1nat,
{
    let line = spaces(d as nat) + command_text(c);
    let s0 = obj_with(evs0, o, cs);
    lemma_command_step(evs0, o, cs, c, d as nat, base, version, vars);
    lemma_insert_is_append(cs, flat(c), d as nat);
    assert(read_from(s0, seq![line], base, version, vars) == step_at(s0, line, base, version, vars)) by {
        assert(seq![line].drop_last() =~= Seq::<Seq<char>>::empty());
        assert(read_from(s0, Seq::<Seq<char>>::empty(), base, version, vars) == Ok::<Seq<EventView>, Option<Error<EventsParseError>>>(s0));
        assert(seq![line].last() == line);
    }
    let s1 = obj_with(evs0, o, append_at(cs, seq![flat(c)], d as nat));
    match c.properties {
        CommandPropertiesView::Loop { commands, .. } => {
            let kids = command_lines(commands, deeper(d));
            assert(command_block(c, d) == seq![line] + kids);
            lemma_read_concat(s0, seq![line], kids, base, version, vars);
            if commands.len() == 0 {
                assert(kids =~= Seq::<Seq<char>>::empty());
                assert(commands =~= Seq::<CommandView>::empty());
                assert(flat(c) == c);
            } else {
                assert(deeper(d) == d + 1);
                lemma_append_deeper(cs, flat(c), commands, d as nat);
                lemma_read_lines(evs0, o, append_at(cs, seq![flat(c)], d as nat), commands, deeper(d), base + 1, version, vars);
                assert(Seq::<CommandView>::empty() + commands =~= commands);
                assert(with_nested(flat(c), commands) == c);
            }
        },
        CommandPropertiesView::Trigger { commands, .. } => {
            let kids = command_lines(commands, deeper(d));
            assert(command_block(c, d) == seq![line] + kids);
            lemma_read_concat(s0, seq![line], kids, base, version, vars);
            if commands.len() == 0 {
                assert(kids =~= Seq::<Seq<char>>::empty());
                assert(commands =~= Seq::<CommandView>::empty());
                assert(flat(c) == c);
            } else {
                assert(deeper(d) == d + 1);
                lemma_append_deeper(cs, flat(c), commands, d as nat);
                lemma_read_lines(evs0, o, append_at(cs, seq![flat(c)], d as nat), commands, deeper(d), base + 1, version, vars);
                assert(Seq::<CommandView>::empty() + commands =~= commands);
                assert(with_nested(flat(c), commands) == c);
            }
        },
        _ => {
            assert(command_block(c, d) =~= seq![line]);
            assert(flat(c) == c);
        },
    }
}


/// Whether a line keeps to one line, is not blank and is no section header.
pub open spec fn plain_line(l: Seq<char>) -> bool {
    &&& !l.contains('\n')
    &&& strip_cr(l) == l
    &&& l.len() > 0
    &&& trim(l).len() > 0
    &&& !is_header(l)
}

/// The lines of a list of commands that fits are plain.
#[verifier::rlimit(40)]
#[verifier::spinoff_prover]
pub proof fn lemma_lines_plain(ts: Seq<CommandView>, d: usize, vars: Seq<VariableView>)
    requires
        d >= 1,
        tree_fits(ts, d, vars),
    ensures
        forall|k: int| 0 <= k < command_lines(ts, d).len() ==> plain_line(#[trigger] command_lines(ts, d)[k]),
    decreases ts, 0nat,
{
    if ts.len() > 0 {
        let init = ts.drop_last();
        let c = ts.last();
        lemma_lines_plain(init, d, vars);
        lemma_block_plain(c, d, vars);
        let a = command_lines(init, d);
        let b = command_block(c, d);
        assert(command_lines(ts, d) == a + b);
        assert forall|k: int| 0 <= k < command_lines(ts, d).len() implies plain_line(#[trigger] command_lines(ts, d)[k]) by {
            if k < a.len() {
                assert(command_lines(ts, d)[k] == a[k]);
            } else {
                assert(command_lines(ts, d)[k] == b[k - a.len()]);
            }
        }
    }
}

/// The lines of a command that fits, and of its nested commands, are plain.
#[verifier::rlimit(40)]
#[verifier::spinoff_prover]
pub proof fn lemma_block_plain(c: CommandView, d: usize, vars: Seq<VariableView>)
    requires
        d >= 1,
        block_fits(c, d, vars),
    ensures
        forall|k: int| 0 <= k < command_block(c, d).len() ==> plain_line(#[trigger] command_block(c, d)[k]),
    decreases c, 1nat,
{
    lemma_indented_at(c, d as nat);
    let line = spaces(d as nat) + command_text(c);
    match c.properties {
        CommandPropertiesView::Loop { commands, .. } => {
            let kids = command_lines(commands, deeper(d));
            if commands.len() > 0 {
                lemma_lines_plain(commands, deeper(d), vars);
            } else {
                assert(kids =~= Seq::<Seq<char>>::empty());
            }
            assert(command_block(c, d) == seq![line] + kids);
            assert forall|k: int| 0 <= k < command_block(c, d).len() implies plain_line(#[trigger] command_block(c, d)[k]) by {
                if k > 0 {
                    assert(command_block(c, d)[k] == kids[k - 1]);
                }
            }
        },
        CommandPropertiesView::Trigger { commands, .. } => {
            let kids = command_lines(commands, deeper(d));
            if commands.len() > 0 {
                lemma_lines_plain(commands, deeper(d), vars);
            } else {
                assert(kids =~= Seq::<Seq<char>>::empty());
            }
            assert(command_block(c, d) == seq![line] + kids);
            assert forall|k: int| 0 <= k < command_block(c, d).len() implies plain_line(#[trigger] command_block(c, d)[k]) by {
                if k > 0 {
                    assert(command_block(c, d)[k] == kids[k - 1]);
                }
            }
        },
        _ => {
            assert(command_block(c, d) =~= seq![line]);
        },
    }
}

} // verus!
