//! The law of trimming: trimming a trimmed text changes nothing.
use vstd::prelude::*;

use crate::compare::{
    bracketed, insert_sorted, lex_le, normal_line, remove_char, remove_ws, sort_lines, trim_fold,
    trim_step, trimmed, version_prefix, TrimState,
};
use crate::text::{
    is_ws, join, lead_ws, lemma_lead_ws_bound, lemma_trail_ws_bound, lines, split, starts_with,
    strip_cr, trail_ws, trim, trim_end, trim_start,
};

verus! {

// ---------------------------------------------------------------------------
// Characters

/// Removing whitespace keeps no whitespace, keeps every other character, and
/// keeps a first and a last character that are not whitespace.
proof fn lemma_remove_ws_facts(s: Seq<char>)
    ensures
        forall|i: int| 0 <= i < remove_ws(s).len() ==> !is_ws(#[trigger] remove_ws(s)[i]),
        forall|c: char| !is_ws(c) ==> (remove_ws(s).contains(c) <==> s.contains(c)),
        s.len() > 0 && !is_ws(s.last()) ==> remove_ws(s).len() > 0 && remove_ws(s).last() == s.last(),
        s.len() > 0 && !is_ws(s[0]) ==> remove_ws(s).len() > 0 && remove_ws(s)[0] == s[0],
    decreases s.len(),
{
    reveal(Seq::filter);
    if s.len() > 0 {
        let p = s.drop_last();
        lemma_remove_ws_facts(p);
        let r = remove_ws(s);
        let q = remove_ws(p);
        if is_ws(s.last()) {
            assert(r == q);
        } else {
            assert(r == q.push(s.last()));
        }
        assert forall|c: char| !is_ws(c) implies (r.contains(c) <==> s.contains(c)) by {
            if s.contains(c) {
                let i = choose|i: int| 0 <= i < s.len() && s[i] == c;
                if i < p.len() {
                    assert(p[i] == c);
                    assert(p.contains(c));
                    let j = choose|j: int| 0 <= j < q.len() && q[j] == c;
                    assert(r[j] == c);
                } else {
                    assert(r.last() == c);
                    assert(r[r.len() - 1] == c);
                }
            }
            if r.contains(c) {
                let j = choose|j: int| 0 <= j < r.len() && r[j] == c;
                if j < q.len() {
                    assert(q[j] == c);
                    assert(q.contains(c));
                    let i = choose|i: int| 0 <= i < p.len() && p[i] == c;
                    assert(s[i] == c);
                } else {
                    assert(s[s.len() - 1] == c);
                }
            }
        }
        if !is_ws(s[0]) && s.len() > 1 {
            assert(p[0] == s[0]);
        }
    }
}

/// Removing whitespace from a text without whitespace leaves it as it is.
proof fn lemma_remove_ws_id(s: Seq<char>)
    requires
        forall|i: int| 0 <= i < s.len() ==> !is_ws(#[trigger] s[i]),
    ensures
        remove_ws(s) == s,
    decreases s.len(),
{
    reveal(Seq::filter);
    if s.len() > 0 {
        let p = s.drop_last();
        assert forall|i: int| 0 <= i < p.len() implies !is_ws(#[trigger] p[i]) by {
            assert(p[i] == s[i]);
        }
        lemma_remove_ws_id(p);
        assert(!is_ws(s[s.len() - 1]));
        assert(remove_ws(s) =~= p.push(s.last()));
    }
}

/// Removing a character that a text lacks leaves it as it is.
proof fn lemma_remove_char_id(s: Seq<char>, c: char)
    requires
        !s.contains(c),
    ensures
        remove_char(s, c) == s,
    decreases s.len(),
{
    reveal(Seq::filter);
    if s.len() > 0 {
        let p = s.drop_last();
        assert(!p.contains(c)) by {
            if p.contains(c) {
                let i = choose|i: int| 0 <= i < p.len() && p[i] == c;
                assert(s[i] == c);
            }
        }
        lemma_remove_char_id(p, c);
        assert(s[s.len() - 1] != c);
        assert(remove_char(s, c) =~= p.push(s.last()));
    }
}

/// A line that trimming leaves as it is: not empty, no whitespace at either
/// end, and no line break or byte order mark.
pub open spec fn clean(l: Seq<char>) -> bool {
    &&& l.len() > 0
    &&& !is_ws(l[0])
    &&& !is_ws(l.last())
    &&& !l.contains('\n')
    &&& !l.contains('\u{feff}')
}

/// A clean line is its own normal form.
proof fn lemma_normal_clean(l: Seq<char>)
    requires
        clean(l),
    ensures
        normal_line(l) == l,
{
    crate::laws::lemma_trim_plain(l);
    lemma_remove_char_id(l, '\u{feff}');
}

/// The normal form of a line without line breaks or byte order marks is
/// empty or clean.
proof fn lemma_normal_raw(r: Seq<char>)
    requires
        !r.contains('\n'),
        !r.contains('\u{feff}'),
    ensures
        normal_line(r).len() == 0 || clean(normal_line(r)),
{
    let u = trim_start(r);
    let t = trim(r);
    lemma_lead_ws_bound(r);
    lemma_trail_ws_bound(u);
    let a = lead_ws(r) as int;
    assert(u =~= r.skip(a));
    assert(t == u.take(u.len() - trail_ws(u)));
    assert forall|c: char| #[trigger] t.contains(c) implies r.contains(c) by {
        let i = choose|i: int| 0 <= i < t.len() && t[i] == c;
        assert(r[a + i] == c);
    }
    lemma_remove_char_id(t, '\u{feff}');
    if t.len() > 0 {
        assert(t[0] == r[a]);
        assert(t.last() == u[u.len() - trail_ws(u) - 1]);
    }
}

/// Removing whitespace from a clean line gives a clean line without
/// whitespace, which holds a `:` where the line does, and is `[...]` where
/// the line is.
proof fn lemma_remove_ws_clean(l: Seq<char>)
    requires
        clean(l),
    ensures
        clean(remove_ws(l)),
        forall|i: int| 0 <= i < remove_ws(l).len() ==> !is_ws(#[trigger] remove_ws(l)[i]),
        remove_ws(l).contains(':') == l.contains(':'),
        bracketed(remove_ws(l)) == bracketed(l),
        normal_line(remove_ws(l)) == remove_ws(l),
        remove_ws(remove_ws(l)) == remove_ws(l),
{
    lemma_remove_ws_facts(l);
    let w = remove_ws(l);
    assert(is_ws('\n'));
    assert(!is_ws('\u{feff}'));
    assert(!is_ws(':'));
    assert(w[0] == l[0]);
    assert(!w.contains('\n')) by {
        if w.contains('\n') {
            let i = choose|i: int| 0 <= i < w.len() && w[i] == '\n';
            assert(!is_ws(w[i]));
        }
    }
    lemma_normal_clean(w);
    lemma_remove_ws_id(w);
}

// ---------------------------------------------------------------------------
// Sorting

/// Whether lines are in the order of their characters.
pub open spec fn sorted(s: Seq<Seq<char>>) -> bool {
    forall|i: int, j: int| 0 <= i < j < s.len() ==> lex_le(#[trigger] s[i], #[trigger] s[j])
}

proof fn lemma_lex_total(a: Seq<char>, b: Seq<char>)
    ensures
        lex_le(a, b) || lex_le(b, a),
    decreases a.len(),
{
    if a.len() > 0 && b.len() > 0 && a[0] == b[0] {
        lemma_lex_total(a.drop_first(), b.drop_first());
    }
}

proof fn lemma_lex_antisym(a: Seq<char>, b: Seq<char>)
    requires
        lex_le(a, b),
        lex_le(b, a),
    ensures
        a == b,
    decreases a.len(),
{
    if a.len() > 0 && b.len() > 0 {
        lemma_lex_antisym(a.drop_first(), b.drop_first());
        assert(a =~= seq![a[0]] + a.drop_first());
        assert(b =~= seq![b[0]] + b.drop_first());
    } else {
        assert(a.len() == 0 && b.len() == 0);
        assert(a =~= b);
    }
}

proof fn lemma_lex_trans(a: Seq<char>, b: Seq<char>, c: Seq<char>)
    requires
        lex_le(a, b),
        lex_le(b, c),
    ensures
        lex_le(a, c),
    decreases a.len(),
{
    if a.len() > 0 && b.len() > 0 && c.len() > 0 && a[0] == b[0] && b[0] == c[0] {
        lemma_lex_trans(a.drop_first(), b.drop_first(), c.drop_first());
    }
}

/// Whether `y` comes before or equals every line.
pub open spec fn below_all(y: Seq<char>, s: Seq<Seq<char>>) -> bool {
    forall|k: int| 0 <= k < s.len() ==> lex_le(y, #[trigger] s[k])
}

/// Inserting into sorted lines keeps them sorted, and a line below them and
/// the inserted one stays below.
proof fn lemma_insert_sorted_sorted(s: Seq<Seq<char>>, x: Seq<char>)
    requires
        sorted(s),
    ensures
        sorted(insert_sorted(s, x)),
        forall|y: Seq<char>| below_all(y, s) && lex_le(y, x) ==> below_all(y, #[trigger] insert_sorted(s, x)),
    decreases s.len(),
{
    let r = insert_sorted(s, x);
    if s.len() == 0 {
        assert(r == seq![x]);
    } else if lex_le(x, s[0]) {
        assert(r == seq![x] + s);
        assert forall|i: int, j: int| 0 <= i < j < r.len() implies lex_le(#[trigger] r[i], #[trigger] r[j]) by {
            if i == 0 {
                assert(r[j] == s[j - 1]);
                if j - 1 > 0 {
                    lemma_lex_trans(x, s[0], s[j - 1]);
                }
            } else {
                assert(r[i] == s[i - 1] && r[j] == s[j - 1]);
            }
        }
        assert forall|y: Seq<char>| below_all(y, s) && lex_le(y, x) implies below_all(y, #[trigger] insert_sorted(s, x)) by {
            assert forall|k: int| 0 <= k < r.len() implies lex_le(y, #[trigger] r[k]) by {
                if k > 0 {
                    assert(r[k] == s[k - 1]);
                }
            }
        }
    } else {
        let t = s.drop_first();
        assert forall|i: int, j: int| 0 <= i < j < t.len() implies lex_le(#[trigger] t[i], #[trigger] t[j]) by {
            assert(t[i] == s[i + 1] && t[j] == s[j + 1]);
        }
        lemma_insert_sorted_sorted(t, x);
        let q = insert_sorted(t, x);
        assert(r == seq![s[0]] + q);
        lemma_lex_total(x, s[0]);
        assert(below_all(s[0], t)) by {
            assert forall|k: int| 0 <= k < t.len() implies lex_le(s[0], #[trigger] t[k]) by {
                assert(t[k] == s[k + 1]);
            }
        }
        assert(below_all(s[0], q));
        assert forall|i: int, j: int| 0 <= i < j < r.len() implies lex_le(#[trigger] r[i], #[trigger] r[j]) by {
            if i == 0 {
                assert(r[j] == q[j - 1]);
            } else {
                assert(r[i] == q[i - 1] && r[j] == q[j - 1]);
            }
        }
        assert forall|y: Seq<char>| below_all(y, s) && lex_le(y, x) implies below_all(y, #[trigger] insert_sorted(s, x)) by {
            assert(below_all(y, t)) by {
                assert forall|k: int| 0 <= k < t.len() implies lex_le(y, #[trigger] t[k]) by {
                    assert(t[k] == s[k + 1]);
                }
            }
            assert(below_all(y, q));
            assert forall|k: int| 0 <= k < r.len() implies lex_le(y, #[trigger] r[k]) by {
                if k > 0 {
                    assert(r[k] == q[k - 1]);
                } else {
                    assert(r[0] == s[0]);
                }
            }
        }
    }
}

/// Sorted lines are sorted.
proof fn lemma_sort_sorted(s: Seq<Seq<char>>)
    ensures
        sorted(sort_lines(s)),
    decreases s.len(),
{
    if s.len() > 0 {
        lemma_sort_sorted(s.drop_last());
        lemma_insert_sorted_sorted(sort_lines(s.drop_last()), s.last());
    }
}

/// Inserting a line that comes after or equals all sorted lines appends it.
proof fn lemma_insert_last(u: Seq<Seq<char>>, x: Seq<char>)
    requires
        sorted(u),
        forall|k: int| 0 <= k < u.len() ==> lex_le(#[trigger] u[k], x),
    ensures
        insert_sorted(u, x) == u.push(x),
    decreases u.len(),
{
    if u.len() > 0 {
        if lex_le(x, u[0]) {
            lemma_lex_antisym(x, u[0]);
            assert forall|k: int| 0 <= k < u.len() implies #[trigger] u[k] == x by {
                if k > 0 {
                    lemma_lex_trans(x, u[0], u[k]);
                    lemma_lex_antisym(x, u[k]);
                }
            }
            assert(seq![x] + u =~= u.push(x));
        } else {
            let t = u.drop_first();
            assert forall|i: int, j: int| 0 <= i < j < t.len() implies lex_le(#[trigger] t[i], #[trigger] t[j]) by {
                assert(t[i] == u[i + 1] && t[j] == u[j + 1]);
            }
            assert forall|k: int| 0 <= k < t.len() implies lex_le(#[trigger] t[k], x) by {
                assert(t[k] == u[k + 1]);
            }
            lemma_insert_last(t, x);
            assert(seq![u[0]] + t.push(x) =~= u.push(x));
        }
    }
}

/// Sorting sorted lines leaves them as they are.
proof fn lemma_sort_id(t: Seq<Seq<char>>)
    requires
        sorted(t),
    ensures
        sort_lines(t) == t,
    decreases t.len(),
{
    if t.len() > 0 {
        let p = t.drop_last();
        assert forall|i: int, j: int| 0 <= i < j < p.len() implies lex_le(#[trigger] p[i], #[trigger] p[j]) by {
            assert(p[i] == t[i] && p[j] == t[j]);
        }
        lemma_sort_id(p);
        assert forall|k: int| 0 <= k < p.len() implies lex_le(#[trigger] p[k], t.last()) by {
            assert(p[k] == t[k]);
            assert(t.last() == t[t.len() - 1]);
        }
        lemma_insert_last(p, t.last());
        assert(p.push(t.last()) =~= t);
    }
}

/// Sorting twice is sorting once.
proof fn lemma_sort_twice(s: Seq<Seq<char>>)
    ensures
        sort_lines(sort_lines(s)) == sort_lines(s),
{
    lemma_sort_sorted(s);
    lemma_sort_id(sort_lines(s));
}

/// Each line of inserted lines is the inserted one or one of the lines.
proof fn lemma_insert_members(s: Seq<Seq<char>>, x: Seq<char>)
    ensures
        forall|i: int| 0 <= i < insert_sorted(s, x).len() ==> #[trigger] insert_sorted(s, x)[i] == x
            || s.contains(insert_sorted(s, x)[i]),
    decreases s.len(),
{
    let r = insert_sorted(s, x);
    if s.len() > 0 {
        if lex_le(x, s[0]) {
            assert forall|i: int| 0 <= i < r.len() implies #[trigger] r[i] == x || s.contains(r[i]) by {
                if i > 0 {
                    assert(r[i] == s[i - 1]);
                }
            }
        } else {
            let t = s.drop_first();
            lemma_insert_members(t, x);
            let q = insert_sorted(t, x);
            assert(r == seq![s[0]] + q);
            assert forall|i: int| 0 <= i < r.len() implies #[trigger] r[i] == x || s.contains(r[i]) by {
                if i == 0 {
                    assert(s[0] == r[0]);
                } else {
                    assert(r[i] == q[i - 1]);
                    if t.contains(q[i - 1]) {
                        let k = choose|k: int| 0 <= k < t.len() && t[k] == q[i - 1];
                        assert(s[k + 1] == t[k]);
                    }
                }
            }
        }
    }
}

/// Each sorted line is one of the lines.
proof fn lemma_sort_members(s: Seq<Seq<char>>)
    ensures
        forall|i: int| 0 <= i < sort_lines(s).len() ==> s.contains(#[trigger] sort_lines(s)[i]),
    decreases s.len(),
{
    if s.len() > 0 {
        let p = s.drop_last();
        lemma_sort_members(p);
        lemma_insert_members(sort_lines(p), s.last());
        assert forall|i: int| 0 <= i < sort_lines(s).len() implies s.contains(#[trigger] sort_lines(s)[i]) by {
            let y = sort_lines(s)[i];
            if y == s.last() {
                assert(s[s.len() - 1] == y);
            } else {
                assert(sort_lines(p).contains(y));
                let j = choose|j: int| 0 <= j < sort_lines(p).len() && sort_lines(p)[j] == y;
                assert(p.contains(y));
                let k = choose|k: int| 0 <= k < p.len() && p[k] == y;
                assert(s[k] == y);
            }
        }
    }
}

// ---------------------------------------------------------------------------
// Trimming

/// A `key: value` line as trimming keeps it: clean, without whitespace,
/// holding a `:`, and not `[...]`.
pub open spec fn colon_kept(l: Seq<char>) -> bool {
    &&& clean(l)
    &&& forall|i: int| 0 <= i < l.len() ==> !is_ws(#[trigger] l[i])
    &&& l.contains(':')
    &&& !bracketed(l)
}

/// Trimming the kept lines again leaves them kept, with nothing waiting to be
/// sorted, in the same place of the file and the same kind of section.
pub open spec fn replays(st: TrimState) -> bool {
    let t = trim_fold(st.kept);
    &&& t.kept == st.kept
    &&& t.pending.len() == 0
    &&& t.in_sections == st.in_sections
    &&& t.coloned == st.coloned
    &&& (!st.in_sections ==> t.first_line == (st.kept.len() == 0))
}

/// What holds of each state of trimming a text without byte order marks.
pub open spec fn trim_inv(st: TrimState) -> bool {
    &&& forall|i: int| 0 <= i < st.kept.len() ==> clean(#[trigger] st.kept[i])
    &&& forall|i: int| 0 <= i < st.pending.len() ==> colon_kept(#[trigger] st.pending[i])
    &&& (!st.in_sections ==> {
        &&& st.pending.len() == 0
        &&& st.coloned
        &&& st.kept.len() <= 1
        &&& (st.first_line ==> st.kept.len() == 0)
        &&& forall|i: int| 0 <= i < st.kept.len() ==> !bracketed(#[trigger] st.kept[i])
            && starts_with(st.kept[i], version_prefix())
    })
    &&& (!st.coloned ==> st.pending.len() == 0)
    &&& replays(st)
}

proof fn lemma_fold_push(k: Seq<Seq<char>>, x: Seq<char>)
    ensures
        trim_fold(k.push(x)) == trim_step(trim_fold(k), x),
{
    assert(k.push(x).drop_last() =~= k);
    assert(k.push(x).last() == x);
}

/// Trimming kept `key: value` lines in a section of such lines puts them
/// after the lines waiting to be sorted.
proof fn lemma_colon_run(k: Seq<Seq<char>>, r: Seq<Seq<char>>)
    requires
        trim_fold(k).in_sections,
        trim_fold(k).coloned,
        forall|i: int| 0 <= i < r.len() ==> colon_kept(#[trigger] r[i]),
    ensures
        trim_fold(k + r).kept == trim_fold(k).kept,
        trim_fold(k + r).pending == trim_fold(k).pending + r,
        trim_fold(k + r).in_sections,
        trim_fold(k + r).coloned,
    decreases r.len(),
{
    if r.len() == 0 {
        assert(k + r =~= k);
        assert(trim_fold(k).pending + r =~= trim_fold(k).pending);
    } else {
        let r0 = r.drop_last();
        assert forall|i: int| 0 <= i < r0.len() implies colon_kept(#[trigger] r0[i]) by {
            assert(r0[i] == r[i]);
        }
        lemma_colon_run(k, r0);
        let l = r.last();
        assert(l == r[r.len() - 1]);
        assert(k + r =~= (k + r0).push(l));
        lemma_fold_push(k + r0, l);
        lemma_normal_clean(l);
        lemma_remove_ws_id(l);
        assert(trim_fold(k).pending + r0.push(l) =~= trim_fold(k).pending + r);
        assert((trim_fold(k).pending + r0).push(l) =~= trim_fold(k).pending + r0.push(l));
    }
}

/// One step of trimming keeps what holds of its states.
#[verifier::rlimit(60)]
#[verifier::spinoff_prover]
proof fn lemma_step_inv(st: TrimState, raw: Seq<char>)
    requires
        trim_inv(st),
        !raw.contains('\n'),
        !raw.contains('\u{feff}'),
    ensures
        trim_inv(trim_step(st, raw)),
{
    let l = normal_line(raw);
    lemma_normal_raw(raw);
    let n = trim_step(st, raw);
    if l.len() == 0 {
        assert(n == st);
        return;
    }
    lemma_normal_clean(l);
    let k = st.kept;
    let t = trim_fold(k);
    if !st.in_sections {
        if bracketed(l) {
            lemma_fold_push(k, l);
            assert(n.kept == k.push(l));
            assert forall|i: int| 0 <= i < n.kept.len() implies clean(#[trigger] n.kept[i]) by {
                if i < k.len() {
                    assert(n.kept[i] == k[i]);
                }
            }
        } else if st.first_line && starts_with(l, version_prefix()) {
            assert(k.len() == 0);
            assert(k.push(l) =~= seq![l]);
            lemma_fold_push(k, l);
            assert(n.kept == k.push(l));
            assert forall|i: int| 0 <= i < n.kept.len() implies clean(#[trigger] n.kept[i]) && !bracketed(n.kept[i])
                && starts_with(n.kept[i], version_prefix()) by {
                assert(n.kept[i] == l);
            }
        } else {
            assert(n.kept == k);
        }
    } else if bracketed(l) {
        let p = sort_lines(st.pending);
        lemma_sort_members(st.pending);
        assert forall|i: int| 0 <= i < p.len() implies colon_kept(#[trigger] p[i]) by {
            let j = choose|j: int| 0 <= j < st.pending.len() && st.pending[j] == p[i];
        }
        let kp = k + p;
        if st.coloned {
            lemma_colon_run(k, p);
            assert(trim_fold(k).pending + p =~= p);
            lemma_sort_twice(st.pending);
        } else {
            assert(st.pending.len() == 0);
            assert(st.pending =~= Seq::<Seq<char>>::empty());
            assert(p =~= Seq::<Seq<char>>::empty());
            assert(kp =~= k);
            assert(sort_lines(Seq::<Seq<char>>::empty()) =~= Seq::<Seq<char>>::empty());
        }
        lemma_fold_push(kp, l);
        assert(n.kept == kp.push(l));
        assert(trim_fold(kp.push(l)).kept =~= kp.push(l));
        assert forall|i: int| 0 <= i < n.kept.len() implies clean(#[trigger] n.kept[i]) by {
            if i < k.len() {
                assert(n.kept[i] == k[i]);
            } else if i < kp.len() {
                assert(n.kept[i] == p[i - k.len()]);
            }
        }
    } else if l.contains(':') {
        lemma_remove_ws_clean(l);
        let w = remove_ws(l);
        if st.coloned {
            assert(n.kept == k);
            assert forall|i: int| 0 <= i < n.pending.len() implies colon_kept(#[trigger] n.pending[i]) by {
                if i < st.pending.len() {
                    assert(n.pending[i] == st.pending[i]);
                }
            }
        } else {
            lemma_fold_push(k, w);
            assert(n.kept == k.push(w));
            assert forall|i: int| 0 <= i < n.kept.len() implies clean(#[trigger] n.kept[i]) by {
                if i < k.len() {
                    assert(n.kept[i] == k[i]);
                }
            }
        }
    } else {
        let kp = k + st.pending;
        if st.coloned {
            lemma_colon_run(k, st.pending);
            assert(trim_fold(k).pending + st.pending =~= st.pending);
        } else {
            assert(st.pending =~= Seq::<Seq<char>>::empty());
            assert(kp =~= k);
        }
        lemma_fold_push(kp, l);
        assert(n.kept == kp.push(l));
        assert(trim_fold(kp).kept + trim_fold(kp).pending + seq![l] =~= kp.push(l));
        assert forall|i: int| 0 <= i < n.kept.len() implies clean(#[trigger] n.kept[i]) by {
            if i < k.len() {
                assert(n.kept[i] == k[i]);
            } else if i < kp.len() {
                assert(n.kept[i] == st.pending[i - k.len()]);
            }
        }
    }
}

/// What holds of each state of trimming holds of trimming lines without line
/// breaks or byte order marks.
proof fn lemma_fold_inv(ls: Seq<Seq<char>>)
    requires
        forall|i: int| 0 <= i < ls.len() ==> !(#[trigger] ls[i]).contains('\n') && !ls[i].contains('\u{feff}'),
    ensures
        trim_inv(trim_fold(ls)),
    decreases ls.len(),
{
    if ls.len() == 0 {
        let e = Seq::<Seq<char>>::empty();
        assert(trim_fold(e).kept =~= e);
    } else {
        let p = ls.drop_last();
        assert forall|i: int| 0 <= i < p.len() implies !(#[trigger] p[i]).contains('\n') && !p[i].contains('\u{feff}') by {
            assert(p[i] == ls[i]);
        }
        lemma_fold_inv(p);
        assert(ls.last() == ls[ls.len() - 1]);
        lemma_step_inv(trim_fold(p), ls.last());
    }
}

/// Every character of a part of a split text is in the text, and no part
/// holds the separator.
proof fn lemma_split_chars(s: Seq<char>, sep: char)
    ensures
        forall|i: int, c: char| #![trigger split(s, sep)[i].contains(c)]
            0 <= i < split(s, sep).len() && split(s, sep)[i].contains(c) ==> c != sep && s.contains(c),
    decreases s.len(),
{
    crate::text::lemma_split_len(s, sep);
    if s.len() > 0 {
        let p = s.drop_last();
        lemma_split_chars(p, sep);
        crate::text::lemma_split_len(p, sep);
        let prev = split(p, sep);
        let q = split(s, sep);
        assert forall|i: int, c: char| #![trigger q[i].contains(c)]
            0 <= i < q.len() && q[i].contains(c) implies c != sep && s.contains(c) by {
            let j = choose|j: int| 0 <= j < q[i].len() && q[i][j] == c;
            if s.last() == sep {
                assert(q == prev.push(Seq::<char>::empty()));
                assert(i < prev.len());
                assert(q[i] == prev[i]);
                assert(prev[i].contains(c));
                let m = choose|m: int| 0 <= m < p.len() && p[m] == c;
                assert(s[m] == c);
            } else {
                assert(q == prev.update(prev.len() - 1, prev.last().push(s.last())));
                if i == prev.len() - 1 && j == prev.last().len() {
                    assert(q[i][j] == s.last());
                    assert(s[s.len() - 1] == c);
                } else {
                    if i == prev.len() - 1 {
                        assert(q[i][j] == prev[i][j]);
                    } else {
                        assert(q[i] == prev[i]);
                    }
                    assert(prev[i][j] == c);
                    assert(prev[i].contains(c));
                    let m = choose|m: int| 0 <= m < p.len() && p[m] == c;
                    assert(s[m] == c);
                }
            }
        }
    }
}

/// The lines of a text hold no line break, and no character the text lacks.
proof fn lemma_lines_chars(s: Seq<char>)
    ensures
        forall|i: int, c: char| #![trigger lines(s)[i].contains(c)]
            0 <= i < lines(s).len() && lines(s)[i].contains(c) ==> c != '\n' && s.contains(c),
{
    let parts = split(s, '\n');
    lemma_split_chars(s, '\n');
    crate::text::lemma_split_len(s, '\n');
    let ls = lines(s);
    assert forall|i: int, c: char| #![trigger ls[i].contains(c)]
        0 <= i < ls.len() && ls[i].contains(c) implies c != '\n' && s.contains(c) by {
        let j = choose|j: int| 0 <= j < ls[i].len() && ls[i][j] == c;
        if i < parts.len() - 1 {
            assert(ls[i] == strip_cr(parts[i]));
            assert(parts[i][j] == c);
            assert(parts[i].contains(c));
        } else {
            assert(ls[i] == parts.last());
            assert(parts[parts.len() - 1][j] == c);
            assert(parts[parts.len() - 1].contains(c));
        }
    }
}

/// Trimming a trimmed text changes nothing, where the text holds no byte
/// order mark (removing one can leave whitespace at the end of a line, which
/// the second trimming then removes).
pub proof fn law_trim_idempotent(s: Seq<char>)
    requires
        !s.contains('\u{feff}'),
    ensures
        trimmed(trimmed(s)) == trimmed(s),
{
    let ls = lines(s);
    lemma_lines_chars(s);
    assert forall|i: int| 0 <= i < ls.len() implies !(#[trigger] ls[i]).contains('\n') && !ls[i].contains('\u{feff}') by {
        if ls[i].contains('\u{feff}') {
            assert(s.contains('\u{feff}'));
        }
    }
    lemma_fold_inv(ls);
    let st = trim_fold(ls);
    let p = sort_lines(st.pending);
    lemma_sort_members(st.pending);
    assert forall|i: int| 0 <= i < p.len() implies colon_kept(#[trigger] p[i]) by {
        let j = choose|j: int| 0 <= j < st.pending.len() && st.pending[j] == p[i];
    }
    let o = st.kept + p;
    assert forall|i: int| 0 <= i < o.len() implies clean(#[trigger] o[i]) by {
        if i < st.kept.len() {
            assert(o[i] == st.kept[i]);
        } else {
            assert(o[i] == p[i - st.kept.len()]);
        }
    }
    assert forall|i: int| 0 <= i < o.len() implies strip_cr(#[trigger] o[i]) == o[i] by {
        assert(is_ws('\r'));
    }
    crate::laws::lemma_lines_join(o);
    assert(trimmed(s) == join(o, seq!['\n']));
    assert(lines(trimmed(s)) == o);
    if st.pending.len() > 0 {
        lemma_colon_run(st.kept, p);
        assert(trim_fold(st.kept).pending + p =~= p);
        lemma_sort_twice(st.pending);
    } else {
        assert(st.pending =~= Seq::<Seq<char>>::empty());
        assert(p =~= Seq::<Seq<char>>::empty());
        assert(o =~= st.kept);
        assert(trim_fold(o).pending =~= Seq::<Seq<char>>::empty());
    }
}

} // verus!
