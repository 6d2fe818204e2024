//! Comparing the text of two `.osu` files while ignoring what does not
//! matter: empty lines, whitespace around and in `key: value` lines, byte
//! order marks, the order of `key: value` lines within a section, and lines
//! before the sections other than the version line.
use vstd::prelude::*;

use crate::text::{
    chars_eq, chars_of, is_ws, is_ws_exec, join, join_chars, lines, lines_of, push_part,
    starts_with, starts_with_str, string_from_chars, trim, trim_chars, vv,
};

verus! {

/// Whether `a` comes before or equals `b` in the order of their characters.
pub open spec fn lex_le(a: Seq<char>, b: Seq<char>) -> bool
    decreases a.len(),
{
    if a.len() == 0 {
        true
    } else if b.len() == 0 {
        false
    } else if a[0] < b[0] {
        true
    } else if a[0] > b[0] {
        false
    } else {
        lex_le(a.drop_first(), b.drop_first())
    }
}

/// Inserts `x` before the first element it comes before or equals.
pub open spec fn insert_sorted(s: Seq<Seq<char>>, x: Seq<char>) -> Seq<Seq<char>>
    decreases s.len(),
{
    if s.len() == 0 {
        seq![x]
    } else if lex_le(x, s[0]) {
        seq![x] + s
    } else {
        seq![s[0]] + insert_sorted(s.drop_first(), x)
    }
}

/// The lines sorted in the order of their characters.
pub open spec fn sort_lines(s: Seq<Seq<char>>) -> Seq<Seq<char>>
    decreases s.len(),
{
    if s.len() == 0 {
        Seq::empty()
    } else {
        insert_sorted(sort_lines(s.drop_last()), s.last())
    }
}

/// The characters of `s` other than `c`.
pub open spec fn remove_char(s: Seq<char>, c: char) -> Seq<char> {
    s.filter(|x: char| x != c)
}

/// The characters of `s` other than whitespace.
pub open spec fn remove_ws(s: Seq<char>) -> Seq<char> {
    s.filter(|x: char| !is_ws(x))
}

/// A line trimmed, with its byte order marks removed.
pub open spec fn normal_line(l: Seq<char>) -> Seq<char> {
    remove_char(trim(l), '\u{feff}')
}

/// Whether a line is `[...]`.
pub open spec fn bracketed(l: Seq<char>) -> bool {
    l.len() > 0 && l[0] == '[' && l.last() == ']'
}

/// `osu file format v`.
pub open spec fn version_prefix() -> Seq<char> {
    seq!['o', 's', 'u', ' ', 'f', 'i', 'l', 'e', ' ', 'f', 'o', 'r', 'm', 'a', 't', ' ', 'v']
}

/// The state of trimming: the lines kept, the `key: value` lines of the
/// current section waiting to be sorted, whether a section has started,
/// whether no line before the sections was met yet, and whether the current
/// section holds only `key: value` lines so far.
pub struct TrimState {
    pub kept: Seq<Seq<char>>,
    pub pending: Seq<Seq<char>>,
    pub in_sections: bool,
    pub first_line: bool,
    pub coloned: bool,
}

/// Trims one line.
pub open spec fn trim_step(st: TrimState, raw: Seq<char>) -> TrimState {
    let l = normal_line(raw);
    if l.len() == 0 {
        st
    } else if !st.in_sections {
        if bracketed(l) {
            TrimState { in_sections: true, kept: st.kept.push(l), ..st }
        } else {
            TrimState {
                kept: if st.first_line && starts_with(l, version_prefix()) { st.kept.push(l) } else { st.kept },
                first_line: false,
                ..st
            }
        }
    } else if bracketed(l) {
        TrimState { kept: st.kept + sort_lines(st.pending) + seq![l], pending: Seq::empty(), coloned: true, ..st }
    } else if l.contains(':') {
        if st.coloned {
            TrimState { pending: st.pending.push(remove_ws(l)), ..st }
        } else {
            TrimState { kept: st.kept.push(remove_ws(l)), ..st }
        }
    } else {
        TrimState { kept: st.kept + st.pending + seq![l], pending: Seq::empty(), coloned: false, ..st }
    }
}

/// Trims the lines in order.
pub open spec fn trim_fold(ls: Seq<Seq<char>>) -> TrimState
    decreases ls.len(),
{
    if ls.len() == 0 {
        TrimState { kept: Seq::empty(), pending: Seq::empty(), in_sections: false, first_line: true, coloned: true }
    } else {
        trim_step(trim_fold(ls.drop_last()), ls.last())
    }
}

/// The trimmed text of an `.osu` file.
pub open spec fn trimmed(s: Seq<char>) -> Seq<char> {
    let st = trim_fold(lines(s));
    join(st.kept + sort_lines(st.pending), seq!['\n'])
}

fn lex_le_exec(a: &[char], b: &[char]) -> (r: bool)
    ensures
        r == lex_le(a@, b@),
{
    let mut i: usize = 0;
    assert(a@.skip(0) =~= a@);
    assert(b@.skip(0) =~= b@);
    while i < a.len() && i < b.len() && a[i] == b[i]
        invariant
            i <= a.len(),
            i <= b.len(),
            lex_le(a@, b@) == lex_le(a@.skip(i as int), b@.skip(i as int)),
        decreases a.len() - i,
    {
        assert(a@.skip(i as int).drop_first() =~= a@.skip(i + 1));
        assert(b@.skip(i as int).drop_first() =~= b@.skip(i + 1));
        i = i + 1;
    }
    if i == a.len() {
        return true;
    }
    if i == b.len() {
        return false;
    }
    assert(a@.skip(i as int)[0] == a@[i as int]);
    assert(b@.skip(i as int)[0] == b@[i as int]);
    a[i] < b[i]
}

proof fn lemma_insert_sorted_at(s: Seq<Seq<char>>, x: Seq<char>, j: int)
    requires
        0 <= j <= s.len(),
        forall|k: int| 0 <= k < j ==> !lex_le(x, #[trigger] s[k]),
        j == s.len() || lex_le(x, s[j]),
    ensures
        insert_sorted(s, x) == s.take(j) + seq![x] + s.skip(j),
    decreases j,
{
    if j == 0 {
        if s.len() == 0 {
            assert(insert_sorted(s, x) =~= s.take(j) + seq![x] + s.skip(j));
        } else {
            assert(s.skip(0) =~= s);
            assert(s.take(0) =~= Seq::<Seq<char>>::empty());
            assert(insert_sorted(s, x) =~= s.take(j) + seq![x] + s.skip(j));
        }
    } else {
        let t = s.drop_first();
        assert forall|k: int| 0 <= k < j - 1 implies !lex_le(x, #[trigger] t[k]) by {
            assert(t[k] == s[k + 1]);
        }
        if j - 1 < t.len() {
            assert(t[j - 1] == s[j]);
        }
        lemma_insert_sorted_at(t, x, j - 1);
        assert(insert_sorted(s, x) =~= s.take(j) + seq![x] + s.skip(j));
    }
}

/// Sorts lines in the order of their characters.
pub fn sort_lines_exec(v: Vec<Vec<char>>) -> (r: Vec<Vec<char>>)
    ensures
        vv(r@) == sort_lines(vv(v@)),
{
    let mut out: Vec<Vec<char>> = Vec::new();
    let mut i: usize = 0;
    let ghost orig = vv(v@);
    let mut src = v;
    assert(orig.take(0) =~= Seq::<Seq<char>>::empty());
    assert(vv(out@) =~= Seq::<Seq<char>>::empty());
    while i < src.len()
        invariant
            i <= src.len(),
            vv(src@) == orig,
            vv(out@) == sort_lines(orig.take(i as int)),
        decreases src.len() - i,
    {
        assert(orig.take(i + 1).drop_last() =~= orig.take(i as int));
        assert(orig.take(i + 1).last() == src@[i as int]@);
        let x = crate::text::slice_to_vec(src[i].as_slice(), 0, src[i].len());
        assert(x@ =~= src@[i as int]@);
        let mut j: usize = 0;
        while j < out.len() && !lex_le_exec(x.as_slice(), out[j].as_slice())
            invariant
                j <= out.len(),
                forall|k: int| 0 <= k < j ==> !lex_le(x@, #[trigger] vv(out@)[k]),
            decreases out.len() - j,
        {
            j = j + 1;
        }
        proof {
            lemma_insert_sorted_at(vv(out@), x@, j as int);
        }
        let ghost before = vv(out@);
        let ghost xv = x@;
        out.insert(j, x);
        assert(vv(out@) =~= before.take(j as int) + seq![xv] + before.skip(j as int));
        i = i + 1;
    }
    assert(orig.take(orig.len() as int) =~= orig);
    out
}


fn remove_char_exec(s: &[char], c: char) -> (r: Vec<char>)
    ensures
        r@ == remove_char(s@, c),
{
    let mut out: Vec<char> = Vec::new();
    let mut i: usize = 0;
    proof {
        reveal(Seq::filter);
    }
    assert(s@.take(0) =~= Seq::<char>::empty());
    while i < s.len()
        invariant
            i <= s.len(),
            out@ == remove_char(s@.take(i as int), c),
        decreases s.len() - i,
    {
        proof {
            reveal(Seq::filter);
        }
        assert(s@.take(i + 1).drop_last() =~= s@.take(i as int));
        assert(s@.take(i + 1).last() == s@[i as int]);
        if s[i] != c {
            out.push(s[i]);
        }
        i = i + 1;
    }
    assert(s@.take(s@.len() as int) =~= s@);
    out
}

fn remove_ws_exec(s: &[char]) -> (r: Vec<char>)
    ensures
        r@ == remove_ws(s@),
{
    let mut out: Vec<char> = Vec::new();
    let mut i: usize = 0;
    proof {
        reveal(Seq::filter);
    }
    assert(s@.take(0) =~= Seq::<char>::empty());
    while i < s.len()
        invariant
            i <= s.len(),
            out@ == s@.take(i as int).filter(|x: char| !is_ws(x)),
        decreases s.len() - i,
    {
        proof {
            reveal(Seq::filter);
        }
        assert(s@.take(i + 1).drop_last() =~= s@.take(i as int));
        assert(s@.take(i + 1).last() == s@[i as int]);
        if !is_ws_exec(s[i]) {
            out.push(s[i]);
        }
        i = i + 1;
    }
    assert(s@.take(s@.len() as int) =~= s@);
    out
}

fn contains_char(s: &[char], c: char) -> (r: bool)
    ensures
        r == s@.contains(c),
{
    let mut i: usize = 0;
    while i < s.len()
        invariant
            i <= s.len(),
            forall|j: int| 0 <= j < i ==> s@[j] != c,
        decreases s.len() - i,
    {
        if s[i] == c {
            assert(s@[i as int] == c);
            return true;
        }
        i = i + 1;
    }
    false
}

fn bracketed_exec(l: &[char]) -> (r: bool)
    ensures
        r == bracketed(l@),
{
    l.len() > 0 && l[0] == '[' && l[l.len() - 1] == ']'
}

fn append_parts(out: &mut Vec<Vec<char>>, more: Vec<Vec<char>>)
    ensures
        vv(final(out)@) == vv(old(out)@) + vv(more@),
{
    let mut i: usize = 0;
    let ghost start = vv(out@);
    while i < more.len()
        invariant
            i <= more.len(),
            vv(out@) == start + vv(more@).take(i as int),
        decreases more.len() - i,
    {
        let x = crate::text::slice_to_vec(more[i].as_slice(), 0, more[i].len());
        assert(x@ =~= more@[i as int]@);
        push_part(out, x);
        assert(vv(out@) =~= start + vv(more@).take(i + 1));
        i = i + 1;
    }
    assert(vv(more@).take(more@.len() as int) =~= vv(more@));
}

/// The state of trimming, by its parts.
pub open spec fn state_of(kept: Seq<Vec<char>>, pending: Seq<Vec<char>>, in_sections: bool, first_line: bool, coloned: bool) -> TrimState {
    TrimState { kept: vv(kept), pending: vv(pending), in_sections, first_line, coloned }
}

#[verifier::rlimit(30)]
fn trim_step_exec(
    kept: &mut Vec<Vec<char>>,
    pending: &mut Vec<Vec<char>>,
    in_sections: &mut bool,
    first_line: &mut bool,
    coloned: &mut bool,
    raw: &[char],
)
    ensures
        state_of(final(kept)@, final(pending)@, *final(in_sections), *final(first_line), *final(coloned))
            == trim_step(state_of(old(kept)@, old(pending)@, *old(in_sections), *old(first_line), *old(coloned)), raw@),
{
    proof {
        reveal_strlit("osu file format v");
        assert("osu file format v"@ =~= version_prefix());
    }
    let ghost st0 = state_of(kept@, pending@, *in_sections, *first_line, *coloned);
    let t = trim_chars(raw);
    let l = remove_char_exec(t.as_slice(), '\u{feff}');
    assert(l@ == normal_line(raw@));
    if l.len() == 0 {
        return;
    }
    if !*in_sections {
        if bracketed_exec(l.as_slice()) {
            *in_sections = true;
            push_part(kept, l);
        } else {
            if *first_line && starts_with_str(l.as_slice(), "osu file format v") {
                push_part(kept, l);
            }
            *first_line = false;
        }
        return;
    }
    if bracketed_exec(l.as_slice()) {
        let mut p: Vec<Vec<char>> = Vec::new();
        std::mem::swap(&mut p, pending);
        assert(vv(p@) == st0.pending);
        let sorted = sort_lines_exec(p);
        append_parts(kept, sorted);
        let ghost lv = l@;
        push_part(kept, l);
        *coloned = true;
        assert(vv(pending@) =~= Seq::<Seq<char>>::empty());
        assert(vv(kept@) == st0.kept + sort_lines(st0.pending) + seq![lv]);
    } else if contains_char(l.as_slice(), ':') {
        let l2 = remove_ws_exec(l.as_slice());
        if *coloned {
            push_part(pending, l2);
        } else {
            push_part(kept, l2);
        }
    } else {
        *coloned = false;
        let mut p: Vec<Vec<char>> = Vec::new();
        std::mem::swap(&mut p, pending);
        assert(vv(p@) == st0.pending);
        append_parts(kept, p);
        let ghost lv = l@;
        push_part(kept, l);
        assert(vv(pending@) =~= Seq::<Seq<char>>::empty());
        assert(vv(kept@) == st0.kept + st0.pending + seq![lv]);
    }
}

/// Trims the text of an `.osu` file into something that can be compared:
/// empty lines, byte order marks and lines before the sections other than the
/// version line are dropped, whitespace is removed from `key: value` lines,
/// and the `key: value` lines that begin a section are sorted.
pub fn osu_str_trimmer(s: &str) -> (r: String)
    ensures
        r@ == trimmed(s@),
{
    let c = chars_of(s);
    let ls = lines_of(c.as_slice());
    let mut kept: Vec<Vec<char>> = Vec::new();
    let mut pending: Vec<Vec<char>> = Vec::new();
    let mut in_sections = false;
    let mut first_line = true;
    let mut coloned = true;
    let mut i: usize = 0;
    assert(vv(ls@).take(0) =~= Seq::<Seq<char>>::empty());
    assert(vv(kept@) =~= Seq::<Seq<char>>::empty());
    assert(vv(pending@) =~= Seq::<Seq<char>>::empty());
    while i < ls.len()
        invariant
            i <= ls.len(),
            vv(ls@) == lines(s@),
            state_of(kept@, pending@, in_sections, first_line, coloned) == trim_fold(vv(ls@).take(i as int)),
        decreases ls.len() - i,
    {
        assert(vv(ls@).take(i + 1).drop_last() =~= vv(ls@).take(i as int));
        assert(vv(ls@).take(i + 1).last() == ls@[i as int]@);
        trim_step_exec(&mut kept, &mut pending, &mut in_sections, &mut first_line, &mut coloned, ls[i].as_slice());
        i = i + 1;
    }
    assert(vv(ls@).take(ls@.len() as int) =~= vv(ls@));
    let sorted = sort_lines_exec(pending);
    append_parts(&mut kept, sorted);
    proof {
        reveal_strlit("\n");
        assert("\n"@ =~= seq!['\n']);
    }
    let out = join_chars(&kept, "\n");
    string_from_chars(&out)
}

/// Whether two `.osu` texts are equal once trimmed.
pub fn osu_str_eq(left: &str, right: &str) -> (r: bool)
    ensures
        r == (trimmed(left@) == trimmed(right@)),
{
    let l = osu_str_trimmer(left);
    let r = osu_str_trimmer(right);
    let lc = chars_of(l.as_str());
    let rc = chars_of(r.as_str());
    chars_eq(lc.as_slice(), rc.as_slice())
}

} // verus!
