//! Splitting a file into `[Name]` sections.
use vstd::prelude::*;

use crate::text::{join, join_chars, slice_to_vec, trim, trim_chars, vv};

verus! {

/// Whether a line is a section header: `[Name]`, around which whitespace is
/// ignored.
pub open spec fn is_header(l: Seq<char>) -> bool {
    let t = trim(l);
    t.len() >= 2 && t[0] == '[' && t[t.len() - 1] == ']'
}

/// The name in a section header.
pub open spec fn header_name(l: Seq<char>) -> Seq<char> {
    let t = trim(l);
    t.subrange(1, t.len() - 1)
}

/// A section of a file: its name, the index of its header line, and the lines
/// that follow up to the next header.
pub struct SectionText {
    pub name: Seq<char>,
    pub header: nat,
    pub lines: Seq<Seq<char>>,
}

/// The sections of the lines from index `from` on; lines before the first
/// header there belong to no section.
pub open spec fn sections_of(ls: Seq<Seq<char>>, from: nat) -> Seq<SectionText>
    decreases ls.len(),
{
    if ls.len() <= from {
        Seq::empty()
    } else {
        let prev = sections_of(ls.drop_last(), from);
        let l = ls.last();
        if is_header(l) {
            prev.push(SectionText { name: header_name(l), header: (ls.len() - 1) as nat, lines: Seq::empty() })
        } else if prev.len() == 0 {
            prev
        } else {
            prev.update(prev.len() - 1, SectionText { lines: prev.last().lines.push(l), ..prev.last() })
        }
    }
}

/// The text of a section's lines.
pub open spec fn section_body(sec: SectionText) -> Seq<char> {
    join(sec.lines, seq!['\n'])
}

/// Number of blank lines at the end of a list of lines.
pub open spec fn trailing_blank_lines(ls: Seq<Seq<char>>) -> nat
    decreases ls.len(),
{
    if ls.len() > 0 && trim(ls.last()).len() == 0 {
        1 + trailing_blank_lines(ls.drop_last())
    } else {
        0
    }
}

/// A section of a file, as read.
pub struct SectionChunk {
    pub name: Vec<char>,
    pub header: usize,
    pub lines: Vec<Vec<char>>,
}

/// The view of a section read from a file.
pub open spec fn chunk_view(c: SectionChunk) -> SectionText {
    SectionText { name: c.name@, header: c.header as nat, lines: vv(c.lines@) }
}

/// The views of sections read from a file.
pub open spec fn chunks_view(cs: Seq<SectionChunk>) -> Seq<SectionText> {
    cs.map_values(|c: SectionChunk| chunk_view(c))
}

fn is_header_exec(l: &[char]) -> (r: bool)
    ensures
        r == is_header(l@),
{
    let t = trim_chars(l);
    t.len() >= 2 && t[0] == '[' && t[t.len() - 1] == ']'
}

fn header_name_exec(l: &[char]) -> (r: Vec<char>)
    requires
        is_header(l@),
    ensures
        r@ == header_name(l@),
{
    let t = trim_chars(l);
    slice_to_vec(t.as_slice(), 1, t.len() - 1)
}

/// Splits the lines from index `from` on into sections.
pub fn split_sections(ls: &Vec<Vec<char>>, from: usize) -> (r: Vec<SectionChunk>)
    ensures
        chunks_view(r@) == sections_of(vv(ls@), from as nat),
{
    let mut secs: Vec<SectionChunk> = Vec::new();
    let mut i: usize = from;
    if i > ls.len() {
        i = ls.len();
    }
    assert(vv(ls@).take(i as int).len() <= from);
    assert(chunks_view(secs@) =~= Seq::<SectionText>::empty());
    while i < ls.len()
        invariant
            i <= ls.len(),
            chunks_view(secs@) == sections_of(vv(ls@).take(i as int), from as nat),
            i >= from || i == ls.len(),
        decreases ls.len() - i,
    {
        let ghost prev = chunks_view(secs@);
        assert(vv(ls@).take(i + 1).drop_last() =~= vv(ls@).take(i as int));
        assert(vv(ls@).take(i + 1).last() == ls@[i as int]@);
        let l = &ls[i];
        if is_header_exec(l.as_slice()) {
            let name = header_name_exec(l.as_slice());
            secs.push(SectionChunk { name, header: i, lines: Vec::new() });
            assert(vv(Seq::<Vec<char>>::empty()) =~= Seq::<Seq<char>>::empty());
            assert(chunks_view(secs@) =~= prev.push(
                SectionText { name: header_name(ls@[i as int]@), header: i as nat, lines: Seq::empty() },
            ));
        } else if secs.len() > 0 {
            let mut last = secs.pop().unwrap();
            let ghost lv = chunk_view(last);
            let copy = slice_to_vec(l.as_slice(), 0, l.len());
            assert(copy@ =~= l@);
            last.lines.push(copy);
            assert(vv(last.lines@) =~= lv.lines.push(l@));
            secs.push(last);
            assert(chunks_view(secs@) =~= prev.update(
                prev.len() - 1,
                SectionText { lines: prev.last().lines.push(ls@[i as int]@), ..prev.last() },
            ));
        }
        i = i + 1;
    }
    assert(vv(ls@).take(ls@.len() as int) =~= vv(ls@));
    secs
}

/// The text of a section's lines, as characters.
pub fn section_body_exec(c: &SectionChunk) -> (r: Vec<char>)
    ensures
        r@ == section_body(chunk_view(*c)),
{
    proof {
        reveal_strlit("\n");
        assert("\n"@ =~= seq!['\n']);
    }
    join_chars(&c.lines, "\n")
}

/// Number of blank lines at the end of a list of lines.
pub fn trailing_blank_lines_exec(ls: &Vec<Vec<char>>) -> (r: usize)
    ensures
        r == trailing_blank_lines(vv(ls@)),
{
    let mut n: usize = ls.len();
    assert(vv(ls@).take(n as int) =~= vv(ls@));
    while n > 0 && crate::text::is_blank(ls[n - 1].as_slice())
        invariant
            n <= ls.len(),
            trailing_blank_lines(vv(ls@)) == (ls.len() - n) + trailing_blank_lines(vv(ls@).take(n as int)),
        decreases n,
    {
        assert(vv(ls@).take(n as int).drop_last() =~= vv(ls@).take(n - 1));
        assert(vv(ls@).take(n as int).last() == ls@[n - 1]@);
        n = n - 1;
    }
    proof {
        if n > 0 {
            assert(vv(ls@).take(n as int).last() == ls@[n - 1]@);
        }
    }
    ls.len() - n
}

} // verus!
