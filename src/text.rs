//! Lines of a text and literal substring matching, over sequences of characters.

use vstd::prelude::*;

verus! {

/// Whether `pat` occurs in `text` as a contiguous run of characters.
pub open spec fn contains(text: Seq<char>, pat: Seq<char>) -> bool {
    exists|i: int| 0 <= i <= text.len() - pat.len() && #[trigger] text.subrange(i, i + pat.len()) == pat
}

/// The pieces of `s` between newline characters: one more than the number of
/// newlines, each without its newline.
pub open spec fn pieces(s: Seq<char>) -> Seq<Seq<char>>
    decreases s.len(),
{
    if s.len() == 0 {
        seq![Seq::<char>::empty()]
    } else if s.last() == '\n' {
        pieces(s.drop_last()).push(Seq::<char>::empty())
    } else {
        let p = pieces(s.drop_last());
        p.update(p.len() - 1, p.last().push(s.last()))
    }
}

/// A piece that a newline ended loses one carriage return before that newline.
pub open spec fn strip_cr(l: Seq<char>) -> Seq<char> {
    if l.len() > 0 && l.last() == '\r' {
        l.drop_last()
    } else {
        l
    }
}

/// Each piece that a newline ended, with its carriage return dropped.
pub open spec fn ended_lines(p: Seq<Seq<char>>) -> Seq<Seq<char>> {
    p.map_values(|l: Seq<char>| strip_cr(l))
}

/// The lines of `s`: the text is split at each newline, a line ended by a
/// newline drops one carriage return before it, and the last line needs no
/// newline (an empty final piece is no line).
pub open spec fn lines_of(s: Seq<char>) -> Seq<Seq<char>> {
    let p = pieces(s);
    let ended = ended_lines(p.drop_last());
    if p.last().len() == 0 {
        ended
    } else {
        ended.push(p.last())
    }
}

/// The characters of `s`, in order.
pub(crate) fn char_vec(s: &str) -> (v: Vec<char>)
    ensures
        v@ == s@,
{
    let mut v: Vec<char> = Vec::new();
    for c in it: s.chars()
        invariant
            v@ == it.seq().take(it.index() as int),
    {
        v.push(c);
    }
    v
}

/// Whether `pat` occurs in `text[lo..hi]`.
pub(crate) fn occurs_in(text: &Vec<char>, lo: usize, hi: usize, pat: &Vec<char>) -> (r: bool)
    requires
        lo <= hi <= text.len(),
    ensures
        r == contains(text@.subrange(lo as int, hi as int), pat@),
{
    let ghost window = text@.subrange(lo as int, hi as int);
    let plen = pat.len();
    if plen > hi - lo {
        return false;
    }
    let last = hi - plen;
    let mut i = lo;
    while i <= last
        invariant
            lo <= i <= last + 1,
            last + plen == hi,
            hi <= text.len(),
            plen == pat.len(),
            window == text@.subrange(lo as int, hi as int),
            forall|k: int|
                0 <= k < i - lo ==> #[trigger] window.subrange(k, k + plen) != pat@,
        decreases last + 1 - i,
    {
        let mut j: usize = 0;
        let mut same = true;
        while j < plen && same
            invariant
                j <= plen,
                i + plen <= text.len(),
                plen == pat.len(),
                same ==> forall|m: int| 0 <= m < j ==> text@[i + m] == pat@[m],
                !same ==> j < plen && text@[i + j] != pat@[j as int],
            decreases plen - j + (if same { 1int } else { 0int }),
        {
            if text[i + j] != pat[j] {
                same = false;
            } else {
                j = j + 1;
            }
        }
        assert(window.subrange(i - lo, i - lo + plen) =~= text@.subrange(i as int, i + plen));
        if same {
            assert(text@.subrange(i as int, i + plen) =~= pat@);
            return true;
        }
        assert(text@.subrange(i as int, i + plen)[j as int] != pat@[j as int]);
        i = i + 1;
    }
    false
}

} // verus!
