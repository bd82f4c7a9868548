//! The line filter: the lines of a text that contain a query, in their order.

use vstd::prelude::*;

use crate::text::{char_vec, contains, ended_lines, lines_of, occurs_in, pieces, strip_cr};

verus! {

/// What `str::to_lowercase` makes of a sequence of characters.
pub uninterp spec fn lower_of(s: Seq<char>) -> Seq<char>;

/// Relies on `str::to_lowercase`: the lowercase mapping of each character,
/// which depends on the characters alone; an empty string stays empty.
#[verifier::external_body]
fn lowercase(s: &str) -> (r: String)
    ensures
        r@ == lower_of(s@),
        s@.len() == 0 ==> r@.len() == 0,
{
    s.to_lowercase()
}

/// Whether a search keeps `line` for `query`: in case-sensitive mode the query
/// occurs in the line verbatim; otherwise the lowercased query occurs in the
/// lowercased line.
pub open spec fn keeps(line: Seq<char>, query: Seq<char>, case_sensitive: bool) -> bool {
    if case_sensitive {
        contains(line, query)
    } else {
        contains(lower_of(line), lower_of(query))
    }
}

/// The lines among `lines` that a search for `query` keeps, in order.
pub open spec fn kept(lines: Seq<Seq<char>>, query: Seq<char>, case_sensitive: bool) -> Seq<Seq<char>> {
    lines.filter(|l: Seq<char>| keeps(l, query, case_sensitive))
}

/// The result of a search for `query` in `contents`.
pub open spec fn matching_lines(query: Seq<char>, contents: Seq<char>, case_sensitive: bool) -> Seq<Seq<char>> {
    kept(lines_of(contents), query, case_sensitive)
}

pub(crate) proof fn lemma_kept_push(lines: Seq<Seq<char>>, l: Seq<char>, query: Seq<char>, case_sensitive: bool)
    ensures
        kept(lines.push(l), query, case_sensitive) == if keeps(l, query, case_sensitive) {
            kept(lines, query, case_sensitive).push(l)
        } else {
            kept(lines, query, case_sensitive)
        },
{
    reveal(Seq::filter);
    assert(lines.push(l).drop_last() =~= lines);
}

/// Whether `query` occurs in `line`. With both arguments lowercased this is
/// the test of a case-insensitive search.
pub fn line_matches(line: &str, query: &str) -> (r: bool)
    ensures
        r == contains(line@, query@),
{
    let l = char_vec(line);
    let q = char_vec(query);
    let r = occurs_in(&l, 0, l.len(), &q);
    assert(l@.subrange(0, l.len() as int) =~= l@);
    r
}

/// Whether the search keeps the line `contents[lo..hi]`; `pattern` is the query
/// itself in case-sensitive mode and the lowercased query otherwise.
fn keeps_range(
    contents: &str,
    chars: &Vec<char>,
    lo: usize,
    hi: usize,
    pattern: &Vec<char>,
    folded: &String,
    case_sensitive: bool,
    Ghost(query): Ghost<Seq<char>>,
) -> (r: bool)
    requires
        lo <= hi <= chars.len(),
        chars@ == contents@,
        case_sensitive ==> pattern@ == query,
        !case_sensitive ==> folded@ == lower_of(query),
    ensures
        r == keeps(chars@.subrange(lo as int, hi as int), query, case_sensitive),
{
    if case_sensitive {
        occurs_in(chars, lo, hi, pattern)
    } else {
        let line = contents.substring_char(lo, hi);
        let low = lowercase(line);
        line_matches(low.as_str(), folded.as_str())
    }
}

/// The lines of `contents` that contain `query`, in their order in
/// `contents`; in case-insensitive mode both sides are lowercased first and
/// the lines are returned as they stand in `contents`.
pub fn search_lines<'a>(query: &str, contents: &'a str, case_sensitive: bool) -> (r: Vec<&'a str>)
    ensures
        r.len() == matching_lines(query@, contents@, case_sensitive).len(),
        forall|i: int|
            0 <= i < r.len() ==> (#[trigger] r[i])@ == matching_lines(query@, contents@, case_sensitive)[i],
{
    let chars = char_vec(contents);
    let pattern = char_vec(query);
    let folded = if case_sensitive {
        String::new()
    } else {
        lowercase(query)
    };
    let n = chars.len();
    let mut results: Vec<&'a str> = Vec::new();
    let mut start: usize = 0;
    let mut i: usize = 0;
    let ghost mut done: Seq<Seq<char>> = Seq::empty();
    assert(chars@.take(0) =~= Seq::<char>::empty());
    assert(chars@.subrange(0, 0) =~= Seq::<char>::empty());
    assert(pieces(Seq::<char>::empty()) =~= done.push(Seq::<char>::empty()));
    while i < n
        invariant
            start <= i <= n,
            n == chars.len(),
            chars@ == contents@,
            case_sensitive ==> pattern@ == query@,
            !case_sensitive ==> folded@ == lower_of(query@),
            pieces(chars@.take(i as int)) == done.push(chars@.subrange(start as int, i as int)),
            results.len() == kept(ended_lines(done), query@, case_sensitive).len(),
            forall|k: int|
                0 <= k < results.len() ==> (#[trigger] results[k])@ == kept(ended_lines(done), query@, case_sensitive)[k],
        decreases n - i,
    {
        let ghost prefix = chars@.take(i as int);
        let ghost cur = chars@.subrange(start as int, i as int);
        assert(chars@.take(i + 1).drop_last() =~= prefix);
        if chars[i] == '\n' {
            let end = if i > start && chars[i - 1] == '\r' {
                i - 1
            } else {
                i
            };
            assert(chars@.subrange(start as int, end as int) =~= strip_cr(cur));
            let keep = keeps_range(contents, &chars, start, end, &pattern, &folded, case_sensitive, Ghost(query@));
            proof {
                lemma_kept_push(ended_lines(done), strip_cr(cur), query@, case_sensitive);
                assert(ended_lines(done.push(cur)) =~= ended_lines(done).push(strip_cr(cur)));
            }
            if keep {
                let line = contents.substring_char(start, end);
                results.push(line);
            }
            proof {
                done = done.push(cur);
            }
            start = i + 1;
            assert(chars@.subrange(start as int, i + 1) =~= Seq::<char>::empty());
        } else {
            assert(chars@.subrange(start as int, i + 1) =~= cur.push(chars@[i as int]));
            assert(done.push(cur).update(done.len() as int, cur.push(chars@[i as int])) =~= done.push(
                chars@.subrange(start as int, i + 1),
            ));
        }
        i = i + 1;
    }
    let ghost cur = chars@.subrange(start as int, n as int);
    assert(chars@.take(n as int) =~= chars@);
    assert(done.push(cur).drop_last() =~= done);
    if start < n {
        let keep = keeps_range(contents, &chars, start, n, &pattern, &folded, case_sensitive, Ghost(query@));
        proof {
            lemma_kept_push(ended_lines(done), cur, query@, case_sensitive);
        }
        if keep {
            let line = contents.substring_char(start, n);
            results.push(line);
        }
    }
    results
}

/// Case-sensitive search: the lines of `contents` in which `query` occurs
/// verbatim, in order.
pub fn search<'a>(query: &str, contents: &'a str) -> (r: Vec<&'a str>)
    ensures
        r.len() == matching_lines(query@, contents@, true).len(),
        forall|i: int| 0 <= i < r.len() ==> (#[trigger] r[i])@ == matching_lines(query@, contents@, true)[i],
{
    search_lines(query, contents, true)
}

/// Case-insensitive search: the lines of `contents` whose lowercase form
/// contains the lowercased `query`, in order and as they stand in `contents`.
pub fn search_case_insensitive<'a>(query: &str, contents: &'a str) -> (r: Vec<&'a str>)
    ensures
        r.len() == matching_lines(query@, contents@, false).len(),
        forall|i: int| 0 <= i < r.len() ==> (#[trigger] r[i])@ == matching_lines(query@, contents@, false)[i],
{
    search_lines(query, contents, false)
}

} // verus!
