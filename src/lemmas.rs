//! What holds of every search, stated over the line model.

use vstd::prelude::*;

use crate::search::{keeps, kept, lemma_kept_push, lower_of, matching_lines};
use crate::text::{contains, lines_of, pieces};

verus! {

/// `sub` is `lines` at the positions `idx`, which strictly increase.
pub open spec fn picks(idx: Seq<int>, lines: Seq<Seq<char>>, sub: Seq<Seq<char>>) -> bool {
    &&& idx.len() == sub.len()
    &&& forall|k: int| 0 <= k < idx.len() ==> 0 <= #[trigger] idx[k] < lines.len() && lines[idx[k]] == sub[k]
    &&& forall|j: int, k: int| 0 <= j < k < idx.len() ==> idx[j] < idx[k]
}

proof fn lemma_kept_indices(lines: Seq<Seq<char>>, query: Seq<char>, case_sensitive: bool) -> (idx: Seq<int>)
    ensures
        idx.len() == kept(lines, query, case_sensitive).len(),
        forall|k: int|
            0 <= k < idx.len() ==> 0 <= #[trigger] idx[k] < lines.len() && lines[idx[k]]
                == kept(lines, query, case_sensitive)[k],
        forall|j: int, k: int| 0 <= j < k < idx.len() ==> idx[j] < idx[k],
    decreases lines.len(),
{
    if lines.len() == 0 {
        reveal(Seq::filter);
        Seq::empty()
    } else {
        let init = lines.drop_last();
        let l = lines.last();
        assert(init.push(l) =~= lines);
        lemma_kept_push(init, l, query, case_sensitive);
        let before = lemma_kept_indices(init, query, case_sensitive);
        if keeps(l, query, case_sensitive) {
            before.push(lines.len() - 1)
        } else {
            before
        }
    }
}

proof fn lemma_kept_all(lines: Seq<Seq<char>>, query: Seq<char>, case_sensitive: bool)
    requires
        forall|i: int| 0 <= i < lines.len() ==> keeps(#[trigger] lines[i], query, case_sensitive),
    ensures
        kept(lines, query, case_sensitive) == lines,
    decreases lines.len(),
{
    if lines.len() == 0 {
        reveal(Seq::filter);
    } else {
        let init = lines.drop_last();
        assert(init.push(lines.last()) =~= lines);
        lemma_kept_push(init, lines.last(), query, case_sensitive);
        lemma_kept_all(init, query, case_sensitive);
    }
}

proof fn lemma_kept_none(lines: Seq<Seq<char>>, query: Seq<char>, case_sensitive: bool)
    requires
        forall|i: int| 0 <= i < lines.len() ==> !keeps(#[trigger] lines[i], query, case_sensitive),
    ensures
        kept(lines, query, case_sensitive) == Seq::<Seq<char>>::empty(),
    decreases lines.len(),
{
    if lines.len() == 0 {
        reveal(Seq::filter);
    } else {
        let init = lines.drop_last();
        assert(init.push(lines.last()) =~= lines);
        lemma_kept_push(init, lines.last(), query, case_sensitive);
        lemma_kept_none(init, query, case_sensitive);
    }
}

/// A case-sensitive search returns only lines that contain the query, and it
/// returns them as a subsequence of the lines of the contents: each is one of
/// those lines, and they come in the order in which they stand there.
pub proof fn lemma_search_returns_matching_lines_in_order(query: Seq<char>, contents: Seq<char>)
    ensures
        forall|k: int|
            0 <= k < matching_lines(query, contents, true).len() ==> contains(
                #[trigger] matching_lines(query, contents, true)[k],
                query,
            ),
        exists|idx: Seq<int>| #[trigger] picks(idx, lines_of(contents), matching_lines(query, contents, true)),
{
    let lines = lines_of(contents);
    assert forall|k: int| 0 <= k < matching_lines(query, contents, true).len() implies contains(
        #[trigger] matching_lines(query, contents, true)[k],
        query,
    ) by {
        lines.lemma_filter_pred(|l: Seq<char>| keeps(l, query, true), k);
    }
    let idx = lemma_kept_indices(lines, query, true);
    assert(picks(idx, lines, matching_lines(query, contents, true)));
}

/// A case-insensitive search keeps a line exactly when a case-sensitive
/// search for the lowercased query keeps the lowercased line; the lines it
/// keeps come back as they stand in the contents.
pub proof fn lemma_insensitive_is_sensitive_on_lowercase(query: Seq<char>, contents: Seq<char>)
    ensures
        forall|line: Seq<char>|
            #[trigger] keeps(line, query, false) == keeps(lower_of(line), lower_of(query), true),
        matching_lines(query, contents, false) == lines_of(contents).filter(
            |l: Seq<char>| keeps(lower_of(l), lower_of(query), true),
        ),
{
    let a = |l: Seq<char>| keeps(l, query, false);
    let b = |l: Seq<char>| keeps(lower_of(l), lower_of(query), true);
    assert(a =~= b);
}

/// The same query and contents give the same lines, however often the search
/// runs.
pub proof fn lemma_search_deterministic(
    query: Seq<char>,
    contents: Seq<char>,
    case_sensitive: bool,
    first: Seq<Seq<char>>,
    second: Seq<Seq<char>>,
)
    requires
        first == matching_lines(query, contents, case_sensitive),
        second == matching_lines(query, contents, case_sensitive),
    ensures
        first == second,
{
}

/// An empty query is found in every line: a case-sensitive search for it
/// returns all the lines.
pub proof fn lemma_empty_query_matches_all(contents: Seq<char>)
    ensures
        matching_lines(Seq::empty(), contents, true) == lines_of(contents),
{
    let lines = lines_of(contents);
    assert forall|i: int| 0 <= i < lines.len() implies keeps(#[trigger] lines[i], Seq::empty(), true) by {
        let empty = Seq::<char>::empty();
        assert(lines[i].subrange(0, 0 + empty.len() as int) =~= empty);
    }
    lemma_kept_all(lines, Seq::empty(), true);
}

/// A query longer than every line is found in none of them.
pub proof fn lemma_long_query_matches_none(query: Seq<char>, contents: Seq<char>)
    requires
        forall|i: int| 0 <= i < lines_of(contents).len() ==> (#[trigger] lines_of(contents)[i]).len() < query.len(),
    ensures
        matching_lines(query, contents, true) == Seq::<Seq<char>>::empty(),
{
    lemma_kept_none(lines_of(contents), query, true);
}

/// Empty contents have no lines, and where there is no line, a search in
/// either mode returns nothing.
pub proof fn lemma_no_lines_no_matches(query: Seq<char>, contents: Seq<char>, case_sensitive: bool)
    ensures
        contents.len() == 0 ==> lines_of(contents).len() == 0,
        lines_of(contents).len() == 0 ==> matching_lines(query, contents, case_sensitive) == Seq::<Seq<char>>::empty(),
{
    if contents.len() == 0 {
        assert(pieces(contents).drop_last() =~= Seq::<Seq<char>>::empty());
    }
    if lines_of(contents).len() == 0 {
        lemma_kept_none(lines_of(contents), query, case_sensitive);
    }
}

} // verus!
