//! Case-insensitive search over a list of names, best matches first.

use vstd::prelude::*;
use vstd::utf8::is_ascii_chars;

use crate::text::{
    ascii_lowered, chars_of, contains_run, contains_scattered, has_run, has_scattered,
    lemma_ascii_lowered, lowercase, same_ignoring_ascii_case, starts_with, to_lowercase,
};

verus! {

/// Relevance of a search match. A match at the very start of the target ranks best, then one
/// contiguous run elsewhere, then the query's characters in order with others between them.
#[derive(Debug, Clone, Copy, PartialEq, Eq, Structural)]
pub enum MatchKind {
    Prefix,
    Contains,
    Fuzzy,
}

/// Rank of a match, the best being zero.
pub open spec fn rank(kind: MatchKind) -> int {
    match kind {
        MatchKind::Prefix => 0,
        MatchKind::Contains => 1,
        MatchKind::Fuzzy => 2,
    }
}

/// How a query that has lost its case matches a target that has lost its case.
pub open spec fn kind_of(query: Seq<char>, target: Seq<char>) -> Option<MatchKind> {
    if query.is_prefix_of(target) {
        Some(MatchKind::Prefix)
    } else if contains_run(target, query) {
        Some(MatchKind::Contains)
    } else if contains_scattered(target, query) {
        Some(MatchKind::Fuzzy)
    } else {
        None
    }
}

/// How a query matches a target, whatever the case of either.
pub open spec fn match_of(query: Seq<char>, target: Seq<char>) -> Option<MatchKind> {
    kind_of(lowercase(query), lowercase(target))
}

/// Ranks how `query` matches `target`, both in lower case, or `None` if it doesn't match at all.
pub fn lowercase_match_kind(query: &str, target: &str) -> (r: Option<MatchKind>)
    ensures
        r == kind_of(query@, target@),
{
    let q = chars_of(query);
    let t = chars_of(target);
    if starts_with(&t, &q) {
        Some(MatchKind::Prefix)
    } else if has_run(&t, &q) {
        Some(MatchKind::Contains)
    } else if has_scattered(&t, &q) {
        Some(MatchKind::Fuzzy)
    } else {
        None
    }
}

/// Ranks how `query` matches `target`, case-insensitively, or `None` if it doesn't match at all.
pub fn match_kind(query: &str, target: &str) -> (r: Option<MatchKind>)
    ensures
        r == match_of(query@, target@),
        is_ascii_chars(query@) ==> lowercase(query@) == ascii_lowered(query@),
        is_ascii_chars(target@) ==> lowercase(target@) == ascii_lowered(target@),
{
    let q = to_lowercase(query);
    let t = to_lowercase(target);
    lowercase_match_kind(q.as_str(), t.as_str())
}

/// The positions at which `kinds` holds `kind`, in ascending order.
pub open spec fn positions(kinds: Seq<Option<MatchKind>>, kind: MatchKind) -> Seq<usize>
    decreases kinds.len(),
{
    if kinds.len() == 0 {
        Seq::empty()
    } else {
        let before = positions(kinds.drop_last(), kind);
        if kinds.last() == Some(kind) {
            before.push((kinds.len() - 1) as usize)
        } else {
            before
        }
    }
}

/// The positions of all matches: best kind first, and in list order within one kind.
pub open spec fn best_first(kinds: Seq<Option<MatchKind>>) -> Seq<usize> {
    positions(kinds, MatchKind::Prefix) + positions(kinds, MatchKind::Contains) + positions(
        kinds,
        MatchKind::Fuzzy,
    )
}

/// How `query` matches each of `names`.
pub open spec fn kinds_of(query: Seq<char>, names: Seq<Seq<char>>) -> Seq<Option<MatchKind>> {
    names.map_values(|name: Seq<char>| match_of(query, name))
}

/// The positions in `names` that `query` matches, best first; none for an empty query.
pub open spec fn matches_in(query: Seq<char>, names: Seq<Seq<char>>) -> Seq<usize> {
    if query.len() == 0 {
        Seq::empty()
    } else {
        best_first(kinds_of(query, names))
    }
}

fn push_positions(kinds: &Vec<Option<MatchKind>>, kind: MatchKind, out: &mut Vec<usize>)
    ensures
        final(out)@ == old(out)@ + positions(kinds@, kind),
{
    let ghost start = out@;
    proof {
        assert(kinds@.take(0) =~= Seq::empty());
        assert(start + positions(kinds@.take(0), kind) =~= start);
    }
    let mut k: usize = 0;
    while k < kinds.len()
        invariant
            k <= kinds@.len(),
            out@ == start + positions(kinds@.take(k as int), kind),
        decreases kinds.len() - k,
    {
        proof {
            assert(kinds@.take(k + 1).drop_last() =~= kinds@.take(k as int));
        }
        let here = kinds[k];
        if here == Some(kind) {
            out.push(k);
        }
        k = k + 1;
        proof {
            assert(out@ =~= start + positions(kinds@.take(k as int), kind));
        }
    }
    proof {
        assert(kinds@.take(k as int) =~= kinds@);
    }
}

/// Orders the positions of all matches: best kind first, ties in list order.
pub fn order_matches(kinds: &Vec<Option<MatchKind>>) -> (r: Vec<usize>)
    ensures
        r@ == best_first(kinds@),
{
    let mut out: Vec<usize> = Vec::new();
    push_positions(kinds, MatchKind::Prefix, &mut out);
    push_positions(kinds, MatchKind::Contains, &mut out);
    push_positions(kinds, MatchKind::Fuzzy, &mut out);
    assert(out@ =~= best_first(kinds@));
    out
}

/// The positions of one kind are ascending, in range, and all that there are.
proof fn lemma_positions(kinds: Seq<Option<MatchKind>>, kind: MatchKind)
    requires
        kinds.len() <= usize::MAX,
    ensures
        ({
            let p = positions(kinds, kind);
            &&& forall|i: int|
                0 <= i < p.len() ==> (#[trigger] p[i]) < kinds.len() && kinds[p[i] as int] == Some(
                    kind,
                )
            &&& forall|i: int, j: int| 0 <= i < j < p.len() ==> #[trigger] p[i] < #[trigger] p[j]
            &&& forall|n: usize|
                n < kinds.len() && #[trigger] kinds[n as int] == Some(kind) ==> p.contains(n)
        }),
    decreases kinds.len(),
{
    if kinds.len() > 0 {
        let rest = kinds.drop_last();
        lemma_positions(rest, kind);
        let q = positions(rest, kind);
        let p = positions(kinds, kind);
        assert forall|n: usize|
            n < kinds.len() && #[trigger] kinds[n as int] == Some(kind) implies p.contains(n) by {
            if n < rest.len() {
                assert(rest[n as int] == Some(kind));
                let i = choose|i: int| 0 <= i < q.len() && q[i] == n;
                assert(p[i] == n);
            } else {
                assert(p[p.len() - 1] == n);
            }
        }
        assert forall|i: int| 0 <= i < p.len() implies (#[trigger] p[i]) < kinds.len()
            && kinds[p[i] as int] == Some(kind) by {
            if i < q.len() {
                assert(p[i] == q[i]);
                assert(rest[q[i] as int] == Some(kind));
            }
        }
    }
}

/// A prefix match ranks above a contiguous one, which ranks above a scattered one; ties keep list
/// order. Every position listed is a match, every match is listed, and none twice.
pub proof fn matches_are_ranked(kinds: Seq<Option<MatchKind>>)
    requires
        kinds.len() <= usize::MAX,
    ensures
        forall|i: int|
            0 <= i < best_first(kinds).len() ==> (#[trigger] best_first(kinds)[i]) < kinds.len()
                && kinds[best_first(kinds)[i] as int] is Some,
        forall|n: usize|
            n < kinds.len() && (#[trigger] kinds[n as int]) is Some ==> best_first(kinds).contains(
                n,
            ),
        forall|i: int, j: int|
            0 <= i < j < best_first(kinds).len() ==> {
                let (a, b) = (#[trigger] best_first(kinds)[i], #[trigger] best_first(kinds)[j]);
                let (ra, rb) = (rank(kinds[a as int]->0), rank(kinds[b as int]->0));
                ra < rb || (ra == rb && a < b)
            },
{
    lemma_positions(kinds, MatchKind::Prefix);
    lemma_positions(kinds, MatchKind::Contains);
    lemma_positions(kinds, MatchKind::Fuzzy);
    let (x, y, z) = (
        positions(kinds, MatchKind::Prefix),
        positions(kinds, MatchKind::Contains),
        positions(kinds, MatchKind::Fuzzy),
    );
    let all = best_first(kinds);
    assert forall|n: usize|
        n < kinds.len() && (#[trigger] kinds[n as int]) is Some implies all.contains(n) by {
        match kinds[n as int]->0 {
            MatchKind::Prefix => {
                let i = choose|i: int| 0 <= i < x.len() && x[i] == n;
                assert(all[i] == n);
            },
            MatchKind::Contains => {
                let i = choose|i: int| 0 <= i < y.len() && y[i] == n;
                assert(all[x.len() + i] == n);
            },
            MatchKind::Fuzzy => {
                let i = choose|i: int| 0 <= i < z.len() && z[i] == n;
                assert(all[x.len() + y.len() + i] == n);
            },
        }
    }
}

/// Search does not depend on case: a query or a target that differs only in what lower case
/// takes away matches in the same way.
pub proof fn search_ignores_case(
    query: Seq<char>,
    other_query: Seq<char>,
    target: Seq<char>,
    other_target: Seq<char>,
)
    requires
        lowercase(query) == lowercase(other_query),
        lowercase(target) == lowercase(other_target),
    ensures
        match_of(query, target) == match_of(other_query, other_target),
{
}

/// Among ASCII texts, upper and lower case match alike.
pub proof fn ascii_case_does_not_matter(
    query: Seq<char>,
    other_query: Seq<char>,
    target: Seq<char>,
    other_target: Seq<char>,
)
    requires
        same_ignoring_ascii_case(query, other_query),
        same_ignoring_ascii_case(target, other_target),
    ensures
        kind_of(ascii_lowered(query), ascii_lowered(target)) == kind_of(
            ascii_lowered(other_query),
            ascii_lowered(other_target),
        ),
{
    lemma_ascii_lowered(query, other_query);
    lemma_ascii_lowered(target, other_target);
}

/// The three ways to match widen: a prefix is a contiguous run, and a contiguous run is found in
/// order.
pub proof fn match_kinds_nest(query: Seq<char>, target: Seq<char>)
    ensures
        query.is_prefix_of(target) ==> contains_run(target, query),
        contains_run(target, query) ==> contains_scattered(target, query),
        kind_of(query, target) is Some <==> contains_scattered(target, query),
{
    if query.is_prefix_of(target) {
        assert(target.subrange(0int, 0int + query.len()) == query);
    }
    if contains_run(target, query) {
        let k = choose|k: int|
            0 <= k <= target.len() - query.len() && #[trigger] target.subrange(k, k + query.len())
                == query;
        let at = Seq::new(query.len(), |i: int| k + i);
        assert forall|i: int| 0 <= i < at.len() implies target[#[trigger] at[i]] == query[i] by {
            assert(target.subrange(k, k + query.len())[i] == query[i]);
        }
        assert(crate::text::found_at(target, query, at));
    }
}

/// There are no more matches than names.
pub proof fn matches_fit(kinds: Seq<Option<MatchKind>>)
    ensures
        best_first(kinds).len() <= kinds.len(),
    decreases kinds.len(),
{
    if kinds.len() > 0 {
        matches_fit(kinds.drop_last());
    }
}

/// A query in lower case matches a target in lower case as a prefix if and only if the target
/// begins with it, as contained if and only if it stands further behind in one piece, loosely if
/// and only if its characters stand in order but nowhere in one piece, and not at all otherwise. So
/// every text matches itself as a prefix.
pub proof fn kinds_tell_where_the_query_stands(query: Seq<char>, target: Seq<char>)
    ensures
        ({
            let begins = query.len() <= target.len() && target.take(query.len() as int) == query;
            let inside = exists|k: int|
                0 <= k <= target.len() - query.len() && #[trigger] target.subrange(
                    k,
                    k + query.len(),
                ) == query;
            let in_order = contains_scattered(target, query);
            &&& kind_of(query, target) == Some(MatchKind::Prefix) <==> begins
            &&& kind_of(query, target) == Some(MatchKind::Contains) <==> !begins && inside
            &&& kind_of(query, target) == Some(MatchKind::Fuzzy) <==> !inside && in_order
            &&& kind_of(query, target) is None <==> !in_order
        }),
        kind_of(query, query) == Some(MatchKind::Prefix),
        match_of(query, query) == Some(MatchKind::Prefix),
        kind_of(Seq::empty(), target) == Some(MatchKind::Prefix),
{
    match_kinds_nest(query, target);
    if query.len() <= target.len() {
        assert(target.subrange(0int, 0int + query.len()) =~= target.take(query.len() as int));
    }
    assert(query.is_prefix_of(query));
    assert(lowercase(query).is_prefix_of(lowercase(query)));
    assert(Seq::<char>::empty().is_prefix_of(target));
}

/// What is matched is the lower case of the query against the lower case of the target: it is a
/// prefix if and only if the one begins with the other, and there is no match if and only if the
/// characters do not stand in order.
pub proof fn matching_is_by_lower_case(query: Seq<char>, target: Seq<char>)
    ensures
        ({
            let (q, t) = (lowercase(query), lowercase(target));
            let begins = q.len() <= t.len() && t.take(q.len() as int) == q;
            let inside = exists|k: int|
                0 <= k <= t.len() - q.len() && #[trigger] t.subrange(k, k + q.len()) == q;
            &&& match_of(query, target) == Some(MatchKind::Prefix) <==> begins
            &&& match_of(query, target) == Some(MatchKind::Contains) <==> !begins && inside
            &&& match_of(query, target) is None <==> !contains_scattered(t, q)
        }),
{
    kinds_tell_where_the_query_stands(lowercase(query), lowercase(target));
}

/// A prefix is better than a run elsewhere, and that is better than scattered characters.
pub proof fn ranks_ascend()
    ensures
        rank(MatchKind::Prefix) < rank(MatchKind::Contains) < rank(MatchKind::Fuzzy),
{
}

/// Whether a match of one kind is listed before a match of another.
pub open spec fn outranks(a: MatchKind, b: MatchKind) -> bool {
    (a is Prefix && !(b is Prefix)) || (a is Contains && b is Fuzzy)
}

/// A search lists the names that match, all of them and each once, better matches before worse ones
/// and equally good ones in the order of the names. An empty query finds nothing.
pub proof fn search_lists_the_matches(query: Seq<char>, names: Seq<Seq<char>>)
    requires
        names.len() <= usize::MAX,
    ensures
        query.len() == 0 ==> matches_in(query, names).len() == 0,
        query.len() > 0 ==> {
            let found = matches_in(query, names);
            &&& forall|i: int|
                0 <= i < found.len() ==> (#[trigger] found[i]) < names.len() && contains_scattered(
                    lowercase(names[found[i] as int]),
                    lowercase(query),
                )
            &&& forall|n: usize|
                n < names.len() && contains_scattered(
                    lowercase(#[trigger] names[n as int]),
                    lowercase(query),
                ) ==> found.contains(n)
            &&& forall|i: int, j: int|
                0 <= i < j < found.len() ==> {
                    let a = match_of(query, names[(#[trigger] found[i]) as int])->0;
                    let b = match_of(query, names[(#[trigger] found[j]) as int])->0;
                    outranks(a, b) || (a == b && found[i] < found[j])
                }
        },
{
    if query.len() > 0 {
        let kinds = kinds_of(query, names);
        let found = matches_in(query, names);
        matches_are_ranked(kinds);
        assert forall|n: int| 0 <= n < names.len() implies (#[trigger] kinds[n]) == match_of(
            query,
            names[n],
        ) && (kinds[n] is Some <==> contains_scattered(
            lowercase(names[n]),
            lowercase(query),
        )) by {
            matching_is_by_lower_case(query, names[n]);
        }
        assert forall|i: int| 0 <= i < found.len() implies (#[trigger] found[i]) < names.len()
            && contains_scattered(lowercase(names[found[i] as int]), lowercase(query)) by {
            assert(best_first(kinds)[i] == found[i]);
            assert(kinds[found[i] as int] is Some);
        }
        assert forall|n: usize|
            n < names.len() && contains_scattered(
                lowercase(#[trigger] names[n as int]),
                lowercase(query),
            ) implies found.contains(n) by {
            assert(kinds[n as int] is Some);
        }
        assert forall|i: int, j: int| 0 <= i < j < found.len() implies {
            let a = match_of(query, names[(#[trigger] found[i]) as int])->0;
            let b = match_of(query, names[(#[trigger] found[j]) as int])->0;
            outranks(a, b) || (a == b && found[i] < found[j])
        } by {
            let (x, y) = (best_first(kinds)[i], best_first(kinds)[j]);
            assert(kinds[x as int] is Some && kinds[y as int] is Some);
            assert(rank(kinds[x as int]->0) <= rank(kinds[y as int]->0));
        }
    }
}

} // verus!
