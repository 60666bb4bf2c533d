//! Route matching: the longest path prefix in the route table wins,
//! with declaration order breaking ties.

use vstd::prelude::*;
use crate::config::routes_config::RouteRule;
use crate::text::{is_prefix_of, str_starts_with};

verus! {

/// The index of the matched rule: the longest matching prefix wins,
/// and among rules with equally long matching prefixes the earliest
/// declared wins.
pub open spec fn spec_match_index(routes: Seq<RouteRule>, path: Seq<char>) -> Option<int>
    decreases routes.len(),
{
    if routes.len() == 0 {
        None
    } else {
        let rest = spec_match_index(routes.drop_last(), path);
        let last_idx = routes.len() - 1;
        if routes[last_idx].matches(path) {
            match rest {
                Some(i) => if routes[last_idx].path_prefix@.len() > routes[i].path_prefix@.len() {
                    Some(last_idx)
                } else {
                    Some(i)
                },
                None => Some(last_idx),
            }
        } else {
            rest
        }
    }
}

/// Finds the route rule for `path`, longest prefix first, earlier
/// declarations winning ties.
pub fn match_route(routes: &Vec<RouteRule>, path: &str) -> (r: Option<usize>)
    ensures
        match r {
            Some(i) => spec_match_index(routes@, path@) == Some(i as int) && i < routes@.len(),
            None => spec_match_index(routes@, path@) is None,
        },
{
    let mut best: Option<usize> = None;
    let mut i: usize = 0;
    while i < routes.len()
        invariant
            0 <= i <= routes@.len(),
            match best {
                Some(b) => spec_match_index(routes@.subrange(0, i as int), path@) == Some(b as int)
                    && b < i,
                None => spec_match_index(routes@.subrange(0, i as int), path@) is None,
            },
        decreases routes@.len() - i,
    {
        let ghost pre = routes@.subrange(0, i as int);
        let ghost cur = routes@.subrange(0, i + 1);
        proof {
            assert(cur.drop_last() =~= pre);
            assert(cur.last() == routes@[i as int]);
        }
        if str_starts_with(path, routes[i].path_prefix.as_str()) {
            match best {
                Some(b) => {
                    let blen = routes[b].path_prefix.as_str().unicode_len();
                    let here = routes[i].path_prefix.as_str().unicode_len();
                    if here > blen {
                        best = Some(i);
                    }
                }
                None => {
                    best = Some(i);
                }
            }
        }
        i += 1;
    }
    proof {
        assert(routes@.subrange(0, routes@.len() as int) =~= routes@);
    }
    best
}

/// What a match result means: the matched rule's prefix is a prefix of
/// the path, no matching rule has a longer prefix, and among rules
/// matching with the same length the matched one is the earliest.
pub proof fn lemma_match_characterization(routes: Seq<RouteRule>, path: Seq<char>)
    ensures
        match spec_match_index(routes, path) {
            Some(i) => {
                &&& 0 <= i < routes.len()
                &&& routes[i].matches(path)
                &&& forall|j: int|
                    0 <= j < routes.len() && (#[trigger] routes[j]).matches(path)
                        ==> routes[j].path_prefix@.len() <= routes[i].path_prefix@.len()
                &&& forall|j: int|
                    0 <= j < i && (#[trigger] routes[j]).matches(path)
                        ==> routes[j].path_prefix@.len() < routes[i].path_prefix@.len()
            },
            None => forall|j: int|
                0 <= j < routes.len() ==> !(#[trigger] routes[j]).matches(path),
        },
    decreases routes.len(),
{
    if routes.len() > 0 {
        lemma_match_characterization(routes.drop_last(), path);
        assert(forall|j: int|
            0 <= j < routes.len() - 1 ==> routes.drop_last()[j] == routes[j]);
    }
}

/// Two prefixes are related when one is a prefix of the other (equal
/// prefixes included).  Any two rules matching the same path have
/// related prefixes, since both prefixes start that path.
pub open spec fn prefixes_related(a: Seq<char>, b: Seq<char>) -> bool {
    is_prefix_of(a, b) || is_prefix_of(b, a)
}

/// Route matching is order-independent beyond longest-prefix, in
/// general: when `routes2` rearranges `routes1` by a permutation that
/// keeps the relative order of every pair of rules with related
/// prefixes — rules whose prefixes are not prefixes of one another may
/// move freely — then matching any path yields the same rule in both
/// tables, in particular the same `id`.  The permutation is given with
/// its inverse: `routes2[perm[i]] == routes1[i]` and `perm[inv[k]] ==
/// k`.
pub proof fn lemma_match_reorder_free(
    routes1: Seq<RouteRule>,
    routes2: Seq<RouteRule>,
    perm: Seq<int>,
    inv: Seq<int>,
    path: Seq<char>,
)
    requires
        perm.len() == routes1.len(),
        inv.len() == routes1.len(),
        routes2.len() == routes1.len(),
        forall|i: int| 0 <= i < perm.len() ==> 0 <= #[trigger] perm[i] < routes2.len(),
        forall|k: int| 0 <= k < inv.len() ==> 0 <= #[trigger] inv[k] < routes1.len(),
        forall|k: int| 0 <= k < inv.len() ==> perm[#[trigger] inv[k]] == k,
        forall|i: int| 0 <= i < routes1.len() ==> routes2[#[trigger] perm[i]] == routes1[i],
        forall|i: int, j: int|
            0 <= i < j < routes1.len() && prefixes_related(
                routes1[i].path_prefix@,
                routes1[j].path_prefix@,
            ) ==> #[trigger] perm[i] < #[trigger] perm[j],
    ensures
        match (spec_match_index(routes1, path), spec_match_index(routes2, path)) {
            (Some(i1), Some(i2)) => routes1[i1] == routes2[i2],
            (None, None) => true,
            _ => false,
        },
{
    lemma_match_characterization(routes1, path);
    lemma_match_characterization(routes2, path);
    match (spec_match_index(routes1, path), spec_match_index(routes2, path)) {
        (Some(i1), Some(i2)) => {
            // the rule at i2 came from somewhere in routes1
            let k1 = inv[i2];
            assert(perm[k1] == i2);
            assert(routes1[k1] == routes2[i2]);
            assert(routes1[k1].matches(path));
            // both tables see the same maximal prefix length
            let len1 = routes1[i1].path_prefix@.len();
            let len2 = routes2[i2].path_prefix@.len();
            assert(routes1[k1].path_prefix@.len() <= len1);
            assert(routes2[perm[i1]] == routes1[i1]);
            assert(routes2[perm[i1]].matches(path));
            assert(routes1[i1].path_prefix@.len() <= len2);
            assert(len1 == len2);
            if k1 < i1 {
                // an earlier rule of maximal length contradicts i1 being first
                assert(routes1[k1].path_prefix@.len() < len1);
                assert(false);
            }
            if k1 > i1 {
                // equal-length prefixes of the same path are the same prefix,
                // so the pair is related and keeps its order
                assert(routes1[i1].path_prefix@ == path.subrange(0, len1 as int));
                assert(routes1[k1].path_prefix@ == path.subrange(0, len2 as int));
                assert(routes1[i1].path_prefix@ == routes1[k1].path_prefix@);
                assert(routes1[i1].path_prefix@.subrange(0, len1 as int)
                    =~= routes1[i1].path_prefix@);
                assert(prefixes_related(routes1[i1].path_prefix@, routes1[k1].path_prefix@));
                assert(perm[i1] < perm[k1]);
                assert(perm[k1] == i2);
                assert(routes2[perm[i1]].path_prefix@.len() < len2);
                assert(false);
            }
            assert(k1 == i1);
        }
        (Some(i1), None) => {
            assert(routes2[perm[i1]] == routes1[i1]);
            assert(routes2[perm[i1]].matches(path));
            assert(false);
        }
        (None, Some(i2)) => {
            let k1 = inv[i2];
            assert(perm[k1] == i2);
            assert(routes1[k1] == routes2[i2]);
            assert(routes1[k1].matches(path));
            assert(false);
        }
        (None, None) => {}
    }
}

/// A multiset form of order independence: when two route tables hold
/// the same rules (as a multiset) and no two rules share a path
/// prefix, matching any path yields the same rule in both tables.
pub proof fn lemma_match_order_independent(
    routes1: Seq<RouteRule>,
    routes2: Seq<RouteRule>,
    path: Seq<char>,
)
    requires
        routes1.to_multiset() == routes2.to_multiset(),
        forall|i: int, j: int|
            0 <= i < j < routes1.len() ==> (#[trigger] routes1[i]).path_prefix@ != (
            #[trigger] routes1[j]).path_prefix@,
    ensures
        match (spec_match_index(routes1, path), spec_match_index(routes2, path)) {
            (Some(i1), Some(i2)) => routes1[i1] == routes2[i2],
            (None, None) => true,
            _ => false,
        },
{
    broadcast use vstd::seq_lib::group_to_multiset_ensures;

    lemma_match_characterization(routes1, path);
    lemma_match_characterization(routes2, path);
    match (spec_match_index(routes1, path), spec_match_index(routes2, path)) {
        (Some(i1), Some(i2)) => {
            let r1 = routes1[i1];
            let r2 = routes2[i2];
            // each matched rule also occurs in the other table
            assert(routes1.contains(r1));
            assert(routes1.to_multiset().count(r1) > 0);
            assert(routes2.to_multiset().count(r1) > 0);
            assert(routes2.contains(r1));
            assert(routes2.contains(r2));
            assert(routes2.to_multiset().count(r2) > 0);
            assert(routes1.to_multiset().count(r2) > 0);
            assert(routes1.contains(r2));
            // so neither prefix can be strictly longer than the other
            let k1 = choose|k: int| 0 <= k < routes2.len() && routes2[k] == r1;
            assert(routes2[k1].matches(path));
            assert(r1.path_prefix@.len() <= r2.path_prefix@.len());
            let k2 = choose|k: int| 0 <= k < routes1.len() && routes1[k] == r2;
            assert(routes1[k2].matches(path));
            assert(r2.path_prefix@.len() <= r1.path_prefix@.len());
            // equal-length prefixes of the same path are the same prefix
            assert(r1.path_prefix@ == path.subrange(0, r1.path_prefix@.len() as int));
            assert(r2.path_prefix@ == path.subrange(0, r2.path_prefix@.len() as int));
            assert(r1.path_prefix@ == r2.path_prefix@);
            // prefixes are unique in routes1, so the rules coincide
            assert(routes1[k2].path_prefix@ == routes1[i1].path_prefix@);
            if k2 != i1 {
                assert(false);
            }
        }
        (Some(i1), None) => {
            let r1 = routes1[i1];
            assert(routes1.contains(r1));
            assert(routes1.to_multiset().count(r1) > 0);
            assert(routes2.to_multiset().count(r1) > 0);
            assert(routes2.contains(r1));
            let k = choose|k: int| 0 <= k < routes2.len() && routes2[k] == r1;
            assert(routes2[k].matches(path));
            assert(false);
        }
        (None, Some(i2)) => {
            let r2 = routes2[i2];
            assert(routes2.contains(r2));
            assert(routes2.to_multiset().count(r2) > 0);
            assert(routes1.to_multiset().count(r2) > 0);
            assert(routes1.contains(r2));
            let k = choose|k: int| 0 <= k < routes1.len() && routes1[k] == r2;
            assert(routes1[k].matches(path));
            assert(false);
        }
        (None, None) => {}
    }
}

} // verus!
