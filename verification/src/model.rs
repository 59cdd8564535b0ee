//! The search as mathematics: a walk over the comparator's answers.
//!
//! A sequence `orders` holds, at each index, how the sought key stands to
//! the element there: `Greater` if the key is above the element, `Less` if
//! it is below, `Equal` if the two match.

use crate::outcome::SearchResult;
use std::cmp::Ordering;
use vstd::prelude::*;

verus! {

/// `orders` records the comparator's answers on the elements from `l` to
/// `u`: whatever `comparer` returns for `value` against `elems[i]` is
/// `orders[i]`.
pub open spec fn describes<K, T, F: Fn(&K, &T) -> Ordering>(
    orders: Seq<Ordering>,
    comparer: F,
    value: &K,
    elems: Seq<T>,
    l: int,
    u: int,
) -> bool {
    &&& orders.len() == elems.len()
    &&& forall|i: int, order: Ordering|
        l <= i <= u && #[trigger] comparer.ensures((value, &elems[i]), order) ==> order
            == orders[i]
}

/// The outcome of bisecting the indices from `l` to `u`: examine the
/// midpoint, stop on `Equal`, go on below it on `Less` and above it on
/// `Greater`, and report the midpoint examined last once nothing is left.
pub open spec fn probe(orders: Seq<Ordering>, l: int, u: int) -> SearchResult
    decreases u - l,
    when l <= u
{
    let i = (l + u) / 2;
    match orders[i] {
        Ordering::Equal => SearchResult::found_at(i),
        Ordering::Less => if i == l {
            SearchResult::missed_at(i)
        } else {
            probe(orders, l, i - 1)
        },
        Ordering::Greater => if i == u {
            SearchResult::missed_at(i)
        } else {
            probe(orders, i + 1, u)
        },
    }
}

/// The answers from `l` to `u` are those of a run sorted in ascending
/// order: once the key is below an element it is below every later one,
/// and once it is above an element it is above every earlier one.
pub open spec fn ascending(orders: Seq<Ordering>, l: int, u: int) -> bool {
    forall|i: int, j: int|
        #![trigger orders[i], orders[j]]
        l <= i <= j <= u ==> {
            &&& orders[i] == Ordering::Less ==> orders[j] == Ordering::Less
            &&& orders[j] == Ordering::Greater ==> orders[i] == Ordering::Greater
        }
}

/// Some element from `l` to `u` matches the key.
pub open spec fn present(orders: Seq<Ordering>, l: int, u: int) -> bool {
    exists|k: int| l <= k <= u && #[trigger] orders[k] == Ordering::Equal
}

/// The key belongs right before or right after index `j`: it is above
/// every element from `l` up to `j`, and below every element after `j` up
/// to `u`. The element at `j` itself may lie on either side.
pub open spec fn splits(orders: Seq<Ordering>, l: int, u: int, j: int) -> bool {
    &&& forall|k: int| l <= k < j ==> #[trigger] orders[k] == Ordering::Greater
    &&& forall|k: int| j < k <= u ==> #[trigger] orders[k] == Ordering::Less
}

/// The index that a search reports lies in the range searched, and the
/// search reports a match exactly when the element there matches the key.
pub proof fn lemma_probe_stays_in_range(orders: Seq<Ordering>, l: int, u: int)
    requires
        0 <= l <= u <= usize::MAX,
    ensures
        l <= probe(orders, l, u).index() <= u,
        probe(orders, l, u) is Match <==> orders[probe(orders, l, u).index()] == Ordering::Equal,
    decreases u - l,
{
    let i = (l + u) / 2;
    match orders[i] {
        Ordering::Equal => {},
        Ordering::Less => {
            if i != l {
                lemma_probe_stays_in_range(orders, l, i - 1);
            }
        },
        Ordering::Greater => {
            if i != u {
                lemma_probe_stays_in_range(orders, i + 1, u);
            }
        },
    }
}

/// On answers in ascending order the search finds a matching element
/// whenever the range holds one; when it holds none, the index reported
/// is next to the place where the key would have to be inserted.
pub proof fn lemma_probe_on_ascending(orders: Seq<Ordering>, l: int, u: int)
    requires
        0 <= l <= u <= usize::MAX,
        ascending(orders, l, u),
    ensures
        probe(orders, l, u) is Match <==> present(orders, l, u),
        probe(orders, l, u) is NoMatch ==> splits(orders, l, u, probe(orders, l, u).index()),
    decreases u - l,
{
    let i = (l + u) / 2;
    match orders[i] {
        Ordering::Equal => {},
        Ordering::Less => {
            if i != l {
                lemma_probe_on_ascending(orders, l, i - 1);
                lemma_probe_stays_in_range(orders, l, i - 1);
            }
        },
        Ordering::Greater => {
            if i != u {
                lemma_probe_on_ascending(orders, i + 1, u);
                lemma_probe_stays_in_range(orders, i + 1, u);
            }
        },
    }
}

/// The outcome depends on the answers inside the range alone.
pub proof fn lemma_probe_ignores_outside(a: Seq<Ordering>, b: Seq<Ordering>, l: int, u: int)
    requires
        l <= u,
        forall|k: int| l <= k <= u ==> a[k] == b[k],
    ensures
        probe(a, l, u) == probe(b, l, u),
    decreases u - l,
{
    let i = (l + u) / 2;
    if a[i] == Ordering::Less && i != l {
        lemma_probe_ignores_outside(a, b, l, i - 1);
    }
    if a[i] == Ordering::Greater && i != u {
        lemma_probe_ignores_outside(a, b, i + 1, u);
    }
}

/// An outcome that agrees with bisecting every sequence that describes the
/// comparator lies in the range, is a match exactly when the element at
/// its index matches the key and, where the answers are in ascending
/// order, is a match exactly when the range holds one and otherwise sits
/// next to the place where the key would have to be inserted.
pub proof fn lemma_outcome_laws<K, T, F: Fn(&K, &T) -> Ordering>(
    result: SearchResult,
    comparer: F,
    value: &K,
    elems: Seq<T>,
    l: int,
    u: int,
)
    requires
        0 <= l <= u <= usize::MAX,
        forall|orders: Seq<Ordering>| #[trigger]
            describes(orders, comparer, value, elems, l, u) ==> result == probe(orders, l, u),
    ensures
        forall|orders: Seq<Ordering>| #[trigger]
            describes(orders, comparer, value, elems, l, u) ==> {
                &&& l <= result.index() <= u
                &&& result is Match <==> orders[result.index()] == Ordering::Equal
                &&& ascending(orders, l, u) ==> {
                    &&& result is Match <==> present(orders, l, u)
                    &&& result is NoMatch ==> splits(orders, l, u, result.index())
                }
            },
{
    assert forall|orders: Seq<Ordering>| #[trigger]
        describes(orders, comparer, value, elems, l, u) implies {
        &&& l <= result.index() <= u
        &&& result is Match <==> orders[result.index()] == Ordering::Equal
        &&& ascending(orders, l, u) ==> {
            &&& result is Match <==> present(orders, l, u)
            &&& result is NoMatch ==> splits(orders, l, u, result.index())
        }
    } by {
        lemma_probe_stays_in_range(orders, l, u);
        if ascending(orders, l, u) {
            lemma_probe_on_ascending(orders, l, u);
        }
    }
}

/// Two outcomes of searching the same elements for the same key are the
/// same outcome, as long as the comparator has one answer for each
/// element: nothing else enters the search.
pub proof fn lemma_outcome_is_unique<K, T, F: Fn(&K, &T) -> Ordering>(
    first: SearchResult,
    second: SearchResult,
    orders: Seq<Ordering>,
    comparer: F,
    value: &K,
    elems: Seq<T>,
    l: int,
    u: int,
)
    requires
        describes(orders, comparer, value, elems, l, u),
        forall|o: Seq<Ordering>| #[trigger]
            describes(o, comparer, value, elems, l, u) ==> first == probe(o, l, u),
        forall|o: Seq<Ordering>| #[trigger]
            describes(o, comparer, value, elems, l, u) ==> second == probe(o, l, u),
    ensures
        first == second,
{
}

} // verus!
