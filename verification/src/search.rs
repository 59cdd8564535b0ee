//! The search itself.

use crate::bounds::{midpoint, signed};
use crate::model::{ascending, describes, lemma_outcome_laws, present, probe, splits};
use crate::outcome::SearchResult;
use crate::range::{lower, upper, valid_range};
use std::cmp::Ordering;
use vstd::prelude::*;

verus! {

/// The range handed to a search is empty or reaches past the end of the
/// slice.
#[derive(Clone, Copy, Debug, PartialEq, Eq, Structural)]
pub struct InvalidRange;

/// Searches the elements of `vector` from `range.0` to `range.1`, both
/// inclusive, for one that `comparer` reports as `Equal` to `value`.
///
/// Returns `Match` with the index of such an element, or `NoMatch` with the
/// index examined last. Only elements inside the range are handed to
/// `comparer`.
///
/// The outcome is stated for every sequence `orders` that describes the
/// answers of `comparer`: it is the outcome of bisecting `orders`. Where
/// those answers are in ascending order, a match is reported exactly when
/// the range holds one, and a miss reports an index next to the place
/// where `value` would have to be inserted.
pub fn binary_search<K, T, F>(
    vector: &[T],
    value: &K,
    range: (usize, usize),
    comparer: F,
) -> (result: SearchResult) where F: Fn(&K, &T) -> Ordering
    requires
        valid_range(range, vector@.len()),
        forall|i: int|
            lower(range) <= i <= upper(range) ==> comparer.requires((value, &#[trigger] vector@[i])),
    ensures
        lower(range) <= result.index() <= upper(range),
        result is Match ==> comparer.ensures((value, &vector@[result.index()]), Ordering::Equal),
        result is NoMatch ==> {
            ||| comparer.ensures((value, &vector@[result.index()]), Ordering::Less)
            ||| comparer.ensures((value, &vector@[result.index()]), Ordering::Greater)
        },
        forall|orders: Seq<Ordering>| #[trigger]
            describes(orders, comparer, value, vector@, lower(range), upper(range)) ==> {
                &&& result == probe(orders, lower(range), upper(range))
                &&& result is Match <==> orders[result.index()] == Ordering::Equal
                &&& ascending(orders, lower(range), upper(range)) ==> {
                    &&& result is Match <==> present(orders, lower(range), upper(range))
                    &&& result is NoMatch ==> splits(
                        orders,
                        lower(range),
                        upper(range),
                        result.index(),
                    )
                }
            },
{
    let mut l: i128 = signed(range.0);
    let mut u: i128 = signed(range.1);
    let mut i: usize = 0;
    // `l` and `u` once more, as the integers that the model speaks of.
    let ghost mut lo: int = lower(range);
    let ghost mut hi: int = upper(range);
    loop
        invariant
            lo == l,
            hi == u,
            valid_range(range, vector@.len()),
            forall|k: int|
                lower(range) <= k <= upper(range) ==> comparer.requires(
                    (value, &#[trigger] vector@[k]),
                ),
            lower(range) <= l <= u + 1 <= upper(range) + 1,
            u < l ==> lower(range) <= i <= upper(range),
            u < l ==> {
                let last = SearchResult::NoMatch(i).index();
                ||| comparer.ensures((value, &vector@[last]), Ordering::Less)
                ||| comparer.ensures((value, &vector@[last]), Ordering::Greater)
            },
            forall|orders: Seq<Ordering>| #[trigger]
                describes(orders, comparer, value, vector@, lower(range), upper(range)) ==> {
                    probe(orders, lower(range), upper(range)) == if l <= u {
                        probe(orders, lo, hi)
                    } else {
                        SearchResult::NoMatch(i)
                    }
                },
        decreases u - l + 1,
    {
        if u < l {
            proof {
                lemma_outcome_laws(
                    SearchResult::NoMatch(i),
                    comparer,
                    value,
                    vector@,
                    lower(range),
                    upper(range),
                );
            }
            return SearchResult::NoMatch(i);
        }
        i = midpoint(l, u);
        match comparer(value, &vector[i]) {
            Ordering::Equal => {
                proof {
                    lemma_outcome_laws(
                        SearchResult::Match(i),
                        comparer,
                        value,
                        vector@,
                        lower(range),
                        upper(range),
                    );
                }
                return SearchResult::Match(i);
            },
            Ordering::Less => {
                u = signed(i) - 1;
                proof {
                    hi = i - 1;
                }
            },
            Ordering::Greater => {
                l = signed(i) + 1;
                proof {
                    lo = i + 1;
                }
            },
        }
    }
}

/// [`binary_search`] for callers that cannot vouch for the range: the
/// range is tested first, and refused where it is empty or reaches past
/// the end of `vector`.
pub fn checked_binary_search<K, T, F>(
    vector: &[T],
    value: &K,
    range: (usize, usize),
    comparer: F,
) -> (result: Result<SearchResult, InvalidRange>) where F: Fn(&K, &T) -> Ordering
    requires
        valid_range(range, vector@.len()) ==> forall|i: int|
            lower(range) <= i <= upper(range) ==> comparer.requires((value, &#[trigger] vector@[i])),
    ensures
        result is Ok <==> valid_range(range, vector@.len()),
        result matches Err(error) ==> error == InvalidRange,
        result matches Ok(found) ==> {
            &&& lower(range) <= found.index() <= upper(range)
            &&& found is Match ==> comparer.ensures(
                (value, &vector@[found.index()]),
                Ordering::Equal,
            )
            &&& found is NoMatch ==> {
                ||| comparer.ensures((value, &vector@[found.index()]), Ordering::Less)
                ||| comparer.ensures((value, &vector@[found.index()]), Ordering::Greater)
            }
            &&& forall|orders: Seq<Ordering>| #[trigger]
                describes(orders, comparer, value, vector@, lower(range), upper(range)) ==> found
                    == probe(orders, lower(range), upper(range))
        },
{
    if range.0 <= range.1 && range.1 < vector.len() {
        Ok(binary_search(vector, value, range, comparer))
    } else {
        Err(InvalidRange)
    }
}

} // verus!
