//! Ready-made three-way comparators.

use crate::model::{
    ascending, describes, lemma_probe_on_ascending, lemma_probe_stays_in_range, probe,
};
use std::cmp::Ordering;
use vstd::prelude::*;
use vstd::std_specs::cmp::PartialOrdSpec;

verus! {

/// A key together with the value stored under it.
pub struct KeyValuePair<K, V> {
    pub key: K,
    pub value: V,
}

/// How `x` stands to `y` in the usual order of the integers.
pub open spec fn uint_order(x: usize, y: usize) -> Ordering {
    if x > y {
        Ordering::Greater
    } else if x < y {
        Ordering::Less
    } else {
        Ordering::Equal
    }
}

/// How `key` stands to `other` in the order of `K`: `Greater` or `Less`
/// where the order says so, and `Equal` in every other case.
pub open spec fn key_order<K: Ord>(key: &K, other: &K) -> Ordering {
    if key.partial_cmp_spec(other) == Some(Ordering::Greater) {
        Ordering::Greater
    } else if key.partial_cmp_spec(other) == Some(Ordering::Less) {
        Ordering::Less
    } else {
        Ordering::Equal
    }
}

/// Compares a key with the key of a stored pair.
pub fn compare_keys<K: Ord + Eq, V>(key: &K, key_value: &Option<Box<KeyValuePair<K, V>>>) -> (order:
    Ordering)
    requires
        key_value is Some,
    ensures
        K::obeys_partial_cmp_spec() ==> order == key_order(key, &key_value->0.key),
{
    let key_value_key: &K = &key_value.as_ref().unwrap().key;
    if *key > *key_value_key {
        Ordering::Greater
    } else if *key < *key_value_key {
        Ordering::Less
    } else {
        Ordering::Equal
    }
}

/// Compares two unsigned integers.
pub fn compare_uint(x: &usize, y: &usize) -> (order: Ordering)
    ensures
        order == uint_order(*x, *y),
{
    if *x > *y {
        Ordering::Greater
    } else if *x < *y {
        Ordering::Less
    } else {
        Ordering::Equal
    }
}

/// The answers of [`compare_uint`] for `value` against each of `elems`.
pub open spec fn uint_orders(value: usize, elems: Seq<usize>) -> Seq<Ordering> {
    Seq::new(elems.len(), |i: int| uint_order(value, elems[i]))
}

/// The numbers from index `l` to index `u` never decrease.
pub open spec fn sorted_uints(elems: Seq<usize>, l: int, u: int) -> bool {
    forall|i: int, j: int| l <= i <= j <= u ==> elems[i] <= elems[j]
}

/// `uint_orders` describes `compare_uint`, and its answers on sorted
/// numbers are in ascending order.
pub proof fn lemma_uint_orders(value: &usize, elems: Seq<usize>, l: int, u: int)
    requires
        0 <= l <= u < elems.len(),
    ensures
        describes(uint_orders(*value, elems), compare_uint, value, elems, l, u),
        sorted_uints(elems, l, u) ==> ascending(uint_orders(*value, elems), l, u),
{
}

/// Searching sorted numbers with `compare_uint`: a number that occurs in
/// the range is found, and for one that does not, every number before the
/// index reported is smaller and every number after it is larger.
pub proof fn lemma_uint_search(value: usize, elems: Seq<usize>, l: int, u: int)
    requires
        0 <= l <= u < elems.len(),
        u <= usize::MAX,
        sorted_uints(elems, l, u),
    ensures
        ({
            let result = probe(uint_orders(value, elems), l, u);
            &&& l <= result.index() <= u
            &&& result is Match <==> exists|k: int| l <= k <= u && elems[k] == value
            &&& result is Match ==> elems[result.index()] == value
            &&& result is NoMatch ==> forall|k: int|
                l <= k <= u ==> {
                    &&& k < result.index() ==> elems[k] < value
                    &&& k == result.index() ==> elems[k] != value
                    &&& k > result.index() ==> elems[k] > value
                }
        }),
{
    let orders = uint_orders(value, elems);
    lemma_uint_orders(&value, elems, l, u);
    lemma_probe_stays_in_range(orders, l, u);
    lemma_probe_on_ascending(orders, l, u);
    let result = probe(orders, l, u);
    let j = result.index();
    assert(orders[j] == uint_order(value, elems[j]));
    if exists|k: int| l <= k <= u && elems[k] == value {
        let k = choose|k: int| l <= k <= u && elems[k] == value;
        assert(orders[k] == Ordering::Equal);
    }
    if result is NoMatch {
        assert forall|k: int| l <= k <= u implies {
            &&& k < j ==> elems[k] < value
            &&& k == j ==> elems[k] != value
            &&& k > j ==> elems[k] > value
        } by {
            assert(orders[k] == uint_order(value, elems[k]));
        }
    }
}

} // verus!
