//! The smallest and greatest keys of an ordered map, and its keys in order.

use std::collections::BTreeMap;
use vstd::prelude::*;
use vstd::std_specs::btree::increasing_seq;
use vstd::std_specs::cmp::OrdSpec;
use vstd::std_specs::iter::IteratorSpec;

verus! {

/// Whether `key` is the smallest key of `entries`.
pub open spec fn is_least<V>(entries: Map<u64, V>, key: u64) -> bool {
    &&& entries.contains_key(key)
    &&& forall|other: u64| entries.contains_key(other) ==> key <= other
}

/// Whether `key` is the greatest key of `entries`.
pub open spec fn is_greatest<V>(entries: Map<u64, V>, key: u64) -> bool {
    &&& entries.contains_key(key)
    &&& forall|other: u64| entries.contains_key(other) ==> other <= key
}

/// The smallest key of an ordered map, if it has one.
pub fn first_key<V>(map: &BTreeMap<u64, V>) -> (first: Option<u64>)
    ensures
        match first {
            Some(k) => is_least(map@, k),
            None => map@.dom() == Set::<u64>::empty(),
        },
{
    let ghost items = map.iter().remaining();
    let ghost numbers = items.map_values(|kv: (&u64, &V)| *kv.0);
    for kv in it: map.iter()
        invariant
            it.seq() == items,
            it.index() == 0,
            numbers == items.map_values(|kv: (&u64, &V)| *kv.0),
            increasing_seq(numbers),
            forall|k: u64| #[trigger] map@.contains_key(k) ==> items.contains((&k, &map@[k])),
            forall|i: int| 0 <= i < items.len() ==> map@.contains_key(*(#[trigger] items[i]).0),
    {
        let k = *kv.0;
        proof {
            assert(k == *items[0].0);
            assert forall|other: u64| map@.contains_key(other) implies k <= other by {
                let pair = (&other, &map@[other]);
                assert(items.contains(pair));
                let j = choose|j: int| 0 <= j < items.len() && items[j] == pair;
                if j > 0 {
                    assert(numbers[0].cmp_spec(&numbers[j]) is Less);
                }
            }
        }
        return Some(k);
    }
    proof {
        assert(items.len() == 0);
        assert(map@.dom() =~= Set::<u64>::empty());
    }
    None
}

/// The keys of an ordered map, in increasing order.
pub fn keys_in_order<V>(map: &BTreeMap<u64, V>) -> (keys: Vec<u64>)
    ensures
        keys@.len() == map@.len(),
        forall|i: int| 0 <= i < keys@.len() ==> map@.contains_key(#[trigger] keys@[i]),
        forall|k: u64| map@.contains_key(k) ==> keys@.contains(k),
        forall|i: int, j: int| 0 <= i < j < keys@.len() ==> keys@[i] < keys@[j],
{
    let mut keys: Vec<u64> = Vec::new();
    let ghost items = map.iter().remaining();
    let ghost numbers = items.map_values(|kv: (&u64, &V)| *kv.0);
    for kv in it: map.iter()
        invariant
            it.seq() == items,
            numbers == items.map_values(|kv: (&u64, &V)| *kv.0),
            keys@.len() == it.index(),
            forall|i: int| 0 <= i < keys@.len() ==> keys@[i] == *(#[trigger] items[i]).0,
    {
        keys.push(*kv.0);
    }
    proof {
        assert(items.len() == map@.dom().len());
        assert(increasing_seq(numbers));
        assert forall|i: int, j: int| 0 <= i < j < keys@.len() implies keys@[i] < keys@[j] by {
            assert(numbers[i].cmp_spec(&numbers[j]) is Less);
        }
        assert forall|i: int| 0 <= i < keys@.len() implies map@.contains_key(
            #[trigger] keys@[i],
        ) by {
            assert(map@.contains_key(*items[i].0));
        }
        assert forall|k: u64| map@.contains_key(k) implies keys@.contains(k) by {
            let pair = (&k, &map@[k]);
            assert(items.contains(pair));
            let i = choose|i: int| 0 <= i < items.len() && items[i] == pair;
            assert(keys@[i] == k);
        }
    }
    keys
}

/// The greatest key of an ordered map, if it has one.
pub fn last_key<V>(map: &BTreeMap<u64, V>) -> (last: Option<u64>)
    ensures
        match last {
            Some(k) => is_greatest(map@, k),
            None => map@.dom() == Set::<u64>::empty(),
        },
{
    let keys = keys_in_order(map);
    if keys.len() == 0 {
        proof {
            assert forall|k: u64| !map@.contains_key(k) by {
                if map@.contains_key(k) {
                    assert(keys@.contains(k));
                }
            }
            assert(map@.dom() =~= Set::<u64>::empty());
        }
        return None;
    }
    let last = keys[keys.len() - 1];
    proof {
        assert forall|other: u64| map@.contains_key(other) implies other <= last by {
            assert(keys@.contains(other));
            let j = choose|j: int| 0 <= j < keys@.len() && keys@[j] == other;
            assert(keys@[j] <= keys@[keys@.len() - 1]);
        }
    }
    Some(last)
}

} // verus!
