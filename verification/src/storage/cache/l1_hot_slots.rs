//! The hot slot tier: an ordered map of bounded size that evicts its
//! smallest slot number.

use crate::pipeline::types::{Slot, SlotView};
use crate::storage::ordered::{first_key, is_greatest, is_least, keys_in_order, last_key};
use std::collections::BTreeMap;
use vstd::prelude::*;

verus! {

/// The smallest key of a map that has one.
pub open spec fn least_key(entries: Map<u64, SlotView>) -> u64 {
    choose|key: u64| is_least(entries, key)
}

/// What is left after the cache has made room for one insert: at or over
/// the capacity, the entry with the smallest slot number leaves.
pub open spec fn make_room(entries: Map<u64, SlotView>, capacity: usize) -> Map<u64, SlotView> {
    if entries.len() >= capacity && entries.len() > 0 {
        entries.remove(least_key(entries))
    } else {
        entries
    }
}

/// The entries after the insert of `slot` into a cache of the given capacity.
pub open spec fn after_insert(
    entries: Map<u64, SlotView>,
    capacity: usize,
    slot: SlotView,
) -> Map<u64, SlotView> {
    make_room(entries, capacity).insert(slot.slot, slot)
}

/// Every entry is filed under its own slot number.
pub open spec fn keyed_by_number(entries: Map<u64, SlotView>) -> bool {
    forall|k: u64| entries.contains_key(k) ==> (#[trigger] entries[k]).slot == k
}

/// The count of entries respects the capacity; a cache of capacity zero
/// still holds the one entry that was inserted last.
pub open spec fn within_capacity(entries: Map<u64, SlotView>, capacity: usize) -> bool {
    entries.len() <= capacity || entries.len() <= 1
}

/// A map has at most one smallest key.
pub proof fn lemma_least_key_unique(entries: Map<u64, SlotView>, key: u64)
    requires
        is_least(entries, key),
    ensures
        least_key(entries) == key,
{
    let chosen = least_key(entries);
    assert(is_least(entries, chosen));
}

/// An insert keeps the cache well formed: entries stay filed under their
/// numbers and the count stays within the capacity.
pub proof fn lemma_insert_keeps_bounds(entries: Map<u64, SlotView>, capacity: usize, slot: SlotView)
    requires
        entries.dom().finite(),
        keyed_by_number(entries),
        within_capacity(entries, capacity),
    ensures
        after_insert(entries, capacity, slot).dom().finite(),
        keyed_by_number(after_insert(entries, capacity, slot)),
        within_capacity(after_insert(entries, capacity, slot), capacity),
        after_insert(entries, capacity, slot).len() <= entries.len() + 1,
{
    let room = make_room(entries, capacity);
    if entries.len() >= capacity && entries.len() > 0 {
        lemma_has_least_key(entries);
        assert(entries.contains_key(least_key(entries)));
        assert(room.len() == entries.len() - 1);
    }
    let after = room.insert(slot.slot, slot);
    assert(after == after_insert(entries, capacity, slot));
    assert(after.len() <= room.len() + 1);
}

/// A finite map that is not empty has a smallest key.
pub proof fn lemma_has_least_key(entries: Map<u64, SlotView>)
    requires
        entries.dom().finite(),
        entries.len() > 0,
    ensures
        is_least(entries, least_key(entries)),
    decreases entries.len(),
{
    let k = entries.dom().choose();
    assert(entries.contains_key(k));
    let rest = entries.remove(k);
    if rest.len() == 0 {
        assert forall|other: u64| entries.contains_key(other) implies k <= other by {
            if other != k {
                assert(rest.contains_key(other));
                assert(rest.dom().contains(other));
                assert(rest.dom().len() > 0);
            }
        }
        assert(is_least(entries, k));
    } else {
        lemma_has_least_key(rest);
        let m = least_key(rest);
        let best = if k <= m { k } else { m };
        assert forall|other: u64| entries.contains_key(other) implies best <= other by {
            if other != k {
                assert(rest.contains_key(other));
            }
        }
        assert(is_least(entries, best));
    }
}

/// The entries after a run of inserts, first to last.
pub open spec fn after_inserts(
    entries: Map<u64, SlotView>,
    capacity: usize,
    slots: Seq<SlotView>,
) -> Map<u64, SlotView>
    decreases slots.len(),
{
    if slots.len() == 0 {
        entries
    } else {
        after_insert(after_inserts(entries, capacity, slots.drop_last()), capacity, slots.last())
    }
}

/// Capacity invariant: a cache of capacity one or more that starts within
/// its capacity stays within it after every insert of any run of inserts.
pub proof fn lemma_capacity_invariant(
    entries: Map<u64, SlotView>,
    capacity: usize,
    slots: Seq<SlotView>,
)
    requires
        entries.dom().finite(),
        keyed_by_number(entries),
        entries.len() <= capacity,
        capacity >= 1,
    ensures
        forall|n: int|
            0 <= n <= slots.len() ==> (#[trigger] after_inserts(
                entries,
                capacity,
                slots.take(n),
            )).len() <= capacity,
{
    assert forall|n: int| 0 <= n <= slots.len() implies (#[trigger] after_inserts(
        entries,
        capacity,
        slots.take(n),
    )).len() <= capacity by {
        lemma_inserts_keep_bounds(entries, capacity, slots.take(n));
    }
}

/// A run of inserts keeps the entries filed under their numbers and, where
/// the capacity is one or more, within the capacity.
pub proof fn lemma_inserts_keep_bounds(
    entries: Map<u64, SlotView>,
    capacity: usize,
    slots: Seq<SlotView>,
)
    requires
        entries.dom().finite(),
        keyed_by_number(entries),
        entries.len() <= capacity,
        capacity >= 1,
    ensures
        after_inserts(entries, capacity, slots).dom().finite(),
        keyed_by_number(after_inserts(entries, capacity, slots)),
        after_inserts(entries, capacity, slots).len() <= capacity,
    decreases slots.len(),
{
    if slots.len() > 0 {
        lemma_inserts_keep_bounds(entries, capacity, slots.drop_last());
        let before = after_inserts(entries, capacity, slots.drop_last());
        lemma_insert_keeps_bounds(before, capacity, slots.last());
    }
}

/// Eviction order: an insert into a cache that is at its capacity removes
/// the entry with the smallest slot number, and no other; that number is
/// held afterwards only where the inserted slot carries it.
pub proof fn lemma_insert_evicts_least(
    entries: Map<u64, SlotView>,
    capacity: usize,
    slot: SlotView,
)
    requires
        entries.dom().finite(),
        entries.len() >= capacity,
        entries.len() > 0,
    ensures
        is_least(entries, least_key(entries)),
        after_insert(entries, capacity, slot) == entries.remove(least_key(entries)).insert(
            slot.slot,
            slot,
        ),
        after_insert(entries, capacity, slot).contains_key(least_key(entries)) <==> slot.slot
            == least_key(entries),
        forall|k: u64|
            entries.contains_key(k) && k != least_key(entries) ==> after_insert(
                entries,
                capacity,
                slot,
            ).contains_key(k),
{
    lemma_has_least_key(entries);
}

/// Below its capacity the cache evicts nothing: an insert only adds or
/// overwrites the entry of the inserted slot.
pub proof fn lemma_insert_below_capacity(
    entries: Map<u64, SlotView>,
    capacity: usize,
    slot: SlotView,
)
    requires
        entries.len() < capacity,
    ensures
        after_insert(entries, capacity, slot) == entries.insert(slot.slot, slot),
{
}

/// Upsert idempotence: a second insert of the same slot leaves the cache as
/// the first left it exactly where the first left it below its capacity or
/// with the inserted slot as its smallest entry.
pub proof fn lemma_insert_twice(entries: Map<u64, SlotView>, capacity: usize, slot: SlotView)
    requires
        entries.dom().finite(),
    ensures
        ({
            let once = after_insert(entries, capacity, slot);
            after_insert(once, capacity, slot) == once <==> (once.len() < capacity
                || is_least(once, slot.slot))
        }),
{
    let once = after_insert(entries, capacity, slot);
    let twice = after_insert(once, capacity, slot);
    assert(once.contains_key(slot.slot));
    assert(once.dom().finite());
    assert(once.len() > 0) by {
        if once.len() == 0 {
            assert(once.dom() =~= Set::<u64>::empty());
        }
    }
    if once.len() < capacity {
        assert(twice =~= once);
    } else {
        lemma_has_least_key(once);
        let gone = least_key(once);
        if is_least(once, slot.slot) {
            lemma_least_key_unique(once, slot.slot);
            assert(twice =~= once);
        } else {
            assert(gone != slot.slot);
            assert(!twice.contains_key(gone));
            assert(once.contains_key(gone));
        }
    }
}

/// Hot slots: the most recent slots by number, bounded in count.
pub struct L1HotSlots {
    cache: BTreeMap<u64, Slot>,
    max_size: usize,
}

impl View for L1HotSlots {
    type V = Map<u64, SlotView>;

    closed spec fn view(&self) -> Map<u64, SlotView> {
        self.cache@.map_values(|s: Slot| s@)
    }
}

impl L1HotSlots {
    /// The configured capacity.
    pub closed spec fn capacity(&self) -> usize {
        self.max_size
    }

    /// Every entry is filed under its own slot number, and the cache holds
    /// no more than its capacity (one entry, where the capacity is zero).
    /// This holds of every cache at all times.
    #[verifier::type_invariant]
    pub open spec fn wf(&self) -> bool {
        &&& self@.dom().finite()
        &&& keyed_by_number(self@)
        &&& within_capacity(self@, self.capacity())
    }

    pub fn new(max_size: usize) -> (cache: L1HotSlots)
        ensures
            cache.wf(),
            cache@ == Map::<u64, SlotView>::empty(),
            cache.capacity() == max_size,
    {
        let map: BTreeMap<u64, Slot> = BTreeMap::new();
        assert(map@.map_values(|s: Slot| s@) =~= Map::<u64, SlotView>::empty());
        L1HotSlots { cache: map, max_size }
    }

    pub fn get(&self, slot: u64) -> (found: Option<Slot>)
        ensures
            match found {
                Some(s) => self@.contains_key(slot) && s@ == self@[slot],
                None => !self@.contains_key(slot),
            },
    {
        match self.cache.get(&slot) {
            Some(s) => Some(s.clone()),
            None => None,
        }
    }

    pub fn insert(&mut self, slot: Slot)
        ensures
            final(self).wf(),
            final(self).capacity() == old(self).capacity(),
            final(self)@ == after_insert(old(self)@, old(self).capacity(), slot@),
    {
        proof {
            use_type_invariant(&*self);
        }
        let ghost before = self@;
        let mut map: BTreeMap<u64, Slot> = BTreeMap::new();
        proof {
            lemma_insert_keeps_bounds(before, self.capacity(), slot@);
            assert(map@.map_values(|s: Slot| s@) =~= Map::<u64, SlotView>::empty());
        }
        std::mem::swap(&mut map, &mut self.cache);
        assert(map@.map_values(|s: Slot| s@) == before);
        assert(before.dom() =~= map@.dom());
        if map.len() >= self.max_size {
            if let Some(k) = first_key(&map) {
                proof {
                    assert(is_least(before, k));
                    lemma_least_key_unique(before, k);
                }
                map.remove(&k);
                assert(map@.map_values(|s: Slot| s@) =~= before.remove(k));
            }
        }
        assert(map@.map_values(|s: Slot| s@) == make_room(before, self.capacity()));
        let ghost room = map@.map_values(|s: Slot| s@);
        let ghost added = slot@;
        map.insert(slot.slot, slot);
        assert(map@.map_values(|s: Slot| s@) =~= room.insert(added.slot, added));
        self.cache = map;
    }

    pub fn get_latest_slot(&self) -> (latest: Option<Slot>)
        ensures
            match latest {
                Some(s) => is_greatest(self@, s.slot) && s@ == self@[s.slot],
                None => self@.len() == 0,
            },
    {
        proof {
            use_type_invariant(self);
            assert(self@.dom() =~= self.cache@.dom());
        }
        match last_key(&self.cache) {
            Some(last) => self.get(last),
            None => None,
        }
    }

    pub fn get_all_slots(&self) -> (all: Vec<Slot>)
        ensures
            all@.len() == self@.len(),
            forall|i: int|
                0 <= i < all@.len() ==> self@.contains_key((#[trigger] all@[i]).slot)
                    && self@[all@[i].slot] == all@[i]@,
            forall|i: int, j: int| 0 <= i < j < all@.len() ==> all@[i].slot < all@[j].slot,
            forall|k: u64|
                self@.contains_key(k) ==> exists|i: int|
                    0 <= i < all@.len() && (#[trigger] all@[i]).slot == k,
    {
        proof {
            use_type_invariant(self);
            assert(self@.dom() =~= self.cache@.dom());
        }
        let keys = keys_in_order(&self.cache);
        let mut all: Vec<Slot> = Vec::new();
        let mut i: usize = 0;
        while i < keys.len()
            invariant
                i <= keys.len(),
                all@.len() == i,
                self.wf(),
                forall|j: int| 0 <= j < keys@.len() ==> self@.contains_key(#[trigger] keys@[j]),
                forall|j: int|
                    0 <= j < i ==> (#[trigger] all@[j]).slot == keys@[j] && all@[j]@
                        == self@[keys@[j]],
            decreases keys.len() - i,
        {
            match self.get(keys[i]) {
                Some(s) => {
                    all.push(s);
                },
                None => {},
            }
            i += 1;
        }
        proof {
            assert forall|k: u64| self@.contains_key(k) implies exists|i: int|
                0 <= i < all@.len() && (#[trigger] all@[i]).slot == k by {
                assert(keys@.contains(k));
                let j = choose|j: int| 0 <= j < keys@.len() && keys@[j] == k;
                assert(all@[j].slot == k);
            }
        }
        all
    }
}

} // verus!
