//! The facade over the three tiers: every write goes to its tier and to the
//! store.

use crate::pipeline::types::{
    lemma_status_name_round_trip, AccountState, Slot, SlotView, Transaction, TransactionView,
};
use crate::storage::cache::l1_hot_slots::{after_insert, L1HotSlots};
use crate::storage::ordered::is_least;
use crate::storage::cache::l2_transactions::L2Transactions;
use crate::storage::cache::l3_accounts::L3Accounts;
use crate::storage::database::{
    account_of, answers_get_account, DatabaseStorage, SlotRow, StoreState,
};
use crate::utils::errors::IndexerError;
use vstd::prelude::*;

verus! {

/// The row under which the store keeps `slot`.
pub open spec fn slot_row(slot: SlotView) -> SlotRow {
    SlotRow { timestamp: slot.timestamp, parent: slot.parent, status: slot.status.name() }
}

/// A slot that was written reads back from the store as it was, but for
/// block hash and block height, which the store does not keep.
pub proof fn lemma_stored_slot_reads_back(store: StoreState, slot: SlotView)
    ensures
        store.with_slot(slot.slot, slot_row(slot)).slots.contains_key(slot.slot),
        store.with_slot(slot.slot, slot_row(slot)).slot_at(slot.slot) == (SlotView {
            block_hash: None,
            block_height: None,
            ..slot
        }),
{
    lemma_status_name_round_trip(slot.status);
}

/// Upsert idempotence of the facade: a slot that is stored a second time
/// leaves the store as the first write left it, and the hot tier too,
/// exactly where the first write left that tier below its capacity or with
/// the slot as its smallest entry.
pub proof fn lemma_store_slot_twice(
    hot: Map<u64, SlotView>,
    capacity: usize,
    store: StoreState,
    slot: SlotView,
)
    requires
        hot.dom().finite(),
    ensures
        ({
            let stored = store.with_slot(slot.slot, slot_row(slot));
            stored.with_slot(slot.slot, slot_row(slot)) == stored
        }),
        ({
            let once = after_insert(hot, capacity, slot);
            after_insert(once, capacity, slot) == once <==> (once.len() < capacity
                || is_least(once, slot.slot))
        }),
{
    crate::storage::cache::l1_hot_slots::lemma_insert_twice(hot, capacity, slot);
    assert(store.slots.insert(slot.slot, slot_row(slot)).insert(slot.slot, slot_row(slot))
        =~= store.slots.insert(slot.slot, slot_row(slot)));
}

/// The tiers in front of the persistent store: hot slots, recent
/// transactions, and the store itself for account states.
pub struct MultiCache<D: DatabaseStorage> {
    l1: L1HotSlots,
    l2: L2Transactions,
    l3: L3Accounts<D>,
}

impl<D: DatabaseStorage> MultiCache<D> {
    /// The hot slots, by number.
    pub closed spec fn hot_slots(&self) -> Map<u64, SlotView> {
        self.l1@
    }

    /// The capacity of the hot slot tier.
    pub closed spec fn hot_capacity(&self) -> usize {
        self.l1.capacity()
    }

    /// What the transaction tier has been given, by signature.
    pub closed spec fn recent_transactions(&self) -> Map<Seq<char>, TransactionView> {
        self.l2.inserted()
    }

    /// The capacity of the transaction tier.
    pub closed spec fn transaction_capacity(&self) -> u64 {
        self.l2.capacity()
    }

    /// The logical content of the persistent store.
    pub closed spec fn store(&self) -> StoreState {
        self.l3.store()
    }

    /// The persistent store, as a value.
    pub closed spec fn held(&self) -> D {
        self.l3.holds()
    }

    /// The content of the store is the content of the store that is held.
    pub proof fn lemma_store_is_held(&self)
        ensures
            self.store() == self.held().state(),
    {
        self.l3.lemma_store_is_held();
    }

    pub fn new(l1_size: usize, l2_size: usize, db: D) -> (cache: MultiCache<D>)
        ensures
            cache.hot_slots() == Map::<u64, SlotView>::empty(),
            cache.hot_capacity() == l1_size,
            cache.recent_transactions() == Map::<Seq<char>, TransactionView>::empty(),
            cache.transaction_capacity() == l2_size,
            cache.store() == db.state(),
            cache.held() == db,
    {
        MultiCache {
            l1: L1HotSlots::new(l1_size),
            l2: L2Transactions::new(l2_size),
            l3: L3Accounts::new(db),
        }
    }

    /// The hot slot tier, for reading.
    pub fn l1(&self) -> (tier: &L1HotSlots)
        ensures
            tier@ == self.hot_slots(),
            tier.capacity() == self.hot_capacity(),
            tier.wf(),
    {
        let tier = &self.l1;
        proof {
            use_type_invariant(tier);
        }
        tier
    }

    /// The transaction tier, for reading.
    pub fn l2(&self) -> (tier: &L2Transactions)
        ensures
            tier.inserted() == self.recent_transactions(),
            tier.capacity() == self.transaction_capacity(),
    {
        &self.l2
    }

    /// The persistent store, for reading.
    pub fn database(&self) -> (db: &D)
        ensures
            db.state() == self.store(),
            *db == self.held(),
    {
        self.l3.database()
    }

    /// Writes `slot` to the hot tier, then to the store. The hot tier takes
    /// it whatever the store answers.
    pub fn store_slot(&mut self, slot: Slot) -> (done: Result<(), IndexerError>)
        ensures
            final(self).hot_capacity() == old(self).hot_capacity(),
            final(self).hot_slots() == after_insert(
                old(self).hot_slots(),
                old(self).hot_capacity(),
                slot@,
            ),
            final(self).recent_transactions() == old(self).recent_transactions(),
            final(self).transaction_capacity() == old(self).transaction_capacity(),
            exists|db: &mut D, status: &str|
                *db == old(self).held() && *final(db) == final(self).held() && status@
                    == slot@.status.name() && #[trigger] call_ensures(
                    D::store_slot,
                    (db, slot.slot, slot.timestamp, slot.parent, status),
                    done,
                ),
            ({
                let written = old(self).store().with_slot(slot.slot, slot_row(slot@));
                &&& done is Ok ==> final(self).store() == written
                &&& done is Err ==> final(self).store() == old(self).store() || final(self).store()
                    == written
            }),
    {
        self.l1.insert(slot.clone());
        let status = slot.status.as_str();
        self.l3.write_slot(slot.slot, slot.timestamp, slot.parent, status)
    }

    /// Writes `tx` to the transaction tier, then to the store. The tier
    /// takes it whatever the store answers.
    pub fn store_transaction(&mut self, tx: Transaction) -> (done: Result<(), IndexerError>)
        ensures
            final(self).hot_slots() == old(self).hot_slots(),
            final(self).hot_capacity() == old(self).hot_capacity(),
            final(self).recent_transactions() == old(self).recent_transactions().insert(
                tx@.signature,
                tx@,
            ),
            final(self).transaction_capacity() == old(self).transaction_capacity(),
            exists|db: &mut D|
                *db == old(self).held() && *final(db) == final(self).held()
                    && #[trigger] call_ensures(D::store_transaction, (db, tx), done),
            ({
                let written = old(self).store().with_transaction(tx@);
                &&& done is Ok ==> final(self).store() == written
                &&& done is Err ==> final(self).store() == old(self).store() || final(self).store()
                    == written
            }),
    {
        self.l2.insert(tx.clone());
        self.l3.write_transaction(tx)
    }

    pub fn get_account(&self, address: &str) -> (found: Result<Option<AccountState>, IndexerError>)
        ensures
            answers_get_account(self.held(), address, found),
            found matches Ok(account) ==> account_of(account) == (if self.store().accounts.contains_key(
                address@,
            ) {
                Some(self.store().accounts[address@])
            } else {
                None
            }),
    {
        self.l3.get(address)
    }

    pub fn store_account(&mut self, account: AccountState) -> (done: Result<(), IndexerError>)
        ensures
            exists|db: &mut D|
                *db == old(self).held() && *final(db) == final(self).held()
                    && #[trigger] call_ensures(D::store_account, (db, account), done),
            final(self).hot_slots() == old(self).hot_slots(),
            final(self).hot_capacity() == old(self).hot_capacity(),
            final(self).recent_transactions() == old(self).recent_transactions(),
            final(self).transaction_capacity() == old(self).transaction_capacity(),
            ({
                let written = old(self).store().with_account(account@);
                &&& done is Ok ==> final(self).store() == written
                &&& done is Err ==> final(self).store() == old(self).store() || final(self).store()
                    == written
            }),
    {
        self.l3.insert(account)
    }
}

} // verus!
