//! The account tier: the persistent store itself.

use crate::pipeline::types::AccountState;
use crate::pipeline::types::Transaction;
use crate::storage::database::{
    account_of, answers_get_account, DatabaseStorage, SlotRow, StoreState,
};
use crate::utils::errors::IndexerError;
use vstd::prelude::*;

verus! {

/// Account states, kept in the persistent store alone: this tier holds the
/// store and adds no memory of its own.
pub struct L3Accounts<D: DatabaseStorage> {
    db: D,
}

impl<D: DatabaseStorage> L3Accounts<D> {
    /// The logical content of the store behind this tier.
    pub closed spec fn store(&self) -> StoreState {
        self.db.state()
    }

    /// The store behind this tier, as a value.
    pub closed spec fn holds(&self) -> D {
        self.db
    }

    /// The content of the tier is the content of the store that it holds.
    pub proof fn lemma_store_is_held(&self)
        ensures
            self.store() == self.holds().state(),
    {
    }

    pub fn new(db: D) -> (tier: L3Accounts<D>)
        ensures
            tier.store() == db.state(),
            tier.holds() == db,
    {
        L3Accounts { db }
    }

    pub fn get(&self, address: &str) -> (found: Result<Option<AccountState>, IndexerError>)
        ensures
            answers_get_account(self.holds(), address, found),
            found matches Ok(account) ==> account_of(account) == (if self.store().accounts.contains_key(
                address@,
            ) {
                Some(self.store().accounts[address@])
            } else {
                None
            }),
    {
        self.db.get_account(address)
    }

    pub fn insert(&mut self, account: AccountState) -> (done: Result<(), IndexerError>)
        ensures
            exists|db: &mut D|
                *db == old(self).holds() && *final(db) == final(self).holds()
                    && #[trigger] call_ensures(D::store_account, (db, account), done),
            ({
                let written = old(self).store().with_account(account@);
                &&& done is Ok ==> final(self).store() == written
                &&& done is Err ==> final(self).store() == old(self).store() || final(self).store()
                    == written
            }),
    {
        self.db.store_account(account)
    }

    /// The store behind this tier, for reading.
    pub fn database(&self) -> (db: &D)
        ensures
            db.state() == self.store(),
            *db == self.holds(),
    {
        &self.db
    }

    /// Passes the row of a slot through to the store.
    pub(crate) fn write_slot(
        &mut self,
        slot: u64,
        timestamp: i64,
        parent: Option<u64>,
        status: &str,
    ) -> (done: Result<(), IndexerError>)
        ensures
            exists|db: &mut D|
                *db == old(self).holds() && *final(db) == final(self).holds()
                    && #[trigger] call_ensures(
                    D::store_slot,
                    (db, slot, timestamp, parent, status),
                    done,
                ),
            ({
                let written = old(self).store().with_slot(
                    slot,
                    SlotRow { timestamp, parent, status: status@ },
                );
                &&& done is Ok ==> final(self).store() == written
                &&& done is Err ==> final(self).store() == old(self).store() || final(self).store()
                    == written
            }),
    {
        self.db.store_slot(slot, timestamp, parent, status)
    }

    /// Passes a transaction through to the store.
    pub(crate) fn write_transaction(&mut self, tx: Transaction) -> (done: Result<(), IndexerError>)
        ensures
            exists|db: &mut D|
                *db == old(self).holds() && *final(db) == final(self).holds()
                    && #[trigger] call_ensures(D::store_transaction, (db, tx), done),
            ({
                let written = old(self).store().with_transaction(tx@);
                &&& done is Ok ==> final(self).store() == written
                &&& done is Err ==> final(self).store() == old(self).store() || final(self).store()
                    == written
            }),
    {
        self.db.store_transaction(tx)
    }
}

} // verus!
