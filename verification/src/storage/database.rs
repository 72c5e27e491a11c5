//! The contract of the persistent store, over its logical content.

use crate::pipeline::types::{
    status_of_name, AccountState, AccountStateView, Slot, SlotView, Transaction, TransactionView,
};
use crate::utils::errors::IndexerError;
use vstd::prelude::*;

verus! {

/// What the store keeps of a slot, under the slot's number.
pub struct SlotRow {
    pub timestamp: i64,
    pub parent: Option<u64>,
    pub status: Seq<char>,
}

/// What the store keeps of a watched address, under the address.
pub struct WatchRow {
    pub name: Option<Seq<char>>,
    pub active: bool,
    pub created_at: i64,
}

/// One line of a watch listing: address, display name, time of creation.
pub type WatchLine = (Seq<char>, Option<Seq<char>>, i64);

/// The logical content of a persistent store: one row per slot number, per
/// transaction signature, per account address and per watched address.
pub struct StoreState {
    pub slots: Map<u64, SlotRow>,
    pub transactions: Map<Seq<char>, TransactionView>,
    pub accounts: Map<Seq<char>, AccountStateView>,
    pub wallets: Map<Seq<char>, WatchRow>,
}

impl StoreState {
    /// A store that holds nothing.
    pub open spec fn empty() -> StoreState {
        StoreState {
            slots: Map::empty(),
            transactions: Map::empty(),
            accounts: Map::empty(),
            wallets: Map::empty(),
        }
    }

    /// The store after the row of slot `number` was written.
    pub open spec fn with_slot(self, number: u64, row: SlotRow) -> StoreState {
        StoreState { slots: self.slots.insert(number, row), ..self }
    }

    /// The store after `record` was written under its signature.
    pub open spec fn with_transaction(self, record: TransactionView) -> StoreState {
        StoreState { transactions: self.transactions.insert(record.signature, record), ..self }
    }

    /// The store after `account` was written under its address.
    pub open spec fn with_account(self, account: AccountStateView) -> StoreState {
        StoreState { accounts: self.accounts.insert(account.address, account), ..self }
    }

    /// The store after `address` was put on the watch list at `created_at`:
    /// the entry is written anew and is active.
    pub open spec fn with_watch(
        self,
        address: Seq<char>,
        name: Option<Seq<char>>,
        created_at: i64,
    ) -> StoreState {
        StoreState {
            wallets: self.wallets.insert(address, WatchRow { name, active: true, created_at }),
            ..self
        }
    }

    /// The store after `address` was taken off the watch list: its entry
    /// stays and is no longer active.
    pub open spec fn without_watch(self, address: Seq<char>) -> StoreState {
        if self.wallets.contains_key(address) {
            StoreState {
                wallets: self.wallets.insert(
                    address,
                    WatchRow { active: false, ..self.wallets[address] },
                ),
                ..self
            }
        } else {
            self
        }
    }

    /// The slot that the row under `number` reads as. Block hash and block
    /// height are not kept.
    pub open spec fn slot_at(self, number: u64) -> SlotView {
        SlotView {
            slot: number,
            parent: self.slots[number].parent,
            status: status_of_name(self.slots[number].status),
            timestamp: self.slots[number].timestamp,
            block_hash: None,
            block_height: None,
        }
    }

    /// Whether `number` is the greatest slot number in the store.
    pub open spec fn is_latest(self, number: u64) -> bool {
        &&& self.slots.contains_key(number)
        &&& forall|other: u64| self.slots.contains_key(other) ==> other <= number
    }

    /// The addresses under active watch.
    pub open spec fn active_addresses(self) -> Set<Seq<char>> {
        Set::new(|a: Seq<char>| self.wallets.contains_key(a) && self.wallets[a].active)
    }

    /// Whether `address` belongs in a listing.
    pub open spec fn listed(self, address: Seq<char>, active_only: bool) -> bool {
        self.wallets.contains_key(address) && (active_only ==> self.wallets[address].active)
    }

    /// Whether `lines` is a listing of the watch list: each listed address
    /// once, with its name and time of creation, newest first.
    pub open spec fn is_listing(self, active_only: bool, lines: Seq<WatchLine>) -> bool {
        &&& forall|i: int|
            0 <= i < lines.len() ==> {
                &&& self.listed((#[trigger] lines[i]).0, active_only)
                &&& self.wallets[lines[i].0].name == lines[i].1
                &&& self.wallets[lines[i].0].created_at == lines[i].2
            }
        &&& forall|i: int, j: int| 0 <= i < j < lines.len() ==> lines[i].0 != lines[j].0
        &&& forall|i: int, j: int| 0 <= i < j < lines.len() ==> lines[i].2 >= lines[j].2
        &&& forall|a: Seq<char>|
            self.listed(a, active_only) ==> exists|i: int|
                0 <= i < lines.len() && (#[trigger] lines[i]).0 == a
    }
}

/// Upsert idempotence: a write that is repeated leaves the store as the
/// first write left it, for a slot row, a transaction and an account state.
pub proof fn lemma_store_twice(
    store: StoreState,
    number: u64,
    row: SlotRow,
    record: TransactionView,
    account: AccountStateView,
)
    ensures
        store.with_slot(number, row).with_slot(number, row) == store.with_slot(number, row),
        store.with_transaction(record).with_transaction(record) == store.with_transaction(record),
        store.with_account(account).with_account(account) == store.with_account(account),
{
    assert(store.slots.insert(number, row).insert(number, row) =~= store.slots.insert(number, row));
    assert(store.transactions.insert(record.signature, record).insert(record.signature, record)
        =~= store.transactions.insert(record.signature, record));
    assert(store.accounts.insert(account.address, account).insert(account.address, account)
        =~= store.accounts.insert(account.address, account));
}

/// Last write wins: of two writes under one identity the later one stands.
pub proof fn lemma_last_write_wins(
    store: StoreState,
    number: u64,
    first: SlotRow,
    second: SlotRow,
)
    ensures
        store.with_slot(number, first).with_slot(number, second) == store.with_slot(number, second),
        store.with_slot(number, second).slots[number] == second,
{
    assert(store.slots.insert(number, first).insert(number, second) =~= store.slots.insert(
        number,
        second,
    ));
}

/// Soft delete: an address that is taken off the watch list is no longer
/// among the active addresses, and the watch list holds exactly the
/// addresses that it held before, this one among them if it was.
pub proof fn lemma_soft_delete(store: StoreState, address: Seq<char>)
    ensures
        !store.without_watch(address).active_addresses().contains(address),
        store.without_watch(address).wallets.dom() == store.wallets.dom(),
        store.without_watch(address).listed(address, false) == store.listed(address, false),
        forall|other: Seq<char>|
            other != address ==> store.without_watch(address).active_addresses().contains(other)
                == store.active_addresses().contains(other),
{
    assert(store.without_watch(address).wallets.dom() =~= store.wallets.dom());
}

/// A listing of the whole watch list still names an address that was taken
/// off it; a listing of the active part, and the active addresses, do not.
pub proof fn lemma_removed_watch_is_listed(
    store: StoreState,
    address: Seq<char>,
    all: Seq<WatchLine>,
    active: Seq<WatchLine>,
)
    requires
        store.wallets.contains_key(address),
        store.without_watch(address).is_listing(false, all),
        store.without_watch(address).is_listing(true, active),
    ensures
        exists|i: int| 0 <= i < all.len() && (#[trigger] all[i]).0 == address,
        forall|i: int| 0 <= i < active.len() ==> (#[trigger] active[i]).0 != address,
{
    let after = store.without_watch(address);
    assert(after.listed(address, false));
    assert forall|i: int| 0 <= i < active.len() implies (#[trigger] active[i]).0 != address by {
        assert(after.listed(active[i].0, true));
    }
}

/// Adding an address to the watch list makes it active, again where it had
/// been taken off, and is idempotent but for the time of creation.
pub proof fn lemma_add_watch(
    store: StoreState,
    address: Seq<char>,
    name: Option<Seq<char>>,
    created_at: i64,
)
    ensures
        store.with_watch(address, name, created_at).active_addresses().contains(address),
        store.without_watch(address).with_watch(address, name, created_at) == store.with_watch(
            address,
            name,
            created_at,
        ),
        store.with_watch(address, name, created_at).with_watch(address, name, created_at)
            == store.with_watch(address, name, created_at),
{
    let row = WatchRow { name, active: true, created_at };
    assert(store.without_watch(address).wallets.insert(address, row) =~= store.wallets.insert(
        address,
        row,
    ));
    assert(store.wallets.insert(address, row).insert(address, row) =~= store.wallets.insert(
        address,
        row,
    ));
}

/// What a listing line holds, as plain values.
pub open spec fn watch_line(line: (String, Option<String>, i64)) -> WatchLine {
    (
        line.0@,
        match line.1 {
            Some(n) => Some(n@),
            None => None,
        },
        line.2,
    )
}

/// What a listing holds, as plain values.
pub open spec fn watch_lines(lines: Seq<(String, Option<String>, i64)>) -> Seq<WatchLine> {
    lines.map_values(|line: (String, Option<String>, i64)| watch_line(line))
}

/// What an optional text holds.
pub open spec fn text_of(text: Option<String>) -> Option<Seq<char>> {
    match text {
        Some(t) => Some(t@),
        None => None,
    }
}

/// What an optional slot holds.
pub open spec fn slot_of(slot: Option<Slot>) -> Option<SlotView> {
    match slot {
        Some(s) => Some(s@),
        None => None,
    }
}

/// What an optional transaction holds.
pub open spec fn transaction_of(record: Option<Transaction>) -> Option<TransactionView> {
    match record {
        Some(t) => Some(t@),
        None => None,
    }
}

/// What an optional account state holds.
pub open spec fn account_of(account: Option<AccountState>) -> Option<AccountStateView> {
    match account {
        Some(a) => Some(a@),
        None => None,
    }
}

/// A persistent store for slots, transactions, account states and the
/// watch list. Writes are upserts by identity: the last write wins. Any
/// call may fail with a storage error. A failed read tells nothing; a
/// failed write has either not happened or happened in full.
pub trait DatabaseStorage {
    /// The logical content of the store. A store that is verified says
    /// what it is; of any other nothing is known but what the contracts of
    /// the calls say of it.
    open spec fn state(&self) -> StoreState {
        arbitrary()
    }

    fn store_slot(&mut self, slot: u64, timestamp: i64, parent: Option<u64>, status: &str) -> (done:
        Result<(), IndexerError>)
        ensures
            ({
                let written = old(self).state().with_slot(
                    slot,
                    SlotRow { timestamp, parent, status: status@ },
                );
                &&& done is Ok ==> final(self).state() == written
                &&& done is Err ==> final(self).state() == old(self).state() || final(self).state()
                    == written
            }),
    ;

    fn store_account(&mut self, account: AccountState) -> (done: Result<(), IndexerError>)
        ensures
            ({
                let written = old(self).state().with_account(account@);
                &&& done is Ok ==> final(self).state() == written
                &&& done is Err ==> final(self).state() == old(self).state() || final(self).state()
                    == written
            }),
    ;

    fn get_account(&self, address: &str) -> (found: Result<Option<AccountState>, IndexerError>)
        ensures
            found matches Ok(account) ==> account_of(account) == (if self.state().accounts.contains_key(
                address@,
            ) {
                Some(self.state().accounts[address@])
            } else {
                None
            }),
    ;

    fn get_slot(&self, slot: u64) -> (found: Result<Option<Slot>, IndexerError>)
        ensures
            found matches Ok(row) ==> slot_of(row) == (if self.state().slots.contains_key(slot) {
                Some(self.state().slot_at(slot))
            } else {
                None
            }),
    ;

    fn store_transaction(&mut self, tx: Transaction) -> (done: Result<(), IndexerError>)
        ensures
            ({
                let written = old(self).state().with_transaction(tx@);
                &&& done is Ok ==> final(self).state() == written
                &&& done is Err ==> final(self).state() == old(self).state() || final(self).state()
                    == written
            }),
    ;

    fn get_transaction(&self, signature: &str) -> (found: Result<Option<Transaction>, IndexerError>)
        ensures
            found matches Ok(record) ==> transaction_of(record) == (if self.state().transactions.contains_key(
                signature@,
            ) {
                Some(self.state().transactions[signature@])
            } else {
                None
            }),
    ;

    fn get_latest_slot(&self) -> (found: Result<Option<Slot>, IndexerError>)
        ensures
            found matches Ok(row) ==> match row {
                Some(s) => self.state().is_latest(s.slot) && s@ == self.state().slot_at(s.slot),
                None => self.state().slots.dom() == Set::<u64>::empty(),
            },
    ;

    fn add_wallet(&mut self, address: String, name: Option<String>) -> (done: Result<
        (),
        IndexerError,
    >)
        ensures
            ({
                let written = old(self).state().with_watch(
                    address@,
                    text_of(name),
                    final(self).state().wallets[address@].created_at,
                );
                &&& done is Ok ==> final(self).state() == written
                &&& done is Err ==> final(self).state() == old(self).state() || final(self).state()
                    == written
            }),
    ;

    fn remove_wallet(&mut self, address: &str) -> (done: Result<(), IndexerError>)
        ensures
            ({
                let written = old(self).state().without_watch(address@);
                &&& done is Ok ==> final(self).state() == written
                &&& done is Err ==> final(self).state() == old(self).state() || final(self).state()
                    == written
            }),
    ;

    fn list_wallets(&self, active_only: bool) -> (found: Result<
        Vec<(String, Option<String>, i64)>,
        IndexerError,
    >)
        ensures
            found matches Ok(lines) ==> self.state().is_listing(active_only, watch_lines(lines@)),
    ;

    fn get_active_wallets(&self) -> (found: Result<Vec<String>, IndexerError>)
        ensures
            found matches Ok(addresses) ==> {
                &&& addresses.deep_view().no_duplicates()
                &&& addresses.deep_view().to_set() == self.state().active_addresses()
            },
    ;
}


/// Whether `found` is an answer of `store` to the request for the account
/// at `address`.
pub open spec fn answers_get_account<D: DatabaseStorage>(
    store: D,
    address: &str,
    found: Result<Option<AccountState>, IndexerError>,
) -> bool {
    call_ensures(D::get_account, (&store, address), found)
}

} // verus!
