//! A persistent store in memory that meets the store's contract.

use crate::pipeline::types::{AccountState, Slot, SlotStatus, Transaction};
use crate::storage::database::{DatabaseStorage, SlotRow, StoreState, WatchRow};
use crate::storage::ordered::last_key;
use crate::storage::database::{watch_line, watch_lines};
use crate::storage::table::{
    as_map, distinct_keys, find, has_key, lemma_insert_row, lemma_no_rows, lemma_remove_row,
    lemma_replace_row, lemma_row_in_map, place_of, put,
};
use crate::utils::clock::unix_now;
use crate::utils::errors::IndexerError;
use std::collections::BTreeMap;
use vstd::prelude::*;

verus! {

/// What the store in memory keeps of a slot.
pub struct StoredSlot {
    pub timestamp: i64,
    pub parent: Option<u64>,
    pub status: String,
}

/// What the store in memory keeps of a watched address.
pub struct StoredWatch {
    pub name: Option<String>,
    pub active: bool,
    pub created_at: i64,
}

/// The row that a stored slot stands for.
pub open spec fn slot_row_of(stored: StoredSlot) -> SlotRow {
    SlotRow { timestamp: stored.timestamp, parent: stored.parent, status: stored.status@ }
}

/// The row that a stored watch stands for.
pub open spec fn watch_row_of(stored: StoredWatch) -> WatchRow {
    WatchRow {
        name: match stored.name {
            Some(n) => Some(n@),
            None => None,
        },
        active: stored.active,
        created_at: stored.created_at,
    }
}

/// The listing line of a row of the watch list.
pub open spec fn line_of(row: (String, StoredWatch)) -> (Seq<char>, Option<Seq<char>>, i64) {
    (row.0@, watch_row_of(row.1).name, row.1.created_at)
}

/// Whether the rows come newest first.
pub open spec fn newest_first(rows: Seq<(String, StoredWatch)>) -> bool {
    forall|i: int, j: int| 0 <= i < j < rows.len() ==> rows[i].1.created_at >= rows[j].1.created_at
}

/// A store that lives in memory and never refuses a call.
pub struct MemoryStorage {
    slots: BTreeMap<u64, StoredSlot>,
    transactions: Vec<(String, Transaction)>,
    accounts: Vec<(String, AccountState)>,
    wallets: Vec<(String, StoredWatch)>,
}

impl MemoryStorage {
    #[verifier::type_invariant]
    spec fn well_formed(&self) -> bool {
        &&& distinct_keys(self.transactions@)
        &&& distinct_keys(self.accounts@)
        &&& distinct_keys(self.wallets@)
        &&& newest_first(self.wallets@)
    }

    /// A store that holds nothing.
    pub fn new() -> (store: MemoryStorage)
        ensures
            store.state() == StoreState::empty(),
    {
        let store = MemoryStorage {
            slots: BTreeMap::new(),
            transactions: Vec::new(),
            accounts: Vec::new(),
            wallets: Vec::new(),
        };
        proof {
            lemma_no_rows::<Transaction>();
            lemma_no_rows::<AccountState>();
            lemma_no_rows::<StoredWatch>();
            assert(store.state().slots =~= StoreState::empty().slots);
            assert(store.state().transactions =~= StoreState::empty().transactions);
            assert(store.state().accounts =~= StoreState::empty().accounts);
            assert(store.state().wallets =~= StoreState::empty().wallets);
        }
        store
    }
}

impl DatabaseStorage for MemoryStorage {
    closed spec fn state(&self) -> StoreState {
        StoreState {
            slots: self.slots@.map_values(|s: StoredSlot| slot_row_of(s)),
            transactions: as_map(self.transactions@).map_values(|t: Transaction| t@),
            accounts: as_map(self.accounts@).map_values(|a: AccountState| a@),
            wallets: as_map(self.wallets@).map_values(|w: StoredWatch| watch_row_of(w)),
        }
    }

    fn store_slot(&mut self, slot: u64, timestamp: i64, parent: Option<u64>, status: &str) -> (done:
        Result<(), IndexerError>)
        ensures
            done is Ok,
    {
        proof {
            use_type_invariant(&*self);
        }
        let ghost before = self.state();
        let stored = StoredSlot { timestamp, parent, status: status.to_owned() };
        let mut slots: BTreeMap<u64, StoredSlot> = BTreeMap::new();
        std::mem::swap(&mut slots, &mut self.slots);
        slots.insert(slot, stored);
        self.slots = slots;
        proof {
            assert(self.state().slots =~= before.slots.insert(
                slot,
                SlotRow { timestamp, parent, status: status@ },
            ));
        }
        Ok(())
    }

    fn store_account(&mut self, account: AccountState) -> (done: Result<(), IndexerError>)
        ensures
            done is Ok,
    {
        proof {
            use_type_invariant(&*self);
        }
        let ghost before = self.state();
        let key = account.address.clone();
        let mut accounts: Vec<(String, AccountState)> = Vec::new();
        std::mem::swap(&mut accounts, &mut self.accounts);
        put(&mut accounts, key, account);
        self.accounts = accounts;
        proof {
            assert(self.state().accounts =~= before.accounts.insert(account@.address, account@));
        }
        Ok(())
    }

    fn get_account(&self, address: &str) -> (found: Result<Option<AccountState>, IndexerError>)
        ensures
            found is Ok,
    {
        proof {
            use_type_invariant(self);
        }
        match find(&self.accounts, address) {
            Some(at) => {
                proof {
                    lemma_row_in_map(self.accounts@, at as int);
                }
                Ok(Some(self.accounts[at].1.clone()))
            },
            None => Ok(None),
        }
    }

    fn get_slot(&self, slot: u64) -> (found: Result<Option<Slot>, IndexerError>)
        ensures
            found is Ok,
    {
        match self.slots.get(&slot) {
            Some(stored) => Ok(
                Some(
                    Slot {
                        slot,
                        parent: stored.parent,
                        status: SlotStatus::from_str(stored.status.as_str()),
                        timestamp: stored.timestamp,
                        block_hash: None,
                        block_height: None,
                    },
                ),
            ),
            None => Ok(None),
        }
    }

    fn store_transaction(&mut self, tx: Transaction) -> (done: Result<(), IndexerError>)
        ensures
            done is Ok,
    {
        proof {
            use_type_invariant(&*self);
        }
        let ghost before = self.state();
        let key = tx.signature.clone();
        let mut transactions: Vec<(String, Transaction)> = Vec::new();
        std::mem::swap(&mut transactions, &mut self.transactions);
        put(&mut transactions, key, tx);
        self.transactions = transactions;
        proof {
            assert(self.state().transactions =~= before.transactions.insert(tx@.signature, tx@));
        }
        Ok(())
    }

    fn get_transaction(&self, signature: &str) -> (found: Result<Option<Transaction>, IndexerError>)
        ensures
            found is Ok,
    {
        proof {
            use_type_invariant(self);
        }
        match find(&self.transactions, signature) {
            Some(at) => {
                proof {
                    lemma_row_in_map(self.transactions@, at as int);
                }
                Ok(Some(self.transactions[at].1.clone()))
            },
            None => Ok(None),
        }
    }

    fn get_latest_slot(&self) -> (found: Result<Option<Slot>, IndexerError>)
        ensures
            found is Ok,
    {
        proof {
            assert(self.state().slots.dom() =~= self.slots@.dom());
        }
        match last_key(&self.slots) {
            Some(latest) => {
                let found = self.get_slot(latest);
                proof {
                    assert(self.state().slots.contains_key(latest));
                    assert(self.state().is_latest(latest)) by {
                        assert forall|other: u64|
                            self.state().slots.contains_key(other) implies other <= latest by {
                            assert(self.slots@.contains_key(other));
                        }
                    }
                    assert(found matches Ok(Some(s)) && s@ == self.state().slot_at(latest));
                }
                found
            },
            None => Ok(None),
        }
    }

    fn add_wallet(&mut self, address: String, name: Option<String>) -> (done: Result<
        (),
        IndexerError,
    >)
        ensures
            done is Ok,
    {
        proof {
            use_type_invariant(&*self);
        }
        let ghost before = self.wallets@;
        let now = unix_now();
        let mut wallets: Vec<(String, StoredWatch)> = Vec::new();
        std::mem::swap(&mut wallets, &mut self.wallets);
        match find(&wallets, address.as_str()) {
            Some(at) => {
                proof {
                    lemma_remove_row(wallets@, at as int);
                    lemma_remove_keeps_order(wallets@, at as int);
                }
                wallets.remove(at);
            },
            None => {
                proof {
                    assert(as_map(wallets@) =~= as_map(before).remove(address@));
                }
            },
        }
        let mut at: usize = 0;
        while at < wallets.len() && wallets[at].1.created_at > now
            invariant
                at <= wallets.len(),
                forall|j: int| 0 <= j < at ==> (#[trigger] wallets@[j]).1.created_at > now,
            decreases wallets.len() - at,
        {
            at += 1;
        }
        let watch = StoredWatch { name, active: true, created_at: now };
        proof {
            lemma_insert_row(wallets@, at as int, address, watch);
            lemma_insert_keeps_order(wallets@, at as int, address, watch);
        }
        wallets.insert(at, (address, watch));
        self.wallets = wallets;
        proof {
            let row = watch_row_of(watch);
            assert(as_map(self.wallets@) =~= as_map(before).insert(address@, watch));
            assert(self.state().wallets =~= as_map(before).map_values(
                |w: StoredWatch| watch_row_of(w),
            ).insert(address@, row));
        }
        Ok(())
    }

    fn remove_wallet(&mut self, address: &str) -> (done: Result<(), IndexerError>)
        ensures
            done is Ok,
    {
        proof {
            use_type_invariant(&*self);
        }
        let ghost before = self.wallets@;
        let mut wallets: Vec<(String, StoredWatch)> = Vec::new();
        std::mem::swap(&mut wallets, &mut self.wallets);
        match find(&wallets, address) {
            Some(at) => {
                let (key, was) = wallets.remove(at);
                let watch = StoredWatch { name: was.name, active: false, created_at: was.created_at };
                proof {
                    lemma_row_in_map(before, at as int);
                    lemma_replace_row(before, at as int, key, watch);
                    assert(before.remove(at as int).insert(at as int, (key, watch)) =~= before.update(
                        at as int,
                        (key, watch),
                    ));
                    assert(newest_first(before.update(at as int, (key, watch)))) by {
                        let after = before.update(at as int, (key, watch));
                        assert forall|i: int, j: int| 0 <= i < j < after.len() implies after[i].1.created_at
                            >= after[j].1.created_at by {
                            assert(before[i].1.created_at >= before[j].1.created_at);
                        }
                    }
                }
                wallets.insert(at, (key, watch));
                self.wallets = wallets;
                proof {
                    assert(self.state().wallets =~= as_map(before).map_values(
                        |w: StoredWatch| watch_row_of(w),
                    ).insert(address@, watch_row_of(watch)));
                }
            },
            None => {
                self.wallets = wallets;
                proof {
                    assert(!as_map(before).contains_key(address@));
                }
            },
        }
        Ok(())
    }

    fn list_wallets(&self, active_only: bool) -> (found: Result<
        Vec<(String, Option<String>, i64)>,
        IndexerError,
    >)
        ensures
            found is Ok,
    {
        proof {
            use_type_invariant(self);
        }
        let mut lines: Vec<(String, Option<String>, i64)> = Vec::new();
        let ghost mut picked: Seq<int> = Seq::empty();
        let mut i: usize = 0;
        while i < self.wallets.len()
            invariant
                i <= self.wallets.len(),
                lines@.len() == picked.len(),
                forall|k: int| 0 <= k < picked.len() ==> 0 <= #[trigger] picked[k] < i,
                forall|k: int, l: int| 0 <= k < l < picked.len() ==> picked[k] < picked[l],
                forall|k: int|
                    0 <= k < picked.len() ==> watch_line(#[trigger] lines@[k]) == line_of(
                        self.wallets@[picked[k]],
                    ),
                forall|k: int|
                    0 <= k < picked.len() && active_only ==> self.wallets@[#[trigger] picked[k]].1.active,
                forall|j: int|
                    0 <= j < i && (!active_only || (#[trigger] self.wallets@[j]).1.active)
                        ==> picked.contains(j),
            decreases self.wallets.len() - i,
        {
            let row = &self.wallets[i];
            if row.1.active || !active_only {
                let name = match &row.1.name {
                    Some(n) => Some(n.clone()),
                    None => None,
                };
                let ghost shown = lines@;
                lines.push((row.0.clone(), name, row.1.created_at));
                proof {
                    let ghost earlier = picked;
                    picked = picked.push(i as int);
                    assert(watch_line(lines@[lines@.len() - 1]) == line_of(*row));
                    assert forall|k: int| 0 <= k < picked.len() implies watch_line(
                        #[trigger] lines@[k],
                    ) == line_of(self.wallets@[picked[k]]) by {
                        if k < earlier.len() {
                            assert(lines@[k] == shown[k]);
                            assert(picked[k] == earlier[k]);
                        }
                    }
                    assert forall|k: int| 0 <= k < picked.len() && active_only implies self.wallets@[#[trigger] picked[k]].1.active by {
                        if k < earlier.len() {
                            assert(picked[k] == earlier[k]);
                        }
                    }
                    assert forall|j: int|
                        0 <= j < i + 1 && (!active_only || (#[trigger] self.wallets@[j]).1.active)
                        implies picked.contains(j) by {
                        if j < i {
                            assert(earlier.contains(j));
                            let k = choose|k: int| 0 <= k < earlier.len() && earlier[k] == j;
                            assert(picked[k] == j);
                        } else {
                            assert(picked[picked.len() - 1] == j);
                        }
                    }
                }
            }
            i += 1;
        }
        proof {
            let rows = self.wallets@;
            let shown = watch_lines(lines@);
            let state = self.state();
            assert forall|k: int| 0 <= k < shown.len() implies {
                &&& state.listed((#[trigger] shown[k]).0, active_only)
                &&& state.wallets[shown[k].0].name == shown[k].1
                &&& state.wallets[shown[k].0].created_at == shown[k].2
            } by {
                assert(shown[k] == watch_line(lines@[k]));
                assert(active_only ==> rows[picked[k]].1.active);
                lemma_row_in_map(rows, picked[k]);
            }
            assert forall|k: int, l: int| 0 <= k < l < shown.len() implies shown[k].0
                != shown[l].0 by {
                assert(shown[k] == watch_line(lines@[k]));
                assert(shown[l] == watch_line(lines@[l]));
                assert(rows[picked[k]].0@ != rows[picked[l]].0@);
            }
            assert forall|k: int, l: int| 0 <= k < l < shown.len() implies shown[k].2
                >= shown[l].2 by {
                assert(shown[k] == watch_line(lines@[k]));
                assert(shown[l] == watch_line(lines@[l]));
                assert(rows[picked[k]].1.created_at >= rows[picked[l]].1.created_at);
            }
            assert forall|a: Seq<char>| state.listed(a, active_only) implies exists|k: int|
                0 <= k < shown.len() && (#[trigger] shown[k]).0 == a by {
                assert(has_key(rows, a));
                let p = place_of(rows, a);
                lemma_row_in_map(rows, p);
                assert(picked.contains(p));
                let k = choose|k: int| 0 <= k < picked.len() && picked[k] == p;
                assert(shown[k] == watch_line(lines@[k]));
                assert(shown[k].0 == a);
            }
        }
        Ok(lines)
    }

    fn get_active_wallets(&self) -> (found: Result<Vec<String>, IndexerError>)
        ensures
            found is Ok,
    {
        proof {
            use_type_invariant(self);
        }
        let mut addresses: Vec<String> = Vec::new();
        let ghost mut picked: Seq<int> = Seq::empty();
        let mut i: usize = 0;
        while i < self.wallets.len()
            invariant
                i <= self.wallets.len(),
                addresses@.len() == picked.len(),
                forall|k: int| 0 <= k < picked.len() ==> 0 <= #[trigger] picked[k] < i,
                forall|k: int, l: int| 0 <= k < l < picked.len() ==> picked[k] < picked[l],
                forall|k: int|
                    0 <= k < picked.len() ==> (#[trigger] addresses@[k])@
                        == self.wallets@[picked[k]].0@ && self.wallets@[picked[k]].1.active,
                forall|j: int|
                    0 <= j < i && (#[trigger] self.wallets@[j]).1.active ==> picked.contains(j),
            decreases self.wallets.len() - i,
        {
            let row = &self.wallets[i];
            if row.1.active {
                addresses.push(row.0.clone());
                proof {
                    let ghost earlier = picked;
                    picked = picked.push(i as int);
                    assert forall|j: int|
                        0 <= j < i + 1 && (#[trigger] self.wallets@[j]).1.active implies picked.contains(
                        j,
                    ) by {
                        if j < i {
                            assert(earlier.contains(j));
                            let k = choose|k: int| 0 <= k < earlier.len() && earlier[k] == j;
                            assert(picked[k] == j);
                        } else {
                            assert(picked[picked.len() - 1] == j);
                        }
                    }
                }
            }
            i += 1;
        }
        proof {
            let rows = self.wallets@;
            let texts = addresses.deep_view();
            let state = self.state();
            assert(texts.len() == addresses@.len());
            assert forall|k: int| 0 <= k < texts.len() implies #[trigger] texts[k]
                == rows[picked[k]].0@ by {
                assert(texts[k] == addresses@[k]@);
            }
            assert forall|k: int, l: int| 0 <= k < texts.len() && 0 <= l < texts.len() && k
                != l implies texts[k] != texts[l] by {
                if k < l {
                    assert(rows[picked[k]].0@ != rows[picked[l]].0@);
                } else {
                    assert(rows[picked[l]].0@ != rows[picked[k]].0@);
                }
            }
            assert forall|a: Seq<char>| #[trigger]
                texts.to_set().contains(a) == state.active_addresses().contains(a) by {
                if texts.contains(a) {
                    let k = choose|k: int| 0 <= k < texts.len() && texts[k] == a;
                    lemma_row_in_map(rows, picked[k]);
                }
                if state.active_addresses().contains(a) {
                    assert(has_key(rows, a));
                    let p = place_of(rows, a);
                    lemma_row_in_map(rows, p);
                    assert(picked.contains(p));
                    let k = choose|k: int| 0 <= k < picked.len() && picked[k] == p;
                    assert(texts[k] == a);
                    assert(texts.contains(a));
                }
            }
            assert(texts.to_set() =~= state.active_addresses());
        }
        Ok(addresses)
    }
}

/// Rows that come newest first still do with one of them taken out.
proof fn lemma_remove_keeps_order(rows: Seq<(String, StoredWatch)>, at: int)
    requires
        newest_first(rows),
        0 <= at < rows.len(),
    ensures
        newest_first(rows.remove(at)),
{
    let after = rows.remove(at);
    assert forall|i: int, j: int| 0 <= i < j < after.len() implies after[i].1.created_at
        >= after[j].1.created_at by {
        let a = if i < at { i } else { i + 1 };
        let b = if j < at { j } else { j + 1 };
        assert(after[i] == rows[a]);
        assert(after[j] == rows[b]);
    }
}

/// Rows that come newest first still do with a row put in after all newer
/// rows and before a row that is not newer.
proof fn lemma_insert_keeps_order(
    rows: Seq<(String, StoredWatch)>,
    at: int,
    key: String,
    watch: StoredWatch,
)
    requires
        newest_first(rows),
        0 <= at <= rows.len(),
        forall|j: int| 0 <= j < at ==> (#[trigger] rows[j]).1.created_at > watch.created_at,
        at < rows.len() ==> rows[at].1.created_at <= watch.created_at,
    ensures
        newest_first(rows.insert(at, (key, watch))),
{
    let after = rows.insert(at, (key, watch));
    assert forall|i: int, j: int| 0 <= i < j < after.len() implies after[i].1.created_at
        >= after[j].1.created_at by {
        let a = if i < at { i } else { i - 1 };
        let b = if j < at { j } else { j - 1 };
        if i == at {
            assert(after[j] == rows[b]);
            if b > at {
                assert(rows[at].1.created_at >= rows[b].1.created_at);
            }
        } else if j == at {
            assert(after[i] == rows[a]);
        } else {
            assert(after[i] == rows[a]);
            assert(after[j] == rows[b]);
        }
    }
}

} // verus!
