//! The account watch: how a fetched account state is reconciled with the
//! state stored before.

use crate::pipeline::types::{AccountState, AccountStateView};
use crate::storage::cache::multi_cache::MultiCache;
use crate::storage::database::{account_of, answers_get_account, DatabaseStorage, StoreState};
use crate::utils::errors::IndexerError;
use vstd::prelude::*;

verus! {

/// Seconds between two rounds over the watched addresses.
pub const POLL_INTERVAL_SECS: u64 = 5;

/// How a freshly fetched account state stands to the one stored before.
#[derive(Debug, Clone, Copy, PartialEq, Eq, Structural)]
pub enum Change {
    /// Nothing was stored for the address.
    FirstSeen,
    /// Balance and data are as stored.
    Unchanged,
    /// The balance or the data differ from what was stored.
    Changed,
}

/// How the fetched state stands to the stored one: a change is a
/// difference in lamports or in data, and in nothing else.
pub open spec fn change_between(previous: Option<AccountStateView>, fetched: AccountStateView) -> Change {
    match previous {
        None => Change::FirstSeen,
        Some(p) => if p.lamports != fetched.lamports || p.data != fetched.data {
            Change::Changed
        } else {
            Change::Unchanged
        },
    }
}

/// The account state stored under `address`, if any.
pub open spec fn stored_account(store: StoreState, address: Seq<char>) -> Option<AccountStateView> {
    if store.accounts.contains_key(address) {
        Some(store.accounts[address])
    } else {
        None
    }
}

/// What one address came to in a round.
#[derive(Debug, PartialEq, Eq)]
pub enum WatchOutcome {
    /// The state could not be fetched: the address is passed over.
    FetchFailed(IndexerError),
    /// The state was fetched and handed to the store.
    Refreshed {
        /// How the fetched state stands to the stored one, or why the
        /// stored one could not be read.
        change: Result<Change, IndexerError>,
        /// Whether the store took the fetched state.
        stored: Result<(), IndexerError>,
    },
}

/// Whether two runs of bytes are the same.
fn same_bytes(a: &Vec<u8>, b: &Vec<u8>) -> (same: bool)
    ensures
        same == (a@ == b@),
{
    if a.len() != b.len() {
        return false;
    }
    let mut i: usize = 0;
    while i < a.len()
        invariant
            i <= a.len(),
            a.len() == b.len(),
            forall|j: int| 0 <= j < i ==> a@[j] == b@[j],
        decreases a.len() - i,
    {
        if a[i] != b[i] {
            return false;
        }
        i += 1;
    }
    assert(a@ =~= b@);
    true
}

/// How `fetched` stands to the state stored before.
pub fn compare(previous: &Option<AccountState>, fetched: &AccountState) -> (change: Change)
    ensures
        change == change_between(
            match previous {
                Some(p) => Some(p@),
                None => None,
            },
            fetched@,
        ),
{
    match previous {
        None => Change::FirstSeen,
        Some(p) => if p.lamports != fetched.lamports || !same_bytes(&p.data, &fetched.data) {
            Change::Changed
        } else {
            Change::Unchanged
        },
    }
}

/// The account-watch loop's fixed list of addresses.
pub struct AccountWatcher {
    accounts_to_watch: Vec<String>,
}

impl AccountWatcher {
    /// The watched addresses, in the order in which they were added.
    pub closed spec fn watched(&self) -> Seq<Seq<char>> {
        self.accounts_to_watch.deep_view()
    }

    pub fn new() -> (watcher: AccountWatcher)
        ensures
            watcher.watched() == Seq::<Seq<char>>::empty(),
    {
        let watcher = AccountWatcher { accounts_to_watch: Vec::new() };
        watcher
    }

    pub fn add_account(&mut self, address: String)
        ensures
            final(self).watched() == old(self).watched().push(address@),
    {
        self.accounts_to_watch.push(address);
    }

    /// The watched addresses, in the order in which they were added.
    pub fn addresses(&self) -> (list: &Vec<String>)
        ensures
            list.deep_view() == self.watched(),
    {
        &self.accounts_to_watch
    }

    /// Reconciles one address with what its fetch brought. A failed fetch
    /// touches nothing. A fetched state is compared with the one stored
    /// under its address and then stored in its place, changed or not, and
    /// also where the stored one could not be read.
    pub fn reconcile<D: DatabaseStorage>(
        cache: &mut MultiCache<D>,
        fetched: Result<AccountState, IndexerError>,
    ) -> (outcome: WatchOutcome)
        ensures
            final(cache).hot_slots() == old(cache).hot_slots(),
            final(cache).hot_capacity() == old(cache).hot_capacity(),
            final(cache).recent_transactions() == old(cache).recent_transactions(),
            final(cache).transaction_capacity() == old(cache).transaction_capacity(),
            match fetched {
                Err(e) => outcome matches WatchOutcome::FetchFailed(reported) && reported@ == e@
                    && final(cache).store() == old(cache).store(),
                Ok(account) => {
                    let written = old(cache).store().with_account(account@);
                    &&& outcome matches WatchOutcome::Refreshed { change, stored }
                    &&& outcome->change matches Ok(c) ==> c == change_between(
                        stored_account(old(cache).store(), account@.address),
                        account@,
                    )
                    &&& exists|address: &str, previous: Result<Option<AccountState>, IndexerError>|
                        address@ == account@.address && #[trigger] answers_get_account(
                            old(cache).held(),
                            address,
                            previous,
                        ) && (previous is Ok ==> outcome->change == Ok::<Change, IndexerError>(
                            change_between(account_of(previous->Ok_0), account@),
                        )) && (previous is Err ==> outcome->change is Err)
                    &&& exists|db: &mut D|
                        *db == old(cache).held() && *final(db) == final(cache).held()
                            && #[trigger] call_ensures(
                            D::store_account,
                            (db, account),
                            outcome->stored,
                        )
                    &&& outcome->stored is Ok ==> final(cache).store() == written
                    &&& final(cache).store() == written || final(cache).store() == old(
                        cache,
                    ).store()
                },
            },
    {
        let account = match fetched {
            Ok(account) => account,
            Err(e) => {
                return WatchOutcome::FetchFailed(e);
            },
        };
        let address = account.address.as_str();
        let previous = cache.get_account(address);
        assert(answers_get_account(cache.held(), address, previous));
        let change = match previous {
            Ok(previous) => Ok(compare(&previous, &account)),
            Err(e) => Err(e),
        };
        let stored = cache.store_account(account);
        WatchOutcome::Refreshed { change, stored }
    }
}

/// A state that is reconciled a second time is found unchanged, and the
/// store stays as the first round left it.
pub proof fn lemma_second_round_unchanged(store: StoreState, account: AccountStateView)
    ensures
        change_between(
            stored_account(store.with_account(account), account.address),
            account,
        ) == Change::Unchanged,
        store.with_account(account).with_account(account) == store.with_account(account),
{
    assert(store.accounts.insert(account.address, account).insert(account.address, account)
        =~= store.accounts.insert(account.address, account));
}

} // verus!
