use solana_indexer::pipeline::account_watcher::{
    compare, AccountWatcher, Change, WatchOutcome, POLL_INTERVAL_SECS,
};
use solana_indexer::pipeline::slot_tracker::{
    Delivery, FailoverCause, SlotTracker, SourceCommand, SourceSignal, SourceState, Transition,
    SLOT_CHANNEL_CAPACITY, TRANSACTION_CHANNEL_CAPACITY,
};
use solana_indexer::pipeline::types::{
    AccountState, Slot, SlotStatus, Transaction, TransactionInfo,
};
use solana_indexer::storage::cache::l3_accounts::L3Accounts;
use solana_indexer::storage::cache::multi_cache::MultiCache;
use solana_indexer::storage::database::DatabaseStorage;
use solana_indexer::storage::memory::MemoryStorage;
use solana_indexer::utils::errors::IndexerError;

type Res<T> = Result<T, IndexerError>;

/// A store that refuses every call.
struct DownStore;

fn down() -> IndexerError {
    IndexerError::DatabaseError("store is down".to_string())
}

impl DatabaseStorage for DownStore {
    fn store_slot(&mut self, _: u64, _: i64, _: Option<u64>, _: &str) -> Res<()> {
        Err(down())
    }

    fn store_account(&mut self, _: AccountState) -> Res<()> {
        Err(down())
    }

    fn get_account(&self, _: &str) -> Res<Option<AccountState>> {
        Err(down())
    }

    fn get_slot(&self, _: u64) -> Res<Option<Slot>> {
        Err(down())
    }

    fn store_transaction(&mut self, _: Transaction) -> Res<()> {
        Err(down())
    }

    fn get_transaction(&self, _: &str) -> Res<Option<Transaction>> {
        Err(down())
    }

    fn get_latest_slot(&self) -> Res<Option<Slot>> {
        Err(down())
    }

    fn add_wallet(&mut self, _: String, _: Option<String>) -> Res<()> {
        Err(down())
    }

    fn remove_wallet(&mut self, _: &str) -> Res<()> {
        Err(down())
    }

    fn list_wallets(&self, _: bool) -> Res<Vec<(String, Option<String>, i64)>> {
        Err(down())
    }

    fn get_active_wallets(&self) -> Res<Vec<String>> {
        Err(down())
    }
}

fn slot(number: u64) -> Slot {
    Slot {
        slot: number,
        parent: number.checked_sub(1),
        status: SlotStatus::Confirmed,
        timestamp: 1_700_000_000 + number as i64,
        block_hash: Some(format!("hash{}", number)),
        block_height: Some(number),
    }
}

fn stored(number: u64) -> Slot {
    Slot { block_hash: None, block_height: None, ..slot(number) }
}

fn info(signature: &str, slot: u64) -> TransactionInfo {
    TransactionInfo {
        signature: signature.to_string(),
        slot,
        success: true,
        fee: 5000,
        program: "Vote111".to_string(),
        instructions: 2,
        compute_units: 300,
        accounts: vec!["a".to_string(), "b".to_string()],
        timestamp: 1_700_000_500,
    }
}

fn account(address: &str, lamports: u64, data: &[u8]) -> AccountState {
    AccountState {
        address: address.to_string(),
        slot: 10,
        lamports,
        owner: "owner".to_string(),
        executable: false,
        data: data.to_vec(),
        rent_epoch: 1,
    }
}

fn cache(l1: usize) -> MultiCache<MemoryStorage> {
    MultiCache::new(l1, 100, MemoryStorage::new())
}

fn failing_cache() -> MultiCache<DownStore> {
    MultiCache::new(3, 100, DownStore)
}

fn stored_slots(cache: &MultiCache<MemoryStorage>, upto: u64) -> Vec<u64> {
    (0..=upto).filter(|n| cache.database().get_slot(*n).unwrap().is_some()).collect()
}

#[test]
fn slot_goes_to_the_hot_tier_and_to_the_store() {
    let mut cache = cache(3);
    assert_eq!(cache.store_slot(slot(5)), Ok(()));
    assert_eq!(cache.l1().get(5), Some(slot(5)));
    assert_eq!(cache.database().get_slot(5), Ok(Some(stored(5))));
    assert_eq!(cache.database().get_latest_slot(), Ok(Some(stored(5))));
}

#[test]
fn every_status_is_stored_under_its_name() {
    let mut cache = cache(3);
    for (number, status) in
        [(1, SlotStatus::Processed), (2, SlotStatus::Confirmed), (3, SlotStatus::Finalized)]
    {
        let s = Slot { status, ..slot(number) };
        assert_eq!(cache.store_slot(s), Ok(()));
        assert_eq!(cache.database().get_slot(number).unwrap().unwrap().status, status);
    }
}

#[test]
fn store_keeps_what_the_hot_tier_evicts() {
    let mut cache = cache(3);
    for n in 1..=5u64 {
        assert_eq!(cache.store_slot(slot(n)), Ok(()));
    }
    let hot: Vec<u64> = cache.l1().get_all_slots().iter().map(|s| s.slot).collect();
    assert_eq!(hot, vec![3, 4, 5]);
    assert_eq!(cache.l1().get_latest_slot(), Some(slot(5)));
    assert_eq!(stored_slots(&cache, 10), vec![1, 2, 3, 4, 5]);
}

#[test]
fn storing_a_slot_twice_leaves_cache_and_store_as_they_were() {
    let mut cache = cache(3);
    cache.store_slot(slot(1)).unwrap();
    cache.store_slot(slot(2)).unwrap();
    let hot = cache.l1().get_all_slots();
    cache.store_slot(slot(2)).unwrap();
    assert_eq!(cache.l1().get_all_slots(), hot);
    assert_eq!(stored_slots(&cache, 10), vec![1, 2]);
    assert_eq!(cache.database().get_slot(2), Ok(Some(stored(2))));
}

#[test]
fn later_slot_record_overwrites_the_earlier() {
    let mut cache = cache(3);
    cache.store_slot(Slot { status: SlotStatus::Processed, ..slot(4) }).unwrap();
    cache.store_slot(Slot { status: SlotStatus::Finalized, ..slot(4) }).unwrap();
    assert_eq!(cache.l1().get(4).unwrap().status, SlotStatus::Finalized);
    assert_eq!(cache.database().get_slot(4).unwrap().unwrap().status, SlotStatus::Finalized);
    assert_eq!(stored_slots(&cache, 10), vec![4]);
}

#[test]
fn store_failure_is_reported_and_the_hot_tier_still_takes_the_slot() {
    let mut cache = failing_cache();
    assert_eq!(cache.store_slot(slot(5)), Err(down()));
    assert_eq!(cache.l1().get(5), Some(slot(5)));
    assert_eq!(cache.l1().get_latest_slot(), Some(slot(5)));
}

#[test]
fn transaction_goes_to_its_tier_and_to_the_store() {
    let mut cache = cache(3);
    let record = info("sig1", 9).into_transaction();
    assert_eq!(cache.store_transaction(record.clone()), Ok(()));
    assert_eq!(cache.l2().get("sig1"), Some(record.clone()));
    assert_eq!(cache.database().get_transaction("sig1"), Ok(Some(record.clone())));
    assert_eq!(cache.store_transaction(record.clone()), Ok(()));
    assert_eq!(cache.l2().get("sig1"), Some(record));
    assert_eq!(cache.database().get_transaction("sig2"), Ok(None));
}

#[test]
fn transaction_store_failure_is_reported() {
    let mut cache = failing_cache();
    let record = info("sig1", 9).into_transaction();
    assert_eq!(cache.store_transaction(record.clone()), Err(down()));
    assert_eq!(cache.l2().get("sig1"), Some(record));
}

#[test]
fn accounts_pass_through_to_the_store() {
    let mut cache = cache(3);
    assert_eq!(cache.get_account("addr"), Ok(None));
    assert_eq!(cache.store_account(account("addr", 5, &[1])), Ok(()));
    assert_eq!(cache.get_account("addr"), Ok(Some(account("addr", 5, &[1]))));
    assert_eq!(cache.store_account(account("addr", 6, &[1])), Ok(()));
    assert_eq!(cache.get_account("addr"), Ok(Some(account("addr", 6, &[1]))));
    assert_eq!(cache.get_account("add"), Ok(None));
    let mut failing = failing_cache();
    assert_eq!(failing.get_account("addr"), Err(down()));
    assert_eq!(failing.store_account(account("addr", 5, &[1])), Err(down()));
}

#[test]
fn account_tier_is_the_store() {
    let mut tier = L3Accounts::new(MemoryStorage::new());
    assert_eq!(tier.get("a"), Ok(None));
    assert_eq!(tier.insert(account("a", 1, &[])), Ok(()));
    assert_eq!(tier.insert(account("a", 1, &[])), Ok(()));
    assert_eq!(tier.get("a"), Ok(Some(account("a", 1, &[]))));
    assert_eq!(tier.database().get_account("a"), Ok(Some(account("a", 1, &[]))));
}

#[test]
fn channel_capacities_keep_transactions_from_starving_slots() {
    assert_eq!(SLOT_CHANNEL_CAPACITY, 1000);
    assert_eq!(TRANSACTION_CHANNEL_CAPACITY, 10000);
    assert_eq!(POLL_INTERVAL_SECS, 5);
}

#[test]
fn run_without_streaming_endpoint_polls_from_the_start() {
    let mut tracker = SlotTracker::new(false);
    assert_eq!(tracker.state(), SourceState::Unconfigured);
    assert_eq!(
        tracker.start(),
        Transition { state: SourceState::PollingOnly, command: SourceCommand::Poll, failover: None }
    );
    assert_eq!(tracker.state(), SourceState::PollingOnly);
}

#[test]
fn refused_subscription_falls_back_to_polling_and_slots_still_flow() {
    let mut tracker = SlotTracker::new(true);
    assert_eq!(tracker.state(), SourceState::StreamingAttempt);
    assert_eq!(
        tracker.start(),
        Transition {
            state: SourceState::StreamingAttempt,
            command: SourceCommand::Subscribe,
            failover: None
        }
    );
    assert_eq!(
        tracker.on_signal(SourceSignal::ConnectFailed),
        Transition {
            state: SourceState::PollingOnly,
            command: SourceCommand::Poll,
            failover: Some(FailoverCause::ConnectFailed)
        }
    );
    let mut cache = cache(3);
    for n in [101u64, 102] {
        let deliveries = SlotTracker::poll_from_rpc(slot(n), vec![]);
        assert_eq!(deliveries, vec![Delivery::Slot(slot(n))]);
        for delivery in deliveries {
            assert_eq!(SlotTracker::record(&mut cache, delivery), Ok(()));
        }
        assert_eq!(tracker.state(), SourceState::PollingOnly);
    }
    assert_eq!(cache.l1().get_latest_slot(), Some(slot(102)));
}

#[test]
fn established_stream_is_left_on_its_first_failure() {
    for (signal, cause) in [
        (SourceSignal::StreamError, FailoverCause::StreamError),
        (SourceSignal::SlotStreamClosed, FailoverCause::SlotStreamClosed),
        (SourceSignal::TransactionStreamClosed, FailoverCause::TransactionStreamClosed),
        (SourceSignal::ConnectFailed, FailoverCause::ConnectFailed),
    ] {
        let mut tracker = SlotTracker::new(true);
        tracker.start();
        assert_eq!(
            tracker.on_signal(SourceSignal::Connected),
            Transition {
                state: SourceState::StreamingActive,
                command: SourceCommand::Stream,
                failover: None
            }
        );
        assert_eq!(
            tracker.on_signal(signal),
            Transition {
                state: SourceState::PollingOnly,
                command: SourceCommand::Poll,
                failover: Some(cause)
            }
        );
    }
}

#[test]
fn polling_is_never_left() {
    let all = [
        SourceSignal::Start,
        SourceSignal::Connected,
        SourceSignal::ConnectFailed,
        SourceSignal::StreamError,
        SourceSignal::SlotStreamClosed,
        SourceSignal::TransactionStreamClosed,
    ];
    let mut tracker = SlotTracker::new(false);
    tracker.start();
    for signal in all {
        assert_eq!(
            tracker.on_signal(signal),
            Transition {
                state: SourceState::PollingOnly,
                command: SourceCommand::Continue,
                failover: None
            }
        );
    }
}

#[test]
fn signals_that_change_nothing_ask_for_nothing() {
    let mut tracker = SlotTracker::new(true);
    tracker.start();
    tracker.on_signal(SourceSignal::Connected);
    for signal in [SourceSignal::Start, SourceSignal::Connected] {
        assert_eq!(
            tracker.on_signal(signal),
            Transition {
                state: SourceState::StreamingActive,
                command: SourceCommand::Continue,
                failover: None
            }
        );
    }
}

#[test]
fn transactions_of_a_polled_slot_come_before_the_slot() {
    let transactions = vec![info("s1", 7), info("s2", 7), info("s3", 7)];
    let deliveries = SlotTracker::poll_from_rpc(slot(7), transactions);
    assert_eq!(
        deliveries,
        vec![
            Delivery::Transaction(info("s1", 7)),
            Delivery::Transaction(info("s2", 7)),
            Delivery::Transaction(info("s3", 7)),
            Delivery::Slot(slot(7)),
        ]
    );
}

#[test]
fn each_polled_slot_is_stored_before_the_next_begins() {
    let mut cache = cache(10);
    let mut forwarded = Vec::new();
    for (n, signatures) in [(101u64, vec!["a", "b"]), (102, vec![]), (103, vec!["c"])] {
        let transactions = signatures.iter().map(|s| info(s, n)).collect();
        for delivery in SlotTracker::poll_from_rpc(slot(n), transactions) {
            forwarded.push(match &delivery {
                Delivery::Transaction(t) => format!("tx {}", t.signature),
                Delivery::Slot(s) => format!("slot {}", s.slot),
            });
            assert_eq!(SlotTracker::record(&mut cache, delivery), Ok(()));
        }
        assert_eq!(cache.l1().get_latest_slot(), Some(slot(n)));
        assert_eq!(cache.database().get_latest_slot(), Ok(Some(stored(n))));
    }
    assert_eq!(
        forwarded,
        vec!["tx a", "tx b", "slot 101", "slot 102", "tx c", "slot 103"]
    );
    for signature in ["a", "b", "c"] {
        assert!(cache.database().get_transaction(signature).unwrap().is_some());
    }
}

fn three_polled_slots() -> Vec<(Slot, Vec<TransactionInfo>)> {
    vec![
        (slot(101), vec![info("a", 101), info("b", 101)]),
        (slot(102), vec![]),
        (slot(103), vec![info("c", 103)]),
    ]
}

#[test]
fn polled_slots_are_delivered_in_turn() {
    assert_eq!(
        SlotTracker::poll_run_from_rpc(three_polled_slots()),
        vec![
            Delivery::Transaction(info("a", 101)),
            Delivery::Transaction(info("b", 101)),
            Delivery::Slot(slot(101)),
            Delivery::Slot(slot(102)),
            Delivery::Transaction(info("c", 103)),
            Delivery::Slot(slot(103)),
        ]
    );
    assert!(SlotTracker::poll_run_from_rpc(vec![]).is_empty());
}

#[test]
fn run_of_deliveries_is_written_through_in_order() {
    let mut cache = cache(2);
    let deliveries = SlotTracker::poll_run_from_rpc(three_polled_slots());
    let done = SlotTracker::record_all(&mut cache, deliveries);
    assert_eq!(done, vec![Ok(()); 6]);
    let hot: Vec<u64> = cache.l1().get_all_slots().iter().map(|s| s.slot).collect();
    assert_eq!(hot, vec![102, 103]);
    assert_eq!(stored_slots(&cache, 200), vec![101, 102, 103]);
    for signature in ["a", "b", "c"] {
        assert_eq!(
            cache.database().get_transaction(signature).unwrap().map(|t| t.signature),
            Some(signature.to_string())
        );
        assert!(cache.l2().get(signature).is_some());
    }
    assert!(SlotTracker::record_all(&mut cache, vec![]).is_empty());
}

#[test]
fn run_of_deliveries_reports_each_refusal_and_goes_on() {
    let mut cache = failing_cache();
    let deliveries = SlotTracker::poll_run_from_rpc(three_polled_slots());
    let done = SlotTracker::record_all(&mut cache, deliveries);
    assert_eq!(done, vec![Err(down()); 6]);
    let hot: Vec<u64> = cache.l1().get_all_slots().iter().map(|s| s.slot).collect();
    assert_eq!(hot, vec![101, 102, 103]);
    assert!(cache.l2().get("c").is_some());
}

#[test]
fn forwarded_transaction_is_stored_in_its_durable_form() {
    let mut cache = cache(3);
    let recorded = SlotTracker::record(&mut cache, Delivery::Transaction(info("s1", 7)));
    assert_eq!(recorded, Ok(()));
    let durable = info("s1", 7).into_transaction();
    assert_eq!(durable.block_time, Some(1_700_000_500));
    assert_eq!(cache.l2().get("s1"), Some(durable.clone()));
    assert_eq!(cache.database().get_transaction("s1"), Ok(Some(durable)));
    assert!(cache.l1().get_all_slots().is_empty());
}

#[test]
fn forwarded_slot_is_stored_in_both_places() {
    let mut cache = cache(3);
    assert_eq!(SlotTracker::record(&mut cache, Delivery::Slot(slot(7))), Ok(()));
    assert_eq!(cache.l1().get(7), Some(slot(7)));
    assert_eq!(cache.database().get_slot(7), Ok(Some(stored(7))));
    assert_eq!(cache.l2().get("s1"), None);
}

#[test]
fn store_failure_is_reported_not_raised() {
    let mut cache = failing_cache();
    assert_eq!(SlotTracker::record(&mut cache, Delivery::Slot(slot(7))), Err(down()));
    assert_eq!(cache.l1().get(7), Some(slot(7)));
    assert_eq!(
        SlotTracker::record(&mut cache, Delivery::Transaction(info("s1", 7))),
        Err(down())
    );
    assert_eq!(cache.l2().get("s1"), Some(info("s1", 7).into_transaction()));
}

#[test]
fn change_is_a_difference_in_lamports_or_data() {
    let base = account("a", 10, &[1, 2]);
    assert_eq!(compare(&None, &base), Change::FirstSeen);
    assert_eq!(compare(&Some(base.clone()), &base), Change::Unchanged);
    assert_eq!(compare(&Some(base.clone()), &account("a", 11, &[1, 2])), Change::Changed);
    assert_eq!(compare(&Some(base.clone()), &account("a", 10, &[1, 3])), Change::Changed);
    assert_eq!(compare(&Some(base.clone()), &account("a", 10, &[1])), Change::Changed);
    assert_eq!(compare(&Some(base.clone()), &account("a", 10, &[1, 2, 0])), Change::Changed);
    let elsewhere = AccountState {
        slot: 99,
        owner: "other".to_string(),
        executable: true,
        rent_epoch: 8,
        ..base.clone()
    };
    assert_eq!(compare(&Some(base), &elsewhere), Change::Unchanged);
}

#[test]
fn watcher_keeps_its_addresses_in_order() {
    let mut watcher = AccountWatcher::new();
    assert!(watcher.addresses().is_empty());
    watcher.add_account("b".to_string());
    watcher.add_account("a".to_string());
    watcher.add_account("b".to_string());
    assert_eq!(watcher.addresses(), &vec!["b".to_string(), "a".to_string(), "b".to_string()]);
}

#[test]
fn fetched_state_is_compared_and_always_stored() {
    let mut cache = cache(3);
    assert_eq!(
        AccountWatcher::reconcile(&mut cache, Ok(account("a", 10, &[1]))),
        WatchOutcome::Refreshed { change: Ok(Change::FirstSeen), stored: Ok(()) }
    );
    assert_eq!(
        AccountWatcher::reconcile(&mut cache, Ok(account("a", 10, &[1]))),
        WatchOutcome::Refreshed { change: Ok(Change::Unchanged), stored: Ok(()) }
    );
    let mut later = account("a", 10, &[1]);
    later.slot = 11;
    assert_eq!(
        AccountWatcher::reconcile(&mut cache, Ok(later.clone())),
        WatchOutcome::Refreshed { change: Ok(Change::Unchanged), stored: Ok(()) }
    );
    assert_eq!(cache.get_account("a"), Ok(Some(later)));
    assert_eq!(
        AccountWatcher::reconcile(&mut cache, Ok(account("a", 12, &[1]))),
        WatchOutcome::Refreshed { change: Ok(Change::Changed), stored: Ok(()) }
    );
    assert_eq!(cache.get_account("a"), Ok(Some(account("a", 12, &[1]))));
}

#[test]
fn one_failed_fetch_leaves_the_other_address_refreshed() {
    let mut cache = cache(3);
    cache.store_account(account("first", 1, &[])).unwrap();
    cache.store_account(account("second", 1, &[])).unwrap();
    let fetched = vec![
        Err(IndexerError::RpcError("RPC error: timeout".to_string())),
        Ok(account("second", 2, &[])),
    ];
    let outcomes: Vec<WatchOutcome> =
        fetched.into_iter().map(|f| AccountWatcher::reconcile(&mut cache, f)).collect();
    assert_eq!(
        outcomes,
        vec![
            WatchOutcome::FetchFailed(IndexerError::RpcError("RPC error: timeout".to_string())),
            WatchOutcome::Refreshed { change: Ok(Change::Changed), stored: Ok(()) },
        ]
    );
    assert_eq!(cache.get_account("first"), Ok(Some(account("first", 1, &[]))));
    assert_eq!(cache.get_account("second"), Ok(Some(account("second", 2, &[]))));
}

#[test]
fn store_that_is_down_is_reported_for_the_address() {
    let mut cache = failing_cache();
    assert_eq!(
        AccountWatcher::reconcile(&mut cache, Ok(account("a", 1, &[]))),
        WatchOutcome::Refreshed { change: Err(down()), stored: Err(down()) }
    );
    assert_eq!(
        AccountWatcher::reconcile(&mut cache, Err(down())),
        WatchOutcome::FetchFailed(down())
    );
}

fn listed(store: &MemoryStorage, active_only: bool) -> Vec<(String, Option<String>)> {
    store.list_wallets(active_only).unwrap().into_iter().map(|(a, n, _)| (a, n)).collect()
}

#[test]
fn removed_watch_is_inactive_and_still_listed() {
    let mut store = MemoryStorage::new();
    store.add_wallet("one".to_string(), Some("first".to_string())).unwrap();
    store.add_wallet("two".to_string(), None).unwrap();
    store.remove_wallet("one").unwrap();
    assert_eq!(store.get_active_wallets(), Ok(vec!["two".to_string()]));
    assert_eq!(listed(&store, true), vec![("two".to_string(), None)]);
    assert_eq!(
        listed(&store, false),
        vec![("two".to_string(), None), ("one".to_string(), Some("first".to_string()))]
    );
    store.remove_wallet("missing").unwrap();
    assert_eq!(listed(&store, false).len(), 2);
}

#[test]
fn watch_that_is_added_again_is_active_again() {
    let mut store = MemoryStorage::new();
    store.add_wallet("one".to_string(), Some("first".to_string())).unwrap();
    store.add_wallet("two".to_string(), None).unwrap();
    store.remove_wallet("one").unwrap();
    store.add_wallet("one".to_string(), Some("again".to_string())).unwrap();
    assert_eq!(
        listed(&store, true),
        vec![("one".to_string(), Some("again".to_string())), ("two".to_string(), None)]
    );
    let mut active = store.get_active_wallets().unwrap();
    active.sort();
    assert_eq!(active, vec!["one".to_string(), "two".to_string()]);
    let times: Vec<i64> = store.list_wallets(false).unwrap().into_iter().map(|l| l.2).collect();
    assert!(times.windows(2).all(|w| w[0] >= w[1]));
    assert!(times[0] > 1_600_000_000);
}

#[test]
fn empty_store_lists_nothing() {
    let store = MemoryStorage::new();
    assert_eq!(store.get_active_wallets(), Ok(vec![]));
    assert_eq!(store.list_wallets(false), Ok(vec![]));
    assert_eq!(store.get_latest_slot(), Ok(None));
    assert_eq!(store.get_slot(0), Ok(None));
    assert_eq!(store.get_account(""), Ok(None));
    assert_eq!(store.get_transaction(""), Ok(None));
}

#[test]
fn latest_stored_slot_is_the_greatest_number() {
    let mut store = MemoryStorage::new();
    for n in [5u64, 90, 17] {
        store.store_slot(n, n as i64, None, "Finalized").unwrap();
    }
    let latest = store.get_latest_slot().unwrap().unwrap();
    assert_eq!((latest.slot, latest.timestamp, latest.status), (90, 90, SlotStatus::Finalized));
    store.store_slot(90, 1, Some(89), "odd").unwrap();
    assert_eq!(
        store.get_slot(90),
        Ok(Some(Slot {
            slot: 90,
            parent: Some(89),
            status: SlotStatus::Processed,
            timestamp: 1,
            block_hash: None,
            block_height: None,
        }))
    );
}

#[test]
fn store_that_is_down_refuses_the_watch_list() {
    let mut store = DownStore;
    assert_eq!(store.add_wallet("a".to_string(), None), Err(down()));
    assert_eq!(store.remove_wallet("a"), Err(down()));
    assert_eq!(store.list_wallets(true), Err(down()));
    assert_eq!(store.get_active_wallets(), Err(down()));
    assert_eq!(store.get_slot(1), Err(down()));
    assert_eq!(store.get_latest_slot(), Err(down()));
    assert_eq!(store.get_transaction("s"), Err(down()));
}
