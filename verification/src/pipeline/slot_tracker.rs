//! The ingestion pipeline: which source a run reads, when it falls back to
//! polling, in what order events are forwarded, and what is written through.

use crate::pipeline::types::{
    Slot, SlotView, Transaction, TransactionInfo, TransactionInfoView,
};
use crate::storage::cache::l1_hot_slots::after_insert;
use crate::storage::cache::multi_cache::{slot_row, MultiCache};
use crate::pipeline::types::TransactionView;
use crate::storage::database::{DatabaseStorage, StoreState};
use crate::utils::errors::IndexerError;
use vstd::prelude::*;

verus! {

/// Capacity of the channel that carries slots to the consumer.
pub const SLOT_CHANNEL_CAPACITY: usize = 1000;

/// Capacity of the channel that carries transactions to the consumer.
pub const TRANSACTION_CHANNEL_CAPACITY: usize = 10000;

/// Where the pipeline takes its events from.
#[derive(Debug, Clone, Copy, PartialEq, Eq, Structural)]
pub enum SourceState {
    /// No streaming endpoint is configured.
    Unconfigured,
    /// A streaming endpoint is configured and has not answered yet.
    StreamingAttempt,
    /// The streaming connection delivers events.
    StreamingActive,
    /// The polling source delivers events, for the rest of the run.
    PollingOnly,
}

/// What the pipeline learns of its source, besides the events themselves.
#[derive(Debug, Clone, Copy, PartialEq, Eq, Structural)]
pub enum SourceSignal {
    /// The run begins.
    Start,
    /// The streaming connection is established.
    Connected,
    /// The streaming connection could not be established.
    ConnectFailed,
    /// The stream reported an error.
    StreamError,
    /// The sequence of slot events ended.
    SlotStreamClosed,
    /// The sequence of transaction events ended.
    TransactionStreamClosed,
}

/// Why the pipeline left the streaming source.
#[derive(Debug, Clone, Copy, PartialEq, Eq, Structural)]
pub enum FailoverCause {
    ConnectFailed,
    StreamError,
    SlotStreamClosed,
    TransactionStreamClosed,
}

/// What the pipeline asks of its driver after a signal.
#[derive(Debug, Clone, Copy, PartialEq, Eq, Structural)]
pub enum SourceCommand {
    /// Open the streaming connection and report how it went.
    Subscribe,
    /// Read the two streams and hand on what they deliver.
    Stream,
    /// Read the polling source from now on.
    Poll,
    /// Go on as before.
    Continue,
}

impl SourceSignal {
    /// The failure that a signal reports, if it reports one.
    pub open spec fn failure(self) -> Option<FailoverCause> {
        match self {
            SourceSignal::Start => None,
            SourceSignal::Connected => None,
            SourceSignal::ConnectFailed => Some(FailoverCause::ConnectFailed),
            SourceSignal::StreamError => Some(FailoverCause::StreamError),
            SourceSignal::SlotStreamClosed => Some(FailoverCause::SlotStreamClosed),
            SourceSignal::TransactionStreamClosed => Some(FailoverCause::TransactionStreamClosed),
        }
    }

    /// The failure that this signal reports, if it reports one.
    pub fn as_failure(&self) -> (cause: Option<FailoverCause>)
        ensures
            cause == self.failure(),
    {
        match self {
            SourceSignal::Start => None,
            SourceSignal::Connected => None,
            SourceSignal::ConnectFailed => Some(FailoverCause::ConnectFailed),
            SourceSignal::StreamError => Some(FailoverCause::StreamError),
            SourceSignal::SlotStreamClosed => Some(FailoverCause::SlotStreamClosed),
            SourceSignal::TransactionStreamClosed => Some(FailoverCause::TransactionStreamClosed),
        }
    }
}

impl SourceState {
    /// Whether events come from the streaming side in this state.
    pub open spec fn streaming(self) -> bool {
        self == SourceState::StreamingAttempt || self == SourceState::StreamingActive
    }

    /// The state after a signal. Without a streaming endpoint the run polls.
    /// An attempt becomes active when the connection stands. Any failure
    /// ends streaming for good. Polling is never left.
    pub open spec fn after(self, signal: SourceSignal) -> SourceState {
        match self {
            SourceState::Unconfigured => SourceState::PollingOnly,
            SourceState::StreamingAttempt => if signal.failure() is Some {
                SourceState::PollingOnly
            } else if signal == SourceSignal::Connected {
                SourceState::StreamingActive
            } else {
                SourceState::StreamingAttempt
            },
            SourceState::StreamingActive => if signal.failure() is Some {
                SourceState::PollingOnly
            } else {
                SourceState::StreamingActive
            },
            SourceState::PollingOnly => SourceState::PollingOnly,
        }
    }

    /// What the driver is to do after a signal: poll when polling has just
    /// begun, subscribe when a configured run starts, stream when the
    /// connection has just been established.
    pub open spec fn command(self, signal: SourceSignal) -> SourceCommand {
        if self != SourceState::PollingOnly && self.after(signal) == SourceState::PollingOnly {
            SourceCommand::Poll
        } else if self == SourceState::StreamingAttempt && signal == SourceSignal::Start {
            SourceCommand::Subscribe
        } else if self == SourceState::StreamingAttempt && signal == SourceSignal::Connected {
            SourceCommand::Stream
        } else {
            SourceCommand::Continue
        }
    }

    /// The cause to report where a signal ends streaming.
    pub open spec fn failover(self, signal: SourceSignal) -> Option<FailoverCause> {
        if self.streaming() {
            signal.failure()
        } else {
            None
        }
    }

    /// The state after a run of signals, first to last.
    pub open spec fn after_all(self, signals: Seq<SourceSignal>) -> SourceState
        decreases signals.len(),
    {
        if signals.len() == 0 {
            self
        } else {
            self.after_all(signals.drop_last()).after(signals.last())
        }
    }
}

/// Polling is final: no run of signals leads away from it.
pub proof fn lemma_polling_is_final(signals: Seq<SourceSignal>)
    ensures
        SourceState::PollingOnly.after_all(signals) == SourceState::PollingOnly,
    decreases signals.len(),
{
    if signals.len() > 0 {
        lemma_polling_is_final(signals.drop_last());
    }
}

/// Failover is one way: after a failure signal, in whatever state it came,
/// the run polls, and every later signal leaves it polling.
pub proof fn lemma_failure_ends_streaming(
    state: SourceState,
    failure: SourceSignal,
    later: Seq<SourceSignal>,
)
    requires
        failure.failure() is Some,
    ensures
        state.after(failure) == SourceState::PollingOnly,
        state.after(failure).after_all(later) == SourceState::PollingOnly,
        state.streaming() ==> state.command(failure) == SourceCommand::Poll && state.failover(
            failure,
        ) == failure.failure(),
{
    lemma_polling_is_final(later);
}

/// A run whose streaming endpoint never connects falls back to polling: it
/// is told to subscribe, then, on the refusal, to poll, with the refusal as
/// the cause, and it polls from then on whatever else is signalled.
pub proof fn lemma_refused_subscription_polls(later: Seq<SourceSignal>)
    ensures
        SourceState::StreamingAttempt.command(SourceSignal::Start) == SourceCommand::Subscribe,
        SourceState::StreamingAttempt.after(SourceSignal::Start) == SourceState::StreamingAttempt,
        SourceState::StreamingAttempt.command(SourceSignal::ConnectFailed) == SourceCommand::Poll,
        SourceState::StreamingAttempt.failover(SourceSignal::ConnectFailed) == Some(
            FailoverCause::ConnectFailed,
        ),
        SourceState::StreamingAttempt.after(SourceSignal::Start).after(
            SourceSignal::ConnectFailed,
        ).after_all(later) == SourceState::PollingOnly,
{
    lemma_polling_is_final(later);
}

/// A run without a streaming endpoint polls from its start, with no
/// failover to report.
pub proof fn lemma_unconfigured_run_polls(later: Seq<SourceSignal>)
    ensures
        SourceState::Unconfigured.command(SourceSignal::Start) == SourceCommand::Poll,
        SourceState::Unconfigured.failover(SourceSignal::Start) == None::<FailoverCause>,
        SourceState::Unconfigured.after(SourceSignal::Start).after_all(later)
            == SourceState::PollingOnly,
{
    lemma_polling_is_final(later);
}

/// What a signal led to.
#[derive(Debug, Clone, Copy, PartialEq, Eq, Structural)]
pub struct Transition {
    /// The state from now on.
    pub state: SourceState,
    /// What the driver is to do next.
    pub command: SourceCommand,
    /// Why streaming was left, where this signal ended it.
    pub failover: Option<FailoverCause>,
}

/// One event on its way to the consumer.
#[derive(Debug, PartialEq, Eq)]
pub enum Delivery {
    Transaction(TransactionInfo),
    Slot(Slot),
}

/// What a [`Delivery`] holds, as plain values.
pub enum DeliveryView {
    Transaction(TransactionInfoView),
    Slot(SlotView),
}

impl View for Delivery {
    type V = DeliveryView;

    open spec fn view(&self) -> DeliveryView {
        match self {
            Delivery::Transaction(t) => DeliveryView::Transaction(t@),
            Delivery::Slot(s) => DeliveryView::Slot(s@),
        }
    }
}

/// The deliveries of one polled slot: its transactions in their order,
/// then the slot itself.
pub open spec fn polled_deliveries(
    slot: SlotView,
    transactions: Seq<TransactionInfoView>,
) -> Seq<DeliveryView> {
    transactions.map_values(|t: TransactionInfoView| DeliveryView::Transaction(t)).push(
        DeliveryView::Slot(slot),
    )
}

/// Polling order: the deliveries of a polled slot are its transactions, each
/// once and in their order, and then, last and only there, the slot.
pub proof fn lemma_transactions_before_slot(slot: SlotView, transactions: Seq<TransactionInfoView>)
    ensures
        ({
            let deliveries = polled_deliveries(slot, transactions);
            &&& deliveries.len() == transactions.len() + 1
            &&& deliveries[transactions.len() as int] == DeliveryView::Slot(slot)
            &&& forall|i: int|
                0 <= i < transactions.len() ==> #[trigger] deliveries[i]
                    == DeliveryView::Transaction(transactions[i])
            &&& forall|i: int|
                0 <= i < deliveries.len() && #[trigger] deliveries[i] is Slot ==> i
                    == transactions.len()
        }),
{
}

/// The deliveries of a run of polled slots, first to last: those of each
/// slot in turn.
pub open spec fn run_deliveries(polled: Seq<(SlotView, Seq<TransactionInfoView>)>) -> Seq<
    DeliveryView,
>
    decreases polled.len(),
{
    if polled.len() == 0 {
        Seq::empty()
    } else {
        run_deliveries(polled.drop_last()) + polled_deliveries(polled.last().0, polled.last().1)
    }
}

/// What a run of polled slots holds.
pub open spec fn polled_views(polled: Seq<(Slot, Vec<TransactionInfo>)>) -> Seq<
    (SlotView, Seq<TransactionInfoView>),
> {
    polled.map_values(
        |p: (Slot, Vec<TransactionInfo>)| (p.0@, p.1@.map_values(|t: TransactionInfo| t@)),
    )
}

/// The deliveries of the first slots of a run open the deliveries of the
/// whole run.
pub proof fn lemma_run_opens_with(polled: Seq<(SlotView, Seq<TransactionInfoView>)>, n: int)
    requires
        0 <= n <= polled.len(),
    ensures
        run_deliveries(polled.take(n)).len() <= run_deliveries(polled).len(),
        run_deliveries(polled).subrange(0, run_deliveries(polled.take(n)).len() as int)
            == run_deliveries(polled.take(n)),
    decreases polled.len(),
{
    if n == polled.len() {
        assert(polled.take(n) =~= polled);
        assert(run_deliveries(polled).subrange(0, run_deliveries(polled).len() as int)
            =~= run_deliveries(polled));
    } else {
        let shorter = polled.drop_last();
        lemma_run_opens_with(shorter, n);
        assert(shorter.take(n) =~= polled.take(n));
        assert(run_deliveries(polled).subrange(0, run_deliveries(polled.take(n)).len() as int)
            =~= run_deliveries(shorter).subrange(0, run_deliveries(polled.take(n)).len() as int));
    }
}

/// Polled slots are delivered in turn: the run opens with the deliveries
/// of the slots before slot `k`, and goes on with the transactions of slot
/// `k` and then slot `k` itself, before anything of a later slot.
pub proof fn lemma_slots_in_turn(polled: Seq<(SlotView, Seq<TransactionInfoView>)>, k: int)
    requires
        0 <= k < polled.len(),
    ensures
        ({
            let before = run_deliveries(polled.take(k));
            let own = polled_deliveries(polled[k].0, polled[k].1);
            &&& before.len() + own.len() <= run_deliveries(polled).len()
            &&& run_deliveries(polled).subrange(0, before.len() as int) == before
            &&& run_deliveries(polled).subrange(
                before.len() as int,
                (before.len() + own.len()) as int,
            ) == own
        }),
{
    let before = run_deliveries(polled.take(k));
    let own = polled_deliveries(polled[k].0, polled[k].1);
    let upto = polled.take(k + 1);
    assert(upto.drop_last() =~= polled.take(k));
    assert(upto.last() == polled[k]);
    assert(run_deliveries(upto) == before + own);
    lemma_run_opens_with(polled, k);
    lemma_run_opens_with(polled, k + 1);
    assert(run_deliveries(polled).subrange(
        before.len() as int,
        (before.len() + own.len()) as int,
    ) =~= own) by {
        assert forall|i: int| 0 <= i < own.len() implies run_deliveries(polled)[before.len() + i]
            == own[i] by {
            assert(run_deliveries(polled).subrange(0, (before + own).len() as int)[before.len()
                + i] == (before + own)[before.len() + i]);
        }
    }
}

/// The hot slots after a run of deliveries is written through, first to
/// last.
pub open spec fn hot_after(
    hot: Map<u64, SlotView>,
    capacity: usize,
    deliveries: Seq<DeliveryView>,
) -> Map<u64, SlotView>
    decreases deliveries.len(),
{
    if deliveries.len() == 0 {
        hot
    } else {
        let before = hot_after(hot, capacity, deliveries.drop_last());
        match deliveries.last() {
            DeliveryView::Slot(slot) => after_insert(before, capacity, slot),
            DeliveryView::Transaction(_) => before,
        }
    }
}

/// What the transaction tier has been given after a run of deliveries is
/// written through, first to last.
pub open spec fn recent_after(
    recent: Map<Seq<char>, TransactionView>,
    deliveries: Seq<DeliveryView>,
) -> Map<Seq<char>, TransactionView>
    decreases deliveries.len(),
{
    if deliveries.len() == 0 {
        recent
    } else {
        let before = recent_after(recent, deliveries.drop_last());
        match deliveries.last() {
            DeliveryView::Slot(_) => before,
            DeliveryView::Transaction(info) => before.insert(info.signature, info.durable()),
        }
    }
}

/// The store after it has taken every write of a run of deliveries, first
/// to last.
pub open spec fn store_after(store: StoreState, deliveries: Seq<DeliveryView>) -> StoreState
    decreases deliveries.len(),
{
    if deliveries.len() == 0 {
        store
    } else {
        let before = store_after(store, deliveries.drop_last());
        match deliveries.last() {
            DeliveryView::Slot(slot) => before.with_slot(slot.slot, slot_row(slot)),
            DeliveryView::Transaction(info) => before.with_transaction(info.durable()),
        }
    }
}

/// What a run of deliveries holds.
pub open spec fn delivery_views(deliveries: Seq<Delivery>) -> Seq<DeliveryView> {
    deliveries.map_values(|d: Delivery| d@)
}

/// The ingestion pipeline's choice of source.
pub struct SlotTracker {
    state: SourceState,
}

impl SlotTracker {
    /// The source that this tracker is on.
    pub closed spec fn source(&self) -> SourceState {
        self.state
    }

    /// A tracker for a run with or without a streaming endpoint.
    pub fn new(streaming_configured: bool) -> (tracker: SlotTracker)
        ensures
            tracker.source() == if streaming_configured {
                SourceState::StreamingAttempt
            } else {
                SourceState::Unconfigured
            },
    {
        SlotTracker {
            state: if streaming_configured {
                SourceState::StreamingAttempt
            } else {
                SourceState::Unconfigured
            },
        }
    }

    /// The source that this tracker is on.
    pub fn state(&self) -> (state: SourceState)
        ensures
            state == self.source(),
    {
        self.state
    }

    /// Takes a signal of the source and says what follows from it.
    pub fn on_signal(&mut self, signal: SourceSignal) -> (transition: Transition)
        ensures
            final(self).source() == old(self).source().after(signal),
            transition.state == old(self).source().after(signal),
            transition.command == old(self).source().command(signal),
            transition.failover == old(self).source().failover(signal),
    {
        let before = self.state;
        let failure = signal.as_failure();
        let after = match before {
            SourceState::Unconfigured => SourceState::PollingOnly,
            SourceState::StreamingAttempt => if failure.is_some() {
                SourceState::PollingOnly
            } else if signal == SourceSignal::Connected {
                SourceState::StreamingActive
            } else {
                SourceState::StreamingAttempt
            },
            SourceState::StreamingActive => if failure.is_some() {
                SourceState::PollingOnly
            } else {
                SourceState::StreamingActive
            },
            SourceState::PollingOnly => SourceState::PollingOnly,
        };
        let command = if before != SourceState::PollingOnly && after == SourceState::PollingOnly {
            SourceCommand::Poll
        } else if before == SourceState::StreamingAttempt && signal == SourceSignal::Start {
            SourceCommand::Subscribe
        } else if before == SourceState::StreamingAttempt && signal == SourceSignal::Connected {
            SourceCommand::Stream
        } else {
            SourceCommand::Continue
        };
        let failover = if before == SourceState::StreamingAttempt || before
            == SourceState::StreamingActive {
            failure
        } else {
            None
        };
        self.state = after;
        Transition { state: after, command, failover }
    }

    /// Begins the run: the first command for the driver.
    pub fn start(&mut self) -> (transition: Transition)
        ensures
            final(self).source() == old(self).source().after(SourceSignal::Start),
            transition.state == old(self).source().after(SourceSignal::Start),
            transition.command == old(self).source().command(SourceSignal::Start),
            transition.failover == old(self).source().failover(SourceSignal::Start),
    {
        self.on_signal(SourceSignal::Start)
    }

    /// The deliveries of one polled slot, in the order in which they are to
    /// be forwarded: every transaction of the slot, then the slot.
    pub fn poll_from_rpc(slot: Slot, transactions: Vec<TransactionInfo>) -> (deliveries: Vec<
        Delivery,
    >)
        ensures
            delivery_views(deliveries@) == polled_deliveries(
                slot@,
                transactions@.map_values(|t: TransactionInfo| t@),
            ),
    {
        let mut deliveries: Vec<Delivery> = Vec::new();
        let ghost all = transactions@.map_values(|t: TransactionInfo| t@);
        let ghost wanted = all.map_values(|t: TransactionInfoView| DeliveryView::Transaction(t));
        for tx in it: transactions
            invariant
                all == it.seq().map_values(|t: TransactionInfo| t@),
                wanted == all.map_values(|t: TransactionInfoView| DeliveryView::Transaction(t)),
                deliveries@.len() == it.index(),
                forall|j: int| 0 <= j < it.index() ==> (#[trigger] deliveries@[j])@ == wanted[j],
        {
            deliveries.push(Delivery::Transaction(tx));
        }
        deliveries.push(Delivery::Slot(slot));
        deliveries
    }

    /// The deliveries of a run of polled slots, in the order in which they
    /// are to be forwarded: slot by slot, each as
    /// [`SlotTracker::poll_from_rpc`] gives it.
    pub fn poll_run_from_rpc(polled: Vec<(Slot, Vec<TransactionInfo>)>) -> (deliveries: Vec<
        Delivery,
    >)
        ensures
            delivery_views(deliveries@) == run_deliveries(polled_views(polled@)),
    {
        let mut deliveries: Vec<Delivery> = Vec::new();
        let ghost all = polled_views(polled@);
        proof {
            assert(all.take(0) =~= Seq::empty());
            assert(delivery_views(deliveries@) =~= run_deliveries(all.take(0)));
        }
        for one in it: polled
            invariant
                all == polled_views(it.seq()),
                delivery_views(deliveries@) == run_deliveries(all.take(it.index())),
        {
            let ghost at = it.index();
            let ghost before = deliveries@;
            let (slot, transactions) = one;
            let mut own = Self::poll_from_rpc(slot, transactions);
            let ghost added = own@;
            deliveries.append(&mut own);
            proof {
                assert(all.take(at + 1).drop_last() =~= all.take(at));
                assert(all.take(at + 1).last() == all[at]);
                assert(delivery_views(deliveries@) =~= delivery_views(before) + delivery_views(
                    added,
                ));
            }
        }
        proof {
            assert(all.take(all.len() as int) =~= all);
        }
        deliveries
    }

    /// Writes a run of deliveries through, first to last, each as
    /// [`SlotTracker::record`] does, and reports what the store answered to
    /// each. The tiers take every event; where the store accepted every
    /// write, it holds them all.
    pub fn record_all<D: DatabaseStorage>(cache: &mut MultiCache<D>, deliveries: Vec<Delivery>) -> (done:
        Vec<Result<(), IndexerError>>)
        ensures
            done@.len() == deliveries@.len(),
            final(cache).hot_capacity() == old(cache).hot_capacity(),
            final(cache).transaction_capacity() == old(cache).transaction_capacity(),
            final(cache).hot_slots() == hot_after(
                old(cache).hot_slots(),
                old(cache).hot_capacity(),
                delivery_views(deliveries@),
            ),
            final(cache).recent_transactions() == recent_after(
                old(cache).recent_transactions(),
                delivery_views(deliveries@),
            ),
            (forall|i: int| 0 <= i < done@.len() ==> (#[trigger] done@[i]) is Ok)
                ==> final(cache).store() == store_after(
                old(cache).store(),
                delivery_views(deliveries@),
            ),
            exists|stores: Seq<D>|
                {
                    &&& stores.len() == deliveries@.len() + 1
                    &&& stores[0] == old(cache).held()
                    &&& stores[deliveries@.len() as int] == final(cache).held()
                    &&& forall|i: int|
                        0 <= i < deliveries@.len() ==> match (#[trigger] delivery_views(deliveries@)[i]) {
                            DeliveryView::Slot(slot) => exists|db: &mut D, status: &str|
                                *db == stores[i] && *final(db) == stores[i + 1] && status@
                                    == slot.status.name() && #[trigger] call_ensures(
                                    D::store_slot,
                                    (db, slot.slot, slot.timestamp, slot.parent, status),
                                    done@[i],
                                ),
                            DeliveryView::Transaction(info) => exists|db: &mut D, tx: Transaction|
                                *db == stores[i] && *final(db) == stores[i + 1] && tx@
                                    == info.durable() && #[trigger] call_ensures(
                                    D::store_transaction,
                                    (db, tx),
                                    done@[i],
                                ),
                        }
                },
    {
        let ghost views = delivery_views(deliveries@);
        let ghost mut stores: Seq<D> = seq![cache.held()];
        let ghost start = cache.held();
        let ghost hot = cache.hot_slots();
        let ghost recent = cache.recent_transactions();
        let ghost store = cache.store();
        let ghost capacity = cache.hot_capacity();
        let ghost l2_capacity = cache.transaction_capacity();
        let mut done: Vec<Result<(), IndexerError>> = Vec::new();
        proof {
            assert(views.take(0) =~= Seq::empty());
        }
        for delivery in it: deliveries
            invariant
                views == delivery_views(it.seq()),
                done@.len() == it.index(),
                cache.hot_capacity() == capacity,
                cache.transaction_capacity() == l2_capacity,
                cache.hot_slots() == hot_after(hot, capacity, views.take(it.index())),
                cache.recent_transactions() == recent_after(recent, views.take(it.index())),
                (forall|i: int| 0 <= i < done@.len() ==> (#[trigger] done@[i]) is Ok)
                    ==> cache.store() == store_after(store, views.take(it.index())),
                stores.len() == it.index() + 1,
                stores[0] == start,
                stores[it.index()] == cache.held(),
                forall|i: int|
                    0 <= i < it.index() ==> match (#[trigger] views[i]) {
                        DeliveryView::Slot(slot) => exists|db: &mut D, status: &str|
                            *db == stores[i] && *final(db) == stores[i + 1] && status@
                                == slot.status.name() && #[trigger] call_ensures(
                                D::store_slot,
                                (db, slot.slot, slot.timestamp, slot.parent, status),
                                done@[i],
                            ),
                        DeliveryView::Transaction(info) => exists|db: &mut D, tx: Transaction|
                            *db == stores[i] && *final(db) == stores[i + 1] && tx@
                                == info.durable() && #[trigger] call_ensures(
                                D::store_transaction,
                                (db, tx),
                                done@[i],
                            ),
                    },
        {
            let ghost at = it.index();
            let ghost answers = done@;
            let ghost earlier = stores;
            proof {
                assert(views.take(at + 1).drop_last() =~= views.take(at));
                assert(views.take(at + 1).last() == delivery@);
            }
            let answer = Self::record(cache, delivery);
            done.push(answer);
            proof {
                stores = stores.push(cache.held());
                assert(views[at] == delivery@);
                assert forall|i: int| 0 <= i < at + 1 implies match (#[trigger] views[i]) {
                    DeliveryView::Slot(slot) => exists|db: &mut D, status: &str|
                        *db == stores[i] && *final(db) == stores[i + 1] && status@
                            == slot.status.name() && #[trigger] call_ensures(
                            D::store_slot,
                            (db, slot.slot, slot.timestamp, slot.parent, status),
                            done@[i],
                        ),
                    DeliveryView::Transaction(info) => exists|db: &mut D, tx: Transaction|
                        *db == stores[i] && *final(db) == stores[i + 1] && tx@ == info.durable()
                            && #[trigger] call_ensures(D::store_transaction, (db, tx), done@[i]),
                } by {
                    if i < at {
                        assert(stores[i] == earlier[i]);
                        assert(stores[i + 1] == earlier[i + 1]);
                        assert(done@[i] == answers[i]);
                    } else {
                        assert(stores[i] == earlier[at]);
                        assert(done@[i] == answer);
                    }
                }
                if forall|i: int| 0 <= i < done@.len() ==> (#[trigger] done@[i]) is Ok {
                    assert(done@[at] is Ok);
                    assert forall|i: int| 0 <= i < answers.len() implies (
                    #[trigger] answers[i]) is Ok by {
                        assert(done@[i] == answers[i]);
                    }
                }
            }
        }
        proof {
            assert(views.take(views.len() as int) =~= views);
        }
        done
    }

    /// Writes a delivery through to the cache and the store, a transaction
    /// in its durable form. This is done for every event, whether or not a
    /// consumer took it. The tier takes the event whatever the store
    /// answers; a write that the store refuses is reported to the caller.
    pub fn record<D: DatabaseStorage>(cache: &mut MultiCache<D>, delivery: Delivery) -> (done:
        Result<(), IndexerError>)
        ensures
            final(cache).hot_capacity() == old(cache).hot_capacity(),
            final(cache).transaction_capacity() == old(cache).transaction_capacity(),
            match delivery@ {
                DeliveryView::Slot(slot) => {
                    let written = old(cache).store().with_slot(slot.slot, slot_row(slot));
                    &&& final(cache).hot_slots() == after_insert(
                        old(cache).hot_slots(),
                        old(cache).hot_capacity(),
                        slot,
                    )
                    &&& final(cache).recent_transactions() == old(cache).recent_transactions()
                    &&& exists|db: &mut D, status: &str|
                        *db == old(cache).held() && *final(db) == final(cache).held() && status@
                            == slot.status.name() && #[trigger] call_ensures(
                            D::store_slot,
                            (db, slot.slot, slot.timestamp, slot.parent, status),
                            done,
                        )
                    &&& done is Ok ==> final(cache).store() == written
                    &&& done is Err ==> final(cache).store() == written || final(cache).store()
                        == old(cache).store()
                },
                DeliveryView::Transaction(info) => {
                    let written = old(cache).store().with_transaction(info.durable());
                    &&& final(cache).hot_slots() == old(cache).hot_slots()
                    &&& final(cache).recent_transactions() == old(
                        cache,
                    ).recent_transactions().insert(info.signature, info.durable())
                    &&& exists|db: &mut D, tx: Transaction|
                        *db == old(cache).held() && *final(db) == final(cache).held() && tx@
                            == info.durable() && #[trigger] call_ensures(
                            D::store_transaction,
                            (db, tx),
                            done,
                        )
                    &&& done is Ok ==> final(cache).store() == written
                    &&& done is Err ==> final(cache).store() == written || final(cache).store()
                        == old(cache).store()
                },
            },
    {
        match delivery {
            Delivery::Slot(slot) => cache.store_slot(slot),
            Delivery::Transaction(info) => {
                let tx = info.into_transaction();
                cache.store_transaction(tx)
            },
        }
    }
}

} // verus!
