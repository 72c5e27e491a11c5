//! The polling source: slots from readings of the chain head, transactions
//! from fetched blocks, account states from fetched accounts.

use crate::pipeline::types::{
    clone_strings, Slot, SlotStatus, SlotView, TransactionInfo, TransactionInfoView,
};
use crate::pipeline::types::{AccountState, AccountStateView};
use crate::utils::clock::unix_now;
use crate::utils::errors::{IndexerError, IndexerErrorView};
use crate::utils::text::{contains, occurs_in};
use vstd::string::{StringExecFns, StringSliceAdditionalSpecFns};
use vstd::prelude::*;

verus! {

/// Milliseconds between two reads of the chain head.
pub const DEFAULT_POLL_INTERVAL_MS: u64 = 400;

/// What is known of a block besides its transactions.
#[derive(Debug, PartialEq, Eq)]
pub struct BlockSummary {
    pub blockhash: String,
    pub block_height: Option<u64>,
}

/// The slot that the polling source makes of a new chain head: the head as
/// its number, the head seen before as its parent, confirmed, observed at
/// `now`, with hash and height where the block could be had.
pub open spec fn polled_slot(
    last: u64,
    head: u64,
    block: Option<BlockSummary>,
    now: i64,
) -> SlotView {
    SlotView {
        slot: head,
        parent: Some(last),
        status: SlotStatus::Confirmed,
        timestamp: now,
        block_hash: match block {
            Some(b) => Some(b.blockhash@),
            None => None,
        },
        block_height: match block {
            Some(b) => b.block_height,
            None => None,
        },
    }
}

/// The head that the source remembers after a reading.
pub open spec fn seen_after(last: u64, head: u64) -> u64 {
    if head > last {
        head
    } else {
        last
    }
}

/// The numbers of the slots that a run of readings makes, first to last,
/// from a source that remembers `last`: one for each reading that is past
/// every reading before it.
pub open spec fn slots_made(last: u64, heads: Seq<u64>) -> Seq<u64>
    decreases heads.len(),
{
    if heads.len() == 0 {
        Seq::empty()
    } else if heads[0] > last {
        seq![heads[0]] + slots_made(heads[0], heads.drop_first())
    } else {
        slots_made(last, heads.drop_first())
    }
}

/// The slots that the polling source makes rise: each is past the head
/// remembered before the run and past every slot made earlier in it.
pub proof fn lemma_slots_made_rise(last: u64, heads: Seq<u64>)
    ensures
        forall|i: int|
            0 <= i < slots_made(last, heads).len() ==> #[trigger] slots_made(last, heads)[i]
                > last,
        forall|i: int, j: int|
            0 <= i < j < slots_made(last, heads).len() ==> #[trigger] slots_made(last, heads)[i]
                < #[trigger] slots_made(last, heads)[j],
    decreases heads.len(),
{
    let made = slots_made(last, heads);
    if heads.len() > 0 {
        let rest = heads.drop_first();
        if heads[0] > last {
            lemma_slots_made_rise(heads[0], rest);
            let tail = slots_made(heads[0], rest);
            assert(made == seq![heads[0]] + tail);
            assert forall|i: int| 0 <= i < made.len() implies #[trigger] made[i] > last by {
                if i > 0 {
                    assert(made[i] == tail[i - 1]);
                }
            }
            assert forall|i: int, j: int| 0 <= i < j < made.len() implies #[trigger] made[i]
                < #[trigger] made[j] by {
                assert(made[j] == tail[j - 1]);
                if i > 0 {
                    assert(made[i] == tail[i - 1]);
                }
            }
        } else {
            lemma_slots_made_rise(last, rest);
            assert(made == slots_made(last, rest));
        }
    }
}

/// Heads that rise one after the other each make their slot.
pub proof fn lemma_rising_heads_all_make_slots(last: u64, heads: Seq<u64>)
    requires
        heads.len() > 0 ==> heads[0] > last,
        forall|i: int, j: int| 0 <= i < j < heads.len() ==> heads[i] < heads[j],
    ensures
        slots_made(last, heads) == heads,
    decreases heads.len(),
{
    if heads.len() > 0 {
        let rest = heads.drop_first();
        assert forall|i: int, j: int| 0 <= i < j < rest.len() implies rest[i] < rest[j] by {
            assert(heads[i + 1] < heads[j + 1]);
        }
        if rest.len() > 0 {
            assert(heads[0] < heads[1]);
        }
        lemma_rising_heads_all_make_slots(heads[0], rest);
        assert(slots_made(last, heads) =~= heads);
    } else {
        assert(slots_made(last, heads) =~= heads);
    }
}

/// The head that the source remembers after a run of readings.
pub open spec fn seen_after_all(last: u64, heads: Seq<u64>) -> u64
    decreases heads.len(),
{
    if heads.len() == 0 {
        last
    } else {
        seen_after_all(seen_after(last, heads[0]), heads.drop_first())
    }
}

/// One more reading at the end of a run makes one more slot exactly where
/// it is past the head remembered after the run, and is remembered then.
pub proof fn lemma_reading_extends_run(last: u64, heads: Seq<u64>, head: u64)
    ensures
        slots_made(last, heads.push(head)) == if head > seen_after_all(last, heads) {
            slots_made(last, heads).push(head)
        } else {
            slots_made(last, heads)
        },
        seen_after_all(last, heads.push(head)) == seen_after(seen_after_all(last, heads), head),
    decreases heads.len(),
{
    let longer = heads.push(head);
    reveal_with_fuel(slots_made, 2);
    reveal_with_fuel(seen_after_all, 2);
    if heads.len() == 0 {
        assert(longer.drop_first() =~= Seq::<u64>::empty());
        assert(slots_made(last, longer) =~= if head > last {
            seq![head]
        } else {
            Seq::<u64>::empty()
        });
        assert(slots_made(last, heads) =~= Seq::<u64>::empty());
        assert(seen_after_all(seen_after(last, head), longer.drop_first()) == seen_after(
            last,
            head,
        ));
    } else {
        let rest = heads.drop_first();
        assert(longer.drop_first() =~= rest.push(head));
        assert(longer[0] == heads[0]);
        lemma_reading_extends_run(seen_after(last, heads[0]), rest, head);
        if heads[0] > last {
            assert((seq![heads[0]] + slots_made(heads[0], rest)).push(head) =~= seq![heads[0]]
                + slots_made(heads[0], rest).push(head));
        }
    }
}

/// The numbers of a run of slots.
pub open spec fn slot_numbers(slots: Seq<Slot>) -> Seq<u64> {
    slots.map_values(|s: Slot| s.slot)
}

/// The heads of a run of readings.
pub open spec fn reading_heads(readings: Seq<(u64, Option<BlockSummary>)>) -> Seq<u64> {
    readings.map_values(|r: (u64, Option<BlockSummary>)| r.0)
}

/// The polling source's memory: the chain head of the last slot it made.
pub struct SlotPoller {
    last: u64,
}

impl SlotPoller {
    /// The chain head of the last slot made, zero before the first.
    pub closed spec fn last_seen(&self) -> u64 {
        self.last
    }

    pub fn new() -> (poller: SlotPoller)
        ensures
            poller.last_seen() == 0,
    {
        SlotPoller { last: 0 }
    }

    /// Whether a chain head is past the last one seen, so that a slot is
    /// due for it.
    pub fn is_advance(&self, head: u64) -> (advance: bool)
        ensures
            advance == (head > self.last_seen()),
    {
        head > self.last
    }

    /// Takes a reading of the chain head at time `now`. A head past the
    /// last one seen gives a slot and is remembered; any other gives
    /// nothing and changes nothing.
    pub fn observe_at(&mut self, head: u64, block: Option<BlockSummary>, now: i64) -> (made: Option<
        Slot,
    >)
        ensures
            final(self).last_seen() == seen_after(old(self).last_seen(), head),
            head > old(self).last_seen() ==> made is Some && made->0@ == polled_slot(
                old(self).last_seen(),
                head,
                block,
                now,
            ),
            head <= old(self).last_seen() ==> made is None,
    {
        if head > self.last {
            let (block_hash, block_height) = match block {
                Some(b) => (Some(b.blockhash), b.block_height),
                None => (None, None),
            };
            let slot = Slot {
                slot: head,
                parent: Some(self.last),
                status: SlotStatus::Confirmed,
                timestamp: now,
                block_hash,
                block_height,
            };
            self.last = head;
            Some(slot)
        } else {
            None
        }
    }

    /// Takes a run of readings of the chain head, first to last, each as
    /// [`SlotPoller::observe_at`] does: the slots made are those of
    /// [`slots_made`], each with the head remembered before it as its
    /// parent, and the last of them is remembered.
    pub fn observe_run_at(&mut self, readings: Vec<(u64, Option<BlockSummary>)>, now: i64) -> (made:
        Vec<Slot>)
        ensures
            slot_numbers(made@) == slots_made(old(self).last_seen(), reading_heads(readings@)),
            final(self).last_seen() == seen_after_all(
                old(self).last_seen(),
                reading_heads(readings@),
            ),
            forall|i: int|
                0 <= i < made@.len() ==> (#[trigger] made@[i]).parent == Some(
                    if i == 0 {
                        old(self).last_seen()
                    } else {
                        made@[i - 1].slot
                    },
                ) && made@[i].status == SlotStatus::Confirmed && made@[i].timestamp == now,
    {
        let ghost start = self.last_seen();
        let ghost heads = reading_heads(readings@);
        let mut made: Vec<Slot> = Vec::new();
        proof {
            assert(heads.take(0) =~= Seq::<u64>::empty());
            assert(slot_numbers(made@) =~= slots_made(start, heads.take(0)));
        }
        for reading in it: readings
            invariant
                heads == reading_heads(it.seq()),
                slot_numbers(made@) == slots_made(start, heads.take(it.index())),
                self.last_seen() == seen_after_all(start, heads.take(it.index())),
                self.last_seen() == if made@.len() == 0 {
                    start
                } else {
                    made@[made@.len() - 1].slot
                },
                forall|i: int|
                    0 <= i < made@.len() ==> (#[trigger] made@[i]).parent == Some(
                        if i == 0 {
                            start
                        } else {
                            made@[i - 1].slot
                        },
                    ) && made@[i].status == SlotStatus::Confirmed && made@[i].timestamp == now,
        {
            let ghost at = it.index();
            let ghost before = made@;
            let (head, block) = reading;
            proof {
                assert(heads[at] == head);
                assert(heads.take(at + 1) =~= heads.take(at).push(head));
                lemma_reading_extends_run(start, heads.take(at), head);
            }
            match self.observe_at(head, block, now) {
                Some(slot) => {
                    made.push(slot);
                    assert(slot_numbers(made@) =~= slot_numbers(before).push(head));
                },
                None => {},
            }
        }
        proof {
            assert(heads.take(heads.len() as int) =~= heads);
        }
        made
    }

    /// Takes a reading of the chain head now: as [`SlotPoller::observe_at`],
    /// at the time of the call.
    pub fn subscribe_slots(&mut self, head: u64, block: Option<BlockSummary>) -> (made: Option<Slot>)
        ensures
            final(self).last_seen() == seen_after(old(self).last_seen(), head),
            head > old(self).last_seen() ==> made is Some && made->0@ == polled_slot(
                old(self).last_seen(),
                head,
                block,
                made->0.timestamp,
            ),
            head <= old(self).last_seen() ==> made is None,
    {
        let now = unix_now();
        self.observe_at(head, block, now)
    }
}

/// The first instruction of a parsed message.
#[derive(Debug, Clone, Copy, PartialEq, Eq, Structural)]
pub enum InstructionForm {
    /// Names its program by an index into the account keys.
    Compiled { program_id_index: u8 },
    /// Is decoded already and carries no index.
    Parsed,
}

/// What the conversion reads of a transaction's message.
#[derive(Debug, PartialEq, Eq)]
pub enum MessageBody {
    Parsed { account_keys: Vec<String>, first_instruction: Option<InstructionForm> },
    Raw { account_keys: Vec<String>, first_program_index: Option<u8> },
}

/// What the conversion reads of a transaction's status.
#[derive(Debug, Clone, Copy, PartialEq, Eq, Structural)]
pub struct EntryMeta {
    pub failed: bool,
    pub fee: u64,
    pub log_message_count: Option<usize>,
    pub compute_units_consumed: Option<u64>,
}

/// A transaction in JSON encoding.
#[derive(Debug, PartialEq, Eq)]
pub struct JsonEntry {
    pub signatures: Vec<String>,
    pub message: MessageBody,
}

/// One transaction of a fetched block: its status, where the node sent
/// one, and its body, where the body came in JSON encoding.
#[derive(Debug, PartialEq, Eq)]
pub struct BlockEntry {
    pub meta: Option<EntryMeta>,
    pub json: Option<JsonEntry>,
}

/// What a [`MessageBody`] holds, as plain values.
pub enum MessageBodyView {
    Parsed { account_keys: Seq<Seq<char>>, first_instruction: Option<InstructionForm> },
    Raw { account_keys: Seq<Seq<char>>, first_program_index: Option<u8> },
}

impl View for MessageBody {
    type V = MessageBodyView;

    open spec fn view(&self) -> MessageBodyView {
        match self {
            MessageBody::Parsed { account_keys, first_instruction } => MessageBodyView::Parsed {
                account_keys: account_keys.deep_view(),
                first_instruction: *first_instruction,
            },
            MessageBody::Raw { account_keys, first_program_index } => MessageBodyView::Raw {
                account_keys: account_keys.deep_view(),
                first_program_index: *first_program_index,
            },
        }
    }
}

/// What a [`JsonEntry`] holds, as plain values.
pub struct JsonEntryView {
    pub signatures: Seq<Seq<char>>,
    pub message: MessageBodyView,
}

impl View for JsonEntry {
    type V = JsonEntryView;

    open spec fn view(&self) -> JsonEntryView {
        JsonEntryView { signatures: self.signatures.deep_view(), message: self.message@ }
    }
}

/// What a [`BlockEntry`] holds, as plain values.
pub struct BlockEntryView {
    pub meta: Option<EntryMeta>,
    pub json: Option<JsonEntryView>,
}

impl View for BlockEntry {
    type V = BlockEntryView;

    open spec fn view(&self) -> BlockEntryView {
        BlockEntryView {
            meta: self.meta,
            json: match self.json {
                Some(j) => Some(j@),
                None => None,
            },
        }
    }
}

/// The text at `index`, where the list has one there.
pub open spec fn text_at(list: Seq<Seq<char>>, index: int) -> Option<Seq<char>> {
    if 0 <= index < list.len() {
        Some(list[index])
    } else {
        None
    }
}

impl MessageBodyView {
    /// The account keys of the message.
    pub open spec fn accounts(self) -> Seq<Seq<char>> {
        match self {
            MessageBodyView::Parsed { account_keys, .. } => account_keys,
            MessageBodyView::Raw { account_keys, .. } => account_keys,
        }
    }

    /// The account that the first instruction names as its program. A
    /// decoded instruction names the first account.
    pub open spec fn named_program(self) -> Option<Seq<char>> {
        match self {
            MessageBodyView::Parsed { account_keys, first_instruction } => match first_instruction {
                Some(InstructionForm::Compiled { program_id_index }) => text_at(
                    account_keys,
                    program_id_index as int,
                ),
                Some(InstructionForm::Parsed) => text_at(account_keys, 0),
                None => None,
            },
            MessageBodyView::Raw { account_keys, first_program_index } => match first_program_index {
                Some(index) => text_at(account_keys, index as int),
                None => None,
            },
        }
    }

    /// The program of the transaction: the one that the first instruction
    /// names; failing that, in a parsed message, the first account; failing
    /// that, `Unknown`.
    pub open spec fn program(self) -> Seq<char> {
        match self.named_program() {
            Some(p) => p,
            None => match self {
                MessageBodyView::Parsed { account_keys, .. } => match text_at(account_keys, 0) {
                    Some(p) => p,
                    None => "Unknown"@,
                },
                MessageBodyView::Raw { .. } => "Unknown"@,
            },
        }
    }
}

impl BlockEntryView {
    /// The transaction that an entry of the block of `slot` gives, observed
    /// at `now`. An entry without status, without a JSON body or without a
    /// signature gives none.
    pub open spec fn transaction(self, slot: u64, now: i64) -> Option<TransactionInfoView> {
        if self.meta is Some && self.json is Some && self.json->0.signatures.len() > 0 {
            let meta = self.meta->0;
            let json = self.json->0;
            Some(
                TransactionInfoView {
                    signature: json.signatures[0],
                    slot,
                    success: !meta.failed,
                    fee: meta.fee,
                    program: json.message.program(),
                    instructions: match meta.log_message_count {
                        Some(n) => n,
                        None => 0,
                    },
                    compute_units: match meta.compute_units_consumed {
                        Some(n) => n,
                        None => 0,
                    },
                    accounts: json.message.accounts(),
                    timestamp: now,
                },
            )
        } else {
            None
        }
    }
}

/// The transactions of a block, in the order of its entries; entries that
/// give none are passed over.
pub open spec fn block_transactions(
    entries: Seq<BlockEntryView>,
    slot: u64,
    now: i64,
) -> Seq<TransactionInfoView>
    decreases entries.len(),
{
    if entries.len() == 0 {
        Seq::empty()
    } else {
        let before = block_transactions(entries.drop_last(), slot, now);
        match entries.last().transaction(slot, now) {
            Some(t) => before.push(t),
            None => before,
        }
    }
}

/// What a list of entries holds.
pub open spec fn entry_views(entries: Seq<BlockEntry>) -> Seq<BlockEntryView> {
    entries.map_values(|e: BlockEntry| e@)
}

/// What a list of transactions holds.
pub open spec fn transaction_views(list: Seq<TransactionInfo>) -> Seq<TransactionInfoView> {
    list.map_values(|t: TransactionInfo| t@)
}

/// A copy of the text at `index`, where the list has one there.
fn copy_at(list: &Vec<String>, index: usize) -> (text: Option<String>)
    ensures
        match text {
            Some(t) => text_at(list.deep_view(), index as int) == Some(t@),
            None => text_at(list.deep_view(), index as int) is None,
        },
{
    if index < list.len() {
        Some(list[index].clone())
    } else {
        None
    }
}

impl MessageBody {
    /// The account keys of the message.
    pub fn account_keys(&self) -> (keys: &Vec<String>)
        ensures
            keys.deep_view() == self@.accounts(),
    {
        match self {
            MessageBody::Parsed { account_keys, .. } => account_keys,
            MessageBody::Raw { account_keys, .. } => account_keys,
        }
    }

    /// The program of the transaction.
    pub fn program(&self) -> (program: String)
        ensures
            program@ == self@.program(),
    {
        match self {
            MessageBody::Parsed { account_keys, first_instruction } => {
                let named = match first_instruction {
                    Some(InstructionForm::Compiled { program_id_index }) => copy_at(
                        account_keys,
                        *program_id_index as usize,
                    ),
                    Some(InstructionForm::Parsed) => copy_at(account_keys, 0),
                    None => None,
                };
                match named {
                    Some(p) => p,
                    None => match copy_at(account_keys, 0) {
                        Some(p) => p,
                        None => "Unknown".to_owned(),
                    },
                }
            },
            MessageBody::Raw { account_keys, first_program_index } => {
                let named = match first_program_index {
                    Some(index) => copy_at(account_keys, *index as usize),
                    None => None,
                };
                match named {
                    Some(p) => p,
                    None => "Unknown".to_owned(),
                }
            },
        }
    }
}

impl BlockEntry {
    /// The transaction that this entry of the block of `slot` gives,
    /// observed at `now`.
    pub fn to_transaction(&self, slot: u64, now: i64) -> (made: Option<TransactionInfo>)
        ensures
            match made {
                Some(t) => self@.transaction(slot, now) == Some(t@),
                None => self@.transaction(slot, now) is None,
            },
    {
        let meta = match self.meta {
            Some(m) => m,
            None => {
                return None;
            },
        };
        let json = match &self.json {
            Some(j) => j,
            None => {
                return None;
            },
        };
        if json.signatures.len() == 0 {
            return None;
        }
        Some(
            TransactionInfo {
                signature: json.signatures[0].clone(),
                slot,
                success: !meta.failed,
                fee: meta.fee,
                program: json.message.program(),
                instructions: match meta.log_message_count {
                    Some(n) => n,
                    None => 0,
                },
                compute_units: match meta.compute_units_consumed {
                    Some(n) => n,
                    None => 0,
                },
                accounts: clone_strings(json.message.account_keys()),
                timestamp: now,
            },
        )
    }
}

/// The transactions of the block of `slot`, observed at `now`. A block that
/// could not be fetched gives none.
pub fn transactions_at(slot: u64, fetched: Option<Vec<BlockEntry>>, now: i64) -> (list: Vec<
    TransactionInfo,
>)
    ensures
        transaction_views(list@) == match fetched {
            Some(entries) => block_transactions(entry_views(entries@), slot, now),
            None => Seq::empty(),
        },
{
    let mut list: Vec<TransactionInfo> = Vec::new();
    let entries = match fetched {
        Some(entries) => entries,
        None => {
            assert(transaction_views(list@) =~= Seq::empty());
            return list;
        },
    };
    let ghost views = entry_views(entries@);
    let mut i: usize = 0;
    while i < entries.len()
        invariant
            i <= entries.len(),
            views == entry_views(entries@),
            transaction_views(list@) == block_transactions(views.take(i as int), slot, now),
        decreases entries.len() - i,
    {
        let ghost before = list@;
        let made = entries[i].to_transaction(slot, now);
        proof {
            assert(views.take(i + 1).drop_last() =~= views.take(i as int));
            assert(views.take(i + 1).last() == entries@[i as int]@);
        }
        match made {
            Some(t) => {
                list.push(t);
                assert(transaction_views(list@) =~= transaction_views(before).push(t@));
            },
            None => {},
        }
        i += 1;
    }
    assert(views.take(entries@.len() as int) =~= views);
    list
}

/// The transactions of the block of `slot`, observed at the time of the
/// call: as [`transactions_at`], with one time for the whole block.
pub fn get_block_with_transactions(slot: u64, fetched: Option<Vec<BlockEntry>>) -> (list: Vec<
    TransactionInfo,
>)
    ensures
        exists|now: i64|
            transaction_views(list@) == #[trigger] transactions_or_none(fetched, slot, now),
{
    let now = unix_now();
    let list = transactions_at(slot, fetched, now);
    assert(transaction_views(list@) == transactions_or_none(fetched, slot, now));
    list
}

/// The transactions of a fetched block, none for a block that could not be
/// fetched.
pub open spec fn transactions_or_none(
    fetched: Option<Vec<BlockEntry>>,
    slot: u64,
    now: i64,
) -> Seq<TransactionInfoView> {
    match fetched {
        Some(entries) => block_transactions(entry_views(entries@), slot, now),
        None => Seq::empty(),
    }
}

/// Whether the message of a failed block fetch says that the block was
/// skipped or is not available, which is no fault of the node.
pub open spec fn says_skipped(message: Seq<u8>) -> bool {
    occurs_in("skipped".spec_bytes(), message) || occurs_in("not available".spec_bytes(), message)
}

/// Whether the message of a failed block fetch says that the block was
/// skipped or is not available.
pub fn block_skipped(message: &str) -> (skipped: bool)
    ensures
        skipped == says_skipped(message.spec_bytes()),
{
    contains(message, "skipped") || contains(message, "not available")
}

/// What the node says of an account.
#[derive(Debug, PartialEq, Eq)]
pub struct FetchedAccount {
    pub lamports: u64,
    pub owner: String,
    pub executable: bool,
    pub data: Vec<u8>,
    pub rent_epoch: u64,
}

/// The state of the account at `address` as the node gave it, at the chain
/// head that was read after it, at slot zero where the head could not be
/// read.
pub fn get_account(address: &str, account: FetchedAccount, head: Option<u64>) -> (state:
    AccountState)
    ensures
        state@ == (AccountStateView {
            address: address@,
            slot: match head {
                Some(h) => h,
                None => 0,
            },
            lamports: account.lamports,
            owner: account.owner@,
            executable: account.executable,
            data: account.data@,
            rent_epoch: account.rent_epoch,
        }),
{
    AccountState {
        address: address.to_owned(),
        slot: match head {
            Some(h) => h,
            None => 0,
        },
        lamports: account.lamports,
        owner: account.owner,
        executable: account.executable,
        data: account.data,
        rent_epoch: account.rent_epoch,
    }
}

/// The error for an address that does not read as a public key.
pub fn invalid_address(cause: &str) -> (error: IndexerError)
    ensures
        error@ == IndexerErrorView::RpcError("Invalid address: "@ + cause@),
{
    IndexerError::RpcError(String::from_str("Invalid address: ").concat(cause))
}

/// The error for a call that the node refused.
pub fn rpc_failure(cause: &str) -> (error: IndexerError)
    ensures
        error@ == IndexerErrorView::RpcError("RPC error: "@ + cause@),
{
    IndexerError::RpcError(String::from_str("RPC error: ").concat(cause))
}

/// The leader of the current slot: the first of the leaders that the node
/// named, an error where it named none.
pub fn get_slot_leader(leaders: Vec<String>) -> (leader: Result<String, IndexerError>)
    ensures
        match leader {
            Ok(name) => leaders@.len() > 0 && name@ == leaders@[0]@,
            Err(e) => leaders@.len() == 0 && e@ == IndexerErrorView::RpcError("No leader"@),
        },
{
    if leaders.len() > 0 {
        Ok(leaders[0].clone())
    } else {
        Err(IndexerError::RpcError("No leader".to_owned()))
    }
}

} // verus!
