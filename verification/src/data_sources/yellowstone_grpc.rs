//! The streaming source: slots and transactions from the messages of the
//! stream.

use crate::data_sources::solana_rpc::text_at;
use crate::pipeline::slot_tracker::{Delivery, DeliveryView};
use crate::pipeline::types::{Slot, SlotStatus, SlotView, TransactionInfo, TransactionInfoView};
use crate::utils::clock::unix_now;
use vstd::prelude::*;

verus! {

/// The Base58 text of a run of bytes, in the Bitcoin alphabet.
pub uninterp spec fn base58_text(bytes: Seq<u8>) -> Seq<char>;

/// `bs58::encode` with `into_string`: the Base58 text of the bytes.
#[verifier::external_body]
fn base58(bytes: &Vec<u8>) -> (text: String)
    ensures
        text@ == base58_text(bytes@),
{
    bs58::encode(bytes).into_string()
}

/// What the stream says of a slot.
#[derive(Debug, Clone, Copy, PartialEq, Eq, Structural)]
pub struct SlotUpdate {
    pub slot: u64,
    pub parent: Option<u64>,
    pub status: i32,
}

/// What the stream says of a transaction's outcome.
#[derive(Debug, Clone, Copy, PartialEq, Eq, Structural)]
pub struct UpdateMeta {
    pub failed: bool,
    pub fee: u64,
    pub log_message_count: usize,
    pub compute_units_consumed: Option<u64>,
}

/// What the conversion reads of a streamed transaction's message.
#[derive(Debug, PartialEq, Eq)]
pub struct UpdateMessage {
    pub account_keys: Vec<Vec<u8>>,
    pub first_program_index: Option<u32>,
}

/// The body of a streamed transaction.
#[derive(Debug, PartialEq, Eq)]
pub struct UpdateBody {
    pub signature: Vec<u8>,
    pub meta: Option<UpdateMeta>,
    pub message: Option<UpdateMessage>,
}

/// What the stream says of a transaction.
#[derive(Debug, PartialEq, Eq)]
pub struct TransactionUpdate {
    pub slot: u64,
    pub transaction: Option<UpdateBody>,
}

/// The status that a commitment number of the stream stands for.
pub open spec fn status_of_commitment(status: i32) -> SlotStatus {
    if status == 0 {
        SlotStatus::Processed
    } else if status == 1 {
        SlotStatus::Confirmed
    } else {
        SlotStatus::Finalized
    }
}

/// The slot that a slot update reads as, observed at `now`. The stream
/// carries neither block hash nor block height.
pub open spec fn streamed_slot(update: SlotUpdate, now: i64) -> SlotView {
    SlotView {
        slot: update.slot,
        parent: update.parent,
        status: status_of_commitment(update.status),
        timestamp: now,
        block_hash: None,
        block_height: None,
    }
}

/// The Base58 texts of a list of keys.
pub open spec fn key_texts(keys: Seq<Vec<u8>>) -> Seq<Seq<char>> {
    keys.map_values(|k: Vec<u8>| base58_text(k@))
}

/// The program of a streamed message: the account that its first
/// instruction names, `Unknown` where there is none.
pub open spec fn streamed_program(message: UpdateMessage) -> Seq<char> {
    match message.first_program_index {
        Some(index) => match text_at(key_texts(message.account_keys@), index as int) {
            Some(p) => p,
            None => "Unknown"@,
        },
        None => "Unknown"@,
    }
}

/// The transaction that a transaction update reads as, observed at `now`.
/// An update without body or without message gives none; one without
/// outcome reads as failed, at no fee.
pub open spec fn streamed_transaction(update: TransactionUpdate, now: i64) -> Option<
    TransactionInfoView,
> {
    if update.transaction is Some && update.transaction->0.message is Some {
        let body = update.transaction->0;
        let message = body.message->0;
        Some(
            TransactionInfoView {
                signature: base58_text(body.signature@),
                slot: update.slot,
                success: match body.meta {
                    Some(m) => !m.failed,
                    None => false,
                },
                fee: match body.meta {
                    Some(m) => m.fee,
                    None => 0,
                },
                program: streamed_program(message),
                instructions: match body.meta {
                    Some(m) => m.log_message_count,
                    None => 0,
                },
                compute_units: match body.meta {
                    Some(m) => match m.compute_units_consumed {
                        Some(n) => n,
                        None => 0,
                    },
                    None => 0,
                },
                accounts: key_texts(message.account_keys@),
                timestamp: now,
            },
        )
    } else {
        None
    }
}

/// The slot that a slot update reads as, observed at `now`.
pub fn slot_at(update: &SlotUpdate, now: i64) -> (slot: Slot)
    ensures
        slot@ == streamed_slot(*update, now),
{
    Slot {
        slot: update.slot,
        parent: update.parent,
        status: if update.status == 0 {
            SlotStatus::Processed
        } else if update.status == 1 {
            SlotStatus::Confirmed
        } else {
            SlotStatus::Finalized
        },
        timestamp: now,
        block_hash: None,
        block_height: None,
    }
}

/// The slot that a slot update reads as, observed at the time of the call.
pub fn parse_slot(update: &SlotUpdate) -> (slot: Slot)
    ensures
        slot@ == streamed_slot(*update, slot.timestamp),
{
    slot_at(update, unix_now())
}

/// The Base58 texts of the account keys.
fn encode_keys(keys: &Vec<Vec<u8>>) -> (texts: Vec<String>)
    ensures
        texts.deep_view() == key_texts(keys@),
{
    let mut texts: Vec<String> = Vec::new();
    let mut i: usize = 0;
    while i < keys.len()
        invariant
            i <= keys.len(),
            texts@.len() == i,
            forall|j: int| 0 <= j < i ==> (#[trigger] texts@[j])@ == base58_text(keys@[j]@),
        decreases keys.len() - i,
    {
        texts.push(base58(&keys[i]));
        i += 1;
    }
    texts
}

/// The transaction that a transaction update reads as, observed at `now`.
pub fn transaction_at(update: &TransactionUpdate, now: i64) -> (made: Option<TransactionInfo>)
    ensures
        match made {
            Some(t) => streamed_transaction(*update, now) == Some(t@),
            None => streamed_transaction(*update, now) is None,
        },
{
    let body = match &update.transaction {
        Some(b) => b,
        None => {
            return None;
        },
    };
    let message = match &body.message {
        Some(m) => m,
        None => {
            return None;
        },
    };
    let accounts = encode_keys(&message.account_keys);
    let named = match message.first_program_index {
        Some(index) => {
            let at = index as usize;
            if at < accounts.len() {
                Some(accounts[at].clone())
            } else {
                None
            }
        },
        None => None,
    };
    let program = match named {
        Some(p) => p,
        None => "Unknown".to_owned(),
    };
    let (success, fee, instructions, compute_units) = match body.meta {
        Some(m) => (
            !m.failed,
            m.fee,
            m.log_message_count,
            match m.compute_units_consumed {
                Some(n) => n,
                None => 0,
            },
        ),
        None => (false, 0, 0, 0),
    };
    Some(
        TransactionInfo {
            signature: base58(&body.signature),
            slot: update.slot,
            success,
            fee,
            program,
            instructions,
            compute_units,
            accounts,
            timestamp: now,
        },
    )
}

/// The transaction that a transaction update reads as, observed at the
/// time of the call.
pub fn parse_tx(update: &TransactionUpdate) -> (made: Option<TransactionInfo>)
    ensures
        match made {
            Some(t) => streamed_transaction(*update, t.timestamp) == Some(t@),
            None => forall|now: i64| streamed_transaction(*update, now) is None,
        },
{
    let now = unix_now();
    transaction_at(update, now)
}

/// One message of the stream.
#[derive(Debug, PartialEq, Eq)]
pub enum StreamUpdate {
    Slot(SlotUpdate),
    Transaction(TransactionUpdate),
    /// Anything else that the stream carries.
    Other,
}

/// What a message of the stream hands on, observed at `now`: a slot update
/// its slot, a transaction update its transaction where it reads as one,
/// anything else nothing.
pub open spec fn streamed_delivery(update: StreamUpdate, now: i64) -> Option<DeliveryView> {
    match update {
        StreamUpdate::Slot(s) => Some(DeliveryView::Slot(streamed_slot(s, now))),
        StreamUpdate::Transaction(t) => match streamed_transaction(t, now) {
            Some(info) => Some(DeliveryView::Transaction(info)),
            None => None,
        },
        StreamUpdate::Other => None,
    }
}

/// What a message of the stream hands on, observed at `now`.
pub fn delivery_at(update: &StreamUpdate, now: i64) -> (made: Option<Delivery>)
    ensures
        match made {
            Some(d) => streamed_delivery(*update, now) == Some(d@),
            None => streamed_delivery(*update, now) is None,
        },
{
    match update {
        StreamUpdate::Slot(s) => Some(Delivery::Slot(slot_at(s, now))),
        StreamUpdate::Transaction(t) => match transaction_at(t, now) {
            Some(info) => Some(Delivery::Transaction(info)),
            None => None,
        },
        StreamUpdate::Other => None,
    }
}

/// What a message of the stream hands on, observed at the time of the
/// call. Whether it hands anything on does not depend on the time.
pub fn subscribe_with_transactions(update: &StreamUpdate) -> (made: Option<Delivery>)
    ensures
        exists|now: i64|
            match made {
                Some(d) => #[trigger] streamed_delivery(*update, now) == Some(d@),
                None => streamed_delivery(*update, now) is None,
            },
        made is Some <==> streamed_delivery(*update, 0) is Some,
{
    let now = unix_now();
    let made = delivery_at(update, now);
    assert(match made {
        Some(d) => streamed_delivery(*update, now) == Some(d@),
        None => streamed_delivery(*update, now) is None,
    });
    made
}

} // verus!
