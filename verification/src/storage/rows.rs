//! Records as rows of a relational store, and back.

use crate::pipeline::types::{
    status_of_name, AccountState, AccountStateView, Slot, SlotStatus, SlotView, Transaction,
    TransactionView,
};
use crate::utils::errors::{IndexerError, IndexerErrorView};
use vstd::prelude::*;

verus! {

/// The JSON text that a list of texts is written as.
pub uninterp spec fn json_of_list(list: Seq<Seq<char>>) -> Seq<char>;

/// The list of texts that a JSON text reads as, if it reads as one.
pub uninterp spec fn list_of_json(json: Seq<char>) -> Option<Seq<Seq<char>>>;

/// `serde_json::to_string` on a list of texts: the list as JSON text. The
/// encoder fails only where a value refuses to be written or a map has a
/// key that is no text; a list of texts has neither, so it succeeds.
#[verifier::external_body]
fn encode_list(list: &Vec<String>) -> (encoded: Result<String, String>)
    ensures
        encoded is Ok,
        encoded matches Ok(json) ==> json@ == json_of_list(list.deep_view()),
{
    match serde_json::to_string(list) {
        Ok(json) => Ok(json),
        Err(e) => Err(e.to_string()),
    }
}

/// `serde_json::from_str` for a list of texts: the list that the JSON text
/// reads as, or the message of the error where it reads as none.
#[verifier::external_body]
fn decode_list(json: &str) -> (decoded: Result<Vec<String>, String>)
    ensures
        match decoded {
            Ok(list) => list_of_json(json@) == Some(list.deep_view()),
            Err(_) => list_of_json(json@) is None,
        },
{
    match serde_json::from_str::<Vec<String>>(json) {
        Ok(list) => Ok(list),
        Err(e) => Err(e.to_string()),
    }
}

/// The number under which an unsigned value is kept in a signed column:
/// the same sixty-four bits.
pub fn to_column(value: u64) -> (column: i64)
    ensures
        column == value as i64,
{
    #[verifier::truncate]
    (value as i64)
}

/// The unsigned value that a signed column keeps: the same sixty-four bits.
pub fn from_column(column: i64) -> (value: u64)
    ensures
        value == column as u64,
{
    #[verifier::truncate]
    (column as u64)
}

/// A value that is written to a column and read back is the same value.
pub proof fn lemma_column_round_trip(value: u64)
    ensures
        (value as i64) as u64 == value,
{
    assert((value as i64) as u64 == value) by (bit_vector);
}

/// Values up to the largest signed number are kept as themselves.
pub proof fn lemma_column_keeps_small_values(value: u64)
    requires
        value <= 0x7fff_ffff_ffff_ffff,
    ensures
        (value as i64) as int == value as int,
{
    assert(value <= 0x7fff_ffff_ffff_ffff ==> (value as i64) as int == value as int)
        by (bit_vector);
}

/// The parent column of a slot row.
pub open spec fn parent_of_column(parent: Option<i64>) -> Option<u64> {
    match parent {
        Some(p) => Some(p as u64),
        None => None,
    }
}

/// The slot that a row of the slot table reads as. Block hash and block
/// height are not kept.
pub open spec fn slot_of_row(
    slot_number: i64,
    timestamp: i64,
    parent: Option<i64>,
    status: Seq<char>,
) -> SlotView {
    SlotView {
        slot: slot_number as u64,
        parent: parent_of_column(parent),
        status: status_of_name(status),
        timestamp,
        block_hash: None,
        block_height: None,
    }
}

/// The slot that a row of the slot table reads as.
pub fn slot_from_row(slot_number: i64, timestamp: i64, parent: Option<i64>, status: &str) -> (slot:
    Slot)
    ensures
        slot@ == slot_of_row(slot_number, timestamp, parent, status@),
{
    Slot {
        slot: from_column(slot_number),
        timestamp,
        parent: match parent {
            Some(p) => Some(from_column(p)),
            None => None,
        },
        status: SlotStatus::from_str(status),
        block_hash: None,
        block_height: None,
    }
}

/// The account state that a row of the account table reads as.
pub fn account_from_row(
    address: String,
    slot: i64,
    lamports: i64,
    owner: String,
    executable: bool,
    data: Vec<u8>,
    rent_epoch: i64,
) -> (account: AccountState)
    ensures
        account@ == (AccountStateView {
            address: address@,
            slot: slot as u64,
            lamports: lamports as u64,
            owner: owner@,
            executable,
            data: data@,
            rent_epoch: rent_epoch as u64,
        }),
{
    AccountState {
        address,
        slot: from_column(slot),
        lamports: from_column(lamports),
        owner,
        executable,
        data,
        rent_epoch: from_column(rent_epoch),
    }
}

/// The account list that an accounts column reads as: the list in the JSON
/// text, the empty list where the text holds none.
pub open spec fn accounts_of_column(json: Seq<char>) -> Seq<Seq<char>> {
    match list_of_json(json) {
        Some(list) => list,
        None => Seq::empty(),
    }
}

/// The account list that an accounts column reads as.
pub fn accounts_from_column(json: &str) -> (accounts: Vec<String>)
    ensures
        accounts.deep_view() == accounts_of_column(json@),
{
    match decode_list(json) {
        Ok(list) => list,
        Err(_) => {
            let empty: Vec<String> = Vec::new();
            empty
        },
    }
}

/// The transaction that a row of the transaction table reads as.
pub fn transaction_from_row(
    signature: String,
    slot: i64,
    block_time: Option<i64>,
    fee: i64,
    success: bool,
    accounts: &str,
) -> (record: Transaction)
    ensures
        record@ == (TransactionView {
            signature: signature@,
            slot: slot as u64,
            block_time,
            fee: fee as u64,
            success,
            accounts: accounts_of_column(accounts@),
        }),
{
    Transaction {
        signature,
        slot: from_column(slot),
        block_time,
        fee: from_column(fee),
        success,
        accounts: accounts_from_column(accounts),
    }
}

/// What becomes of the encoder's answer: its text as the accounts column,
/// its error as a database error with the same message.
pub fn column_from_encoded(encoded: Result<String, String>) -> (column: Result<String, IndexerError>)
    ensures
        match encoded {
            Ok(json) => column is Ok && column->Ok_0@ == json@,
            Err(message) => column is Err && column->Err_0@ == IndexerErrorView::DatabaseError(
                message@,
            ),
        },
{
    match encoded {
        Ok(json) => Ok(json),
        Err(message) => Err(IndexerError::DatabaseError(message)),
    }
}

/// The accounts column of a transaction row: the account list as JSON
/// text.
pub fn accounts_to_column(accounts: &Vec<String>) -> (column: Result<String, IndexerError>)
    ensures
        column matches Ok(json) && json@ == json_of_list(accounts.deep_view()),
{
    column_from_encoded(encode_list(accounts))
}

} // verus!
