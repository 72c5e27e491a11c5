//! The records that the indexer handles, each with its view as plain values.

use crate::utils::text::str_eq;
use vstd::prelude::*;

verus! {

/// Confirmation status of a slot.
#[non_exhaustive]
#[derive(Debug, Clone, Copy, PartialEq, Eq, Structural)]
pub enum SlotStatus {
    Processed,
    Confirmed,
    Finalized,
}

/// The status that a stored status name stands for: the two confirmed
/// names are recognised, every other text reads as `Processed`.
pub open spec fn status_of_name(name: Seq<char>) -> SlotStatus {
    if name == "Finalized"@ {
        SlotStatus::Finalized
    } else if name == "Confirmed"@ {
        SlotStatus::Confirmed
    } else {
        SlotStatus::Processed
    }
}

impl SlotStatus {
    /// The name under which a status is stored.
    pub open spec fn name(self) -> Seq<char> {
        match self {
            SlotStatus::Processed => "Processed"@,
            SlotStatus::Confirmed => "Confirmed"@,
            SlotStatus::Finalized => "Finalized"@,
        }
    }

    /// The stored name of this status, as a string slice.
    pub fn as_str(&self) -> (name: &'static str)
        ensures
            name@ == self.name(),
    {
        match self {
            SlotStatus::Processed => "Processed",
            SlotStatus::Confirmed => "Confirmed",
            SlotStatus::Finalized => "Finalized",
        }
    }

    pub fn from_str(s: &str) -> (status: SlotStatus)
        ensures
            status == status_of_name(s@),
    {
        if str_eq(s, "Finalized") {
            SlotStatus::Finalized
        } else if str_eq(s, "Confirmed") {
            SlotStatus::Confirmed
        } else {
            SlotStatus::Processed
        }
    }
}

/// Reading back the stored name of a status gives that status.
pub proof fn lemma_status_name_round_trip(status: SlotStatus)
    ensures
        status_of_name(status.name()) == status,
{
    reveal_strlit("Processed");
    reveal_strlit("Confirmed");
    reveal_strlit("Finalized");
    assert("Confirmed"@[0] == 'C');
    assert("Finalized"@[0] == 'F');
}

/// One slot of chain progress. Its identity is `slot`.
#[derive(Debug, PartialEq, Eq)]
pub struct Slot {
    pub slot: u64,
    pub parent: Option<u64>,
    pub status: SlotStatus,
    pub timestamp: i64,
    pub block_hash: Option<String>,
    pub block_height: Option<u64>,
}

/// What a [`Slot`] holds, as plain values.
pub struct SlotView {
    pub slot: u64,
    pub parent: Option<u64>,
    pub status: SlotStatus,
    pub timestamp: i64,
    pub block_hash: Option<Seq<char>>,
    pub block_height: Option<u64>,
}

impl View for Slot {
    type V = SlotView;

    open spec fn view(&self) -> SlotView {
        SlotView {
            slot: self.slot,
            parent: self.parent,
            status: self.status,
            timestamp: self.timestamp,
            block_hash: match self.block_hash {
                Some(h) => Some(h@),
                None => None,
            },
            block_height: self.block_height,
        }
    }
}

impl Clone for Slot {
    fn clone(&self) -> (copy: Slot)
        ensures
            copy@ == self@,
    {
        Slot {
            slot: self.slot,
            parent: self.parent,
            status: self.status,
            timestamp: self.timestamp,
            block_hash: match &self.block_hash {
                Some(h) => Some(h.clone()),
                None => None,
            },
            block_height: self.block_height,
        }
    }
}

/// The durable form of a transaction. Its identity is `signature`.
#[derive(Debug, PartialEq, Eq)]
pub struct Transaction {
    pub signature: String,
    pub slot: u64,
    pub block_time: Option<i64>,
    pub fee: u64,
    pub success: bool,
    pub accounts: Vec<String>,
}

/// What a [`Transaction`] holds, as plain values.
pub struct TransactionView {
    pub signature: Seq<char>,
    pub slot: u64,
    pub block_time: Option<i64>,
    pub fee: u64,
    pub success: bool,
    pub accounts: Seq<Seq<char>>,
}

impl View for Transaction {
    type V = TransactionView;

    open spec fn view(&self) -> TransactionView {
        TransactionView {
            signature: self.signature@,
            slot: self.slot,
            block_time: self.block_time,
            fee: self.fee,
            success: self.success,
            accounts: self.accounts.deep_view(),
        }
    }
}

/// A copy of a list of texts.
pub fn clone_strings(list: &Vec<String>) -> (copy: Vec<String>)
    ensures
        copy.deep_view() == list.deep_view(),
{
    let mut copy: Vec<String> = Vec::new();
    let mut i: usize = 0;
    while i < list.len()
        invariant
            i <= list.len(),
            copy.len() == i,
            forall|j: int| 0 <= j < i ==> copy@[j]@ == list@[j]@,
        decreases list.len() - i,
    {
        copy.push(list[i].clone());
        i += 1;
    }
    copy
}

impl Clone for Transaction {
    fn clone(&self) -> (copy: Transaction)
        ensures
            copy@ == self@,
    {
        Transaction {
            signature: self.signature.clone(),
            slot: self.slot,
            block_time: self.block_time,
            fee: self.fee,
            success: self.success,
            accounts: clone_strings(&self.accounts),
        }
    }
}

/// The transient, richer form of a transaction that travels through the
/// pipeline to its consumers.
#[derive(Debug, PartialEq, Eq)]
pub struct TransactionInfo {
    pub signature: String,
    pub slot: u64,
    pub success: bool,
    pub fee: u64,
    pub program: String,
    pub instructions: usize,
    pub compute_units: u64,
    pub accounts: Vec<String>,
    pub timestamp: i64,
}

/// What a [`TransactionInfo`] holds, as plain values.
pub struct TransactionInfoView {
    pub signature: Seq<char>,
    pub slot: u64,
    pub success: bool,
    pub fee: u64,
    pub program: Seq<char>,
    pub instructions: usize,
    pub compute_units: u64,
    pub accounts: Seq<Seq<char>>,
    pub timestamp: i64,
}

impl TransactionInfoView {
    /// The part of a transaction that is kept: the time of observation
    /// becomes the block time, the display fields are left behind.
    pub open spec fn durable(self) -> TransactionView {
        TransactionView {
            signature: self.signature,
            slot: self.slot,
            block_time: Some(self.timestamp),
            fee: self.fee,
            success: self.success,
            accounts: self.accounts,
        }
    }
}

impl View for TransactionInfo {
    type V = TransactionInfoView;

    open spec fn view(&self) -> TransactionInfoView {
        TransactionInfoView {
            signature: self.signature@,
            slot: self.slot,
            success: self.success,
            fee: self.fee,
            program: self.program@,
            instructions: self.instructions,
            compute_units: self.compute_units,
            accounts: self.accounts.deep_view(),
            timestamp: self.timestamp,
        }
    }
}

impl Clone for TransactionInfo {
    fn clone(&self) -> (copy: TransactionInfo)
        ensures
            copy@ == self@,
    {
        TransactionInfo {
            signature: self.signature.clone(),
            slot: self.slot,
            success: self.success,
            fee: self.fee,
            program: self.program.clone(),
            instructions: self.instructions,
            compute_units: self.compute_units,
            accounts: clone_strings(&self.accounts),
            timestamp: self.timestamp,
        }
    }
}

impl TransactionInfo {
    /// The durable record of this transaction.
    pub fn into_transaction(self) -> (record: Transaction)
        ensures
            record@ == self@.durable(),
    {
        Transaction {
            signature: self.signature,
            slot: self.slot,
            block_time: Some(self.timestamp),
            fee: self.fee,
            success: self.success,
            accounts: self.accounts,
        }
    }
}

/// The last observed state of an account. Its identity is `address`.
#[derive(Debug, PartialEq, Eq)]
pub struct AccountState {
    pub address: String,
    pub slot: u64,
    pub lamports: u64,
    pub owner: String,
    pub executable: bool,
    pub data: Vec<u8>,
    pub rent_epoch: u64,
}

/// What an [`AccountState`] holds, as plain values.
pub struct AccountStateView {
    pub address: Seq<char>,
    pub slot: u64,
    pub lamports: u64,
    pub owner: Seq<char>,
    pub executable: bool,
    pub data: Seq<u8>,
    pub rent_epoch: u64,
}

impl View for AccountState {
    type V = AccountStateView;

    open spec fn view(&self) -> AccountStateView {
        AccountStateView {
            address: self.address@,
            slot: self.slot,
            lamports: self.lamports,
            owner: self.owner@,
            executable: self.executable,
            data: self.data@,
            rent_epoch: self.rent_epoch,
        }
    }
}

impl Clone for AccountState {
    fn clone(&self) -> (copy: AccountState)
        ensures
            copy@ == self@,
    {
        AccountState {
            address: self.address.clone(),
            slot: self.slot,
            lamports: self.lamports,
            owner: self.owner.clone(),
            executable: self.executable,
            data: self.data.clone(),
            rent_epoch: self.rent_epoch,
        }
    }
}

} // verus!
