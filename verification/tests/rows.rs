use solana_indexer::pipeline::types::{AccountState, Slot, SlotStatus, Transaction};
use solana_indexer::storage::rows::{
    account_from_row, accounts_from_column, accounts_to_column, column_from_encoded, from_column,
    slot_from_row, to_column, transaction_from_row,
};
use solana_indexer::utils::errors::IndexerError;

#[test]
fn columns_keep_the_bits() {
    assert_eq!(to_column(0), 0);
    assert_eq!(to_column(250_000_000), 250_000_000);
    assert_eq!(to_column(i64::MAX as u64), i64::MAX);
    assert_eq!(to_column(1u64 << 63), i64::MIN);
    assert_eq!(to_column(u64::MAX), -1);
    assert_eq!(from_column(-1), u64::MAX);
    assert_eq!(from_column(i64::MIN), 1u64 << 63);
    for value in [0u64, 1, 12345, u64::MAX / 2, u64::MAX / 2 + 1, u64::MAX - 1, u64::MAX] {
        assert_eq!(from_column(to_column(value)), value);
    }
}

#[test]
fn slot_row_reads_as_a_slot() {
    assert_eq!(
        slot_from_row(42, 1_700_000_000, Some(41), "Finalized"),
        Slot {
            slot: 42,
            parent: Some(41),
            status: SlotStatus::Finalized,
            timestamp: 1_700_000_000,
            block_hash: None,
            block_height: None,
        }
    );
    let odd = slot_from_row(-1, 0, None, "whatever");
    assert_eq!((odd.slot, odd.parent, odd.status), (u64::MAX, None, SlotStatus::Processed));
}

#[test]
fn account_row_reads_as_an_account() {
    assert_eq!(
        account_from_row("addr".to_string(), 7, -1, "owner".to_string(), true, vec![1, 2], 300),
        AccountState {
            address: "addr".to_string(),
            slot: 7,
            lamports: u64::MAX,
            owner: "owner".to_string(),
            executable: true,
            data: vec![1, 2],
            rent_epoch: 300,
        }
    );
}

#[test]
fn accounts_column_is_a_json_list() {
    let list = vec!["a".to_string(), "b\"c".to_string()];
    assert_eq!(accounts_to_column(&list), Ok("[\"a\",\"b\\\"c\"]".to_string()));
    assert_eq!(accounts_to_column(&vec![]), Ok("[]".to_string()));
    assert_eq!(accounts_from_column("[\"a\",\"b\\\"c\"]"), list);
    assert_eq!(accounts_from_column(" [ \"x\" ] "), vec!["x".to_string()]);
}

#[test]
fn unreadable_accounts_column_reads_as_empty() {
    for json in ["", "not json", "{\"a\":1}", "[1,2]", "[\"a\"", "null"] {
        assert!(accounts_from_column(json).is_empty());
    }
}

#[test]
fn transaction_row_reads_as_a_transaction() {
    assert_eq!(
        transaction_from_row("sig".to_string(), 9, Some(5), 5000, false, "[\"k1\",\"k2\"]"),
        Transaction {
            signature: "sig".to_string(),
            slot: 9,
            block_time: Some(5),
            fee: 5000,
            success: false,
            accounts: vec!["k1".to_string(), "k2".to_string()],
        }
    );
    let broken = transaction_from_row("sig".to_string(), 9, None, 0, true, "oops");
    assert!(broken.accounts.is_empty());
}

#[test]
fn encoder_failure_becomes_a_database_error() {
    assert_eq!(column_from_encoded(Ok("[]".to_string())), Ok("[]".to_string()));
    assert_eq!(
        column_from_encoded(Err("key must be a string".to_string())),
        Err(IndexerError::DatabaseError("key must be a string".to_string()))
    );
}
