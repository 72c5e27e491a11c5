use solana_indexer::data_sources::solana_rpc::{
    block_skipped, get_account, get_block_with_transactions, get_slot_leader, invalid_address,
    rpc_failure, transactions_at, BlockEntry, BlockSummary, EntryMeta, FetchedAccount,
    InstructionForm, JsonEntry, MessageBody, SlotPoller,
};
use solana_indexer::data_sources::yellowstone_grpc::{
    delivery_at, parse_slot, parse_tx, slot_at, subscribe_with_transactions, transaction_at,
    SlotUpdate, StreamUpdate, TransactionUpdate, UpdateBody, UpdateMessage, UpdateMeta,
};
use solana_indexer::pipeline::slot_tracker::Delivery;
use solana_indexer::pipeline::types::{AccountState, Slot, SlotStatus, TransactionInfo};
use solana_indexer::utils::errors::IndexerError;

fn keys(names: &[&str]) -> Vec<String> {
    names.iter().map(|n| n.to_string()).collect()
}

fn meta() -> EntryMeta {
    EntryMeta { failed: false, fee: 5000, log_message_count: Some(4), compute_units_consumed: Some(900) }
}

fn entry(message: MessageBody) -> BlockEntry {
    BlockEntry {
        meta: Some(meta()),
        json: Some(JsonEntry { signatures: keys(&["sig1", "sig2"]), message }),
    }
}

fn program_of(message: MessageBody) -> String {
    let list = transactions_at(1, Some(vec![entry(message)]), 0);
    assert_eq!(list.len(), 1);
    list[0].program.clone()
}

#[test]
fn first_reading_of_the_head_makes_a_slot_with_parent_zero() {
    let mut poller = SlotPoller::new();
    assert!(poller.is_advance(100));
    let block = BlockSummary { blockhash: "hash100".to_string(), block_height: Some(90) };
    assert_eq!(
        poller.observe_at(100, Some(block), 1_700_000_000),
        Some(Slot {
            slot: 100,
            parent: Some(0),
            status: SlotStatus::Confirmed,
            timestamp: 1_700_000_000,
            block_hash: Some("hash100".to_string()),
            block_height: Some(90),
        })
    );
    assert!(!poller.is_advance(100));
}

#[test]
fn head_that_jumps_makes_one_slot_for_the_new_head() {
    let mut poller = SlotPoller::new();
    poller.observe_at(100, None, 1);
    assert_eq!(
        poller.observe_at(103, None, 2),
        Some(Slot {
            slot: 103,
            parent: Some(100),
            status: SlotStatus::Confirmed,
            timestamp: 2,
            block_hash: None,
            block_height: None,
        })
    );
    assert_eq!(poller.observe_at(103, None, 3), None);
    assert_eq!(poller.observe_at(102, None, 4), None);
    assert!(poller.is_advance(104));
}

#[test]
fn consecutive_heads_make_consecutive_slots() {
    let mut poller = SlotPoller::new();
    poller.observe_at(100, None, 0);
    let mut made = Vec::new();
    for head in [101u64, 102, 103] {
        let slot = poller.observe_at(head, None, 0).unwrap();
        made.push((slot.slot, slot.parent));
    }
    assert_eq!(made, vec![(101, Some(100)), (102, Some(101)), (103, Some(102))]);
}

#[test]
fn run_of_readings_makes_a_slot_for_each_new_head() {
    let mut poller = SlotPoller::new();
    let block = |hash: &str| Some(BlockSummary { blockhash: hash.to_string(), block_height: None });
    let readings =
        vec![(100, block("a")), (103, None), (103, block("b")), (102, None), (104, block("c"))];
    let made = poller.observe_run_at(readings, 9);
    let shape: Vec<(u64, Option<u64>, Option<String>, i64)> =
        made.into_iter().map(|s| (s.slot, s.parent, s.block_hash, s.timestamp)).collect();
    assert_eq!(
        shape,
        vec![
            (100, Some(0), Some("a".to_string()), 9),
            (103, Some(100), None, 9),
            (104, Some(103), Some("c".to_string()), 9),
        ]
    );
    assert!(!poller.is_advance(104));
    assert!(poller.is_advance(105));
    assert!(poller.observe_run_at(vec![], 9).is_empty());
    assert!(poller.observe_run_at(vec![(104, None), (1, None)], 9).is_empty());
    let next: Vec<u64> = poller
        .observe_run_at(vec![(105, None), (106, None), (107, None)], 9)
        .iter()
        .map(|s| s.slot)
        .collect();
    assert_eq!(next, vec![105, 106, 107]);
}

#[test]
fn head_zero_is_never_an_advance() {
    let mut poller = SlotPoller::new();
    assert!(!poller.is_advance(0));
    assert_eq!(poller.observe_at(0, None, 5), None);
    assert_eq!(poller.subscribe_slots(0, None), None);
}

#[test]
fn reading_now_makes_the_same_slot_but_for_the_time() {
    let mut poller = SlotPoller::new();
    let made = poller.subscribe_slots(7, None).unwrap();
    assert_eq!((made.slot, made.parent, made.status), (7, Some(0), SlotStatus::Confirmed));
    assert_eq!((made.block_hash, made.block_height), (None, None));
    assert!(made.timestamp > 1_600_000_000);
}

#[test]
fn block_entry_becomes_a_transaction() {
    let message = MessageBody::Raw {
        account_keys: keys(&["payer", "dest", "program"]),
        first_program_index: Some(2),
    };
    assert_eq!(
        transactions_at(77, Some(vec![entry(message)]), 1_700_000_001),
        vec![TransactionInfo {
            signature: "sig1".to_string(),
            slot: 77,
            success: true,
            fee: 5000,
            program: "program".to_string(),
            instructions: 4,
            compute_units: 900,
            accounts: keys(&["payer", "dest", "program"]),
            timestamp: 1_700_000_001,
        }]
    );
}

#[test]
fn entries_without_status_body_or_signature_are_passed_over() {
    let body = || MessageBody::Raw { account_keys: keys(&["a"]), first_program_index: Some(0) };
    let no_meta = BlockEntry {
        meta: None,
        json: Some(JsonEntry { signatures: keys(&["s0"]), message: body() }),
    };
    let not_json = BlockEntry { meta: Some(meta()), json: None };
    let no_signature = BlockEntry {
        meta: Some(meta()),
        json: Some(JsonEntry { signatures: vec![], message: body() }),
    };
    let mut good1 = entry(body());
    good1.json.as_mut().unwrap().signatures = keys(&["first"]);
    let mut good2 = entry(body());
    good2.json.as_mut().unwrap().signatures = keys(&["second"]);
    let list = transactions_at(5, Some(vec![no_meta, good1, not_json, no_signature, good2]), 9);
    let signatures: Vec<&str> = list.iter().map(|t| t.signature.as_str()).collect();
    assert_eq!(signatures, vec!["first", "second"]);
}

#[test]
fn block_that_could_not_be_fetched_gives_no_transactions() {
    assert!(transactions_at(5, None, 9).is_empty());
    assert!(transactions_at(5, Some(vec![]), 9).is_empty());
    assert!(get_block_with_transactions(5, None).is_empty());
}

#[test]
fn failed_transaction_and_missing_counts() {
    let mut e = entry(MessageBody::Raw { account_keys: vec![], first_program_index: None });
    e.meta = Some(EntryMeta {
        failed: true,
        fee: 1,
        log_message_count: None,
        compute_units_consumed: None,
    });
    let list = get_block_with_transactions(3, Some(vec![e]));
    assert_eq!(list.len(), 1);
    assert!(!list[0].success);
    assert_eq!((list[0].fee, list[0].instructions, list[0].compute_units), (1, 0, 0));
    assert_eq!(list[0].program, "Unknown");
    assert!(list[0].accounts.is_empty());
    assert!(list[0].timestamp > 1_600_000_000);
}

#[test]
fn program_of_a_parsed_message() {
    let accounts = || keys(&["first", "second", "third"]);
    let parsed = |first_instruction| MessageBody::Parsed { account_keys: accounts(), first_instruction };
    assert_eq!(
        program_of(parsed(Some(InstructionForm::Compiled { program_id_index: 2 }))),
        "third"
    );
    assert_eq!(program_of(parsed(Some(InstructionForm::Parsed))), "first");
    assert_eq!(program_of(parsed(None)), "first");
    assert_eq!(
        program_of(parsed(Some(InstructionForm::Compiled { program_id_index: 3 }))),
        "first"
    );
    assert_eq!(
        program_of(MessageBody::Parsed {
            account_keys: vec![],
            first_instruction: Some(InstructionForm::Parsed)
        }),
        "Unknown"
    );
}

#[test]
fn program_of_a_raw_message() {
    let raw = |first_program_index| MessageBody::Raw {
        account_keys: keys(&["first", "second"]),
        first_program_index,
    };
    assert_eq!(program_of(raw(Some(1))), "second");
    assert_eq!(program_of(raw(Some(0))), "first");
    assert_eq!(program_of(raw(Some(2))), "Unknown");
    assert_eq!(program_of(raw(Some(255))), "Unknown");
    assert_eq!(program_of(raw(None)), "Unknown");
}

#[test]
fn skipped_and_unavailable_blocks_are_recognised() {
    assert!(block_skipped("Slot 5 was skipped, or missing due to ledger jump"));
    assert!(block_skipped("Block not available for slot 5"));
    assert!(!block_skipped("connection refused"));
    assert!(!block_skipped("Skipped"));
    assert!(!block_skipped(""));
}

#[test]
fn account_state_takes_the_head_or_zero() {
    let fetched = || FetchedAccount {
        lamports: 42,
        owner: "11111111111111111111111111111111".to_string(),
        executable: false,
        data: vec![9, 8],
        rent_epoch: 361,
    };
    let expected = |slot| AccountState {
        address: "addr".to_string(),
        slot,
        lamports: 42,
        owner: "11111111111111111111111111111111".to_string(),
        executable: false,
        data: vec![9, 8],
        rent_epoch: 361,
    };
    assert_eq!(get_account("addr", fetched(), Some(250)), expected(250));
    assert_eq!(get_account("addr", fetched(), None), expected(0));
}

#[test]
fn rpc_errors_carry_their_cause() {
    assert_eq!(
        invalid_address("Invalid Base58 string"),
        IndexerError::RpcError("Invalid address: Invalid Base58 string".to_string())
    );
    assert_eq!(rpc_failure("timeout"), IndexerError::RpcError("RPC error: timeout".to_string()));
}

#[test]
fn leader_is_the_first_that_the_node_names() {
    assert_eq!(get_slot_leader(keys(&["one", "two"])), Ok("one".to_string()));
    assert_eq!(get_slot_leader(vec![]), Err(IndexerError::RpcError("No leader".to_string())));
}

#[test]
fn commitment_numbers_read_as_statuses() {
    let status = |n| slot_at(&SlotUpdate { slot: 1, parent: None, status: n }, 0).status;
    assert_eq!(status(0), SlotStatus::Processed);
    assert_eq!(status(1), SlotStatus::Confirmed);
    assert_eq!(status(2), SlotStatus::Finalized);
    assert_eq!(status(6), SlotStatus::Finalized);
    assert_eq!(status(-1), SlotStatus::Finalized);
}

#[test]
fn slot_update_becomes_a_slot_without_block_details() {
    let update = SlotUpdate { slot: 500, parent: Some(499), status: 1 };
    assert_eq!(
        slot_at(&update, 1_700_000_002),
        Slot {
            slot: 500,
            parent: Some(499),
            status: SlotStatus::Confirmed,
            timestamp: 1_700_000_002,
            block_hash: None,
            block_height: None,
        }
    );
    let now = parse_slot(&update);
    assert_eq!((now.slot, now.parent, now.status), (500, Some(499), SlotStatus::Confirmed));
    assert!(now.timestamp > 1_600_000_000);
}

fn update(meta: Option<UpdateMeta>, first_program_index: Option<u32>) -> TransactionUpdate {
    TransactionUpdate {
        slot: 321,
        transaction: Some(UpdateBody {
            signature: vec![0x04, 0x30, 0x5e, 0x2b, 0x24, 0x73, 0xf0, 0x58],
            meta,
            message: Some(UpdateMessage {
                account_keys: vec![vec![0u8; 32], vec![0x04, 0x30, 0x5e, 0x2b, 0x24, 0x73, 0xf0, 0x58]],
                first_program_index,
            }),
        }),
    }
}

#[test]
fn transaction_update_is_encoded_in_base58() {
    let meta = UpdateMeta {
        failed: false,
        fee: 5000,
        log_message_count: 6,
        compute_units_consumed: Some(1400),
    };
    assert_eq!(
        transaction_at(&update(Some(meta), Some(1)), 1_700_000_003),
        Some(TransactionInfo {
            signature: "he11owor1d".to_string(),
            slot: 321,
            success: true,
            fee: 5000,
            program: "he11owor1d".to_string(),
            instructions: 6,
            compute_units: 1400,
            accounts: vec!["11111111111111111111111111111111".to_string(), "he11owor1d".to_string()],
            timestamp: 1_700_000_003,
        })
    );
}

#[test]
fn transaction_update_without_outcome_reads_as_failed() {
    let made = transaction_at(&update(None, None), 0).unwrap();
    assert!(!made.success);
    assert_eq!((made.fee, made.instructions, made.compute_units), (0, 0, 0));
    assert_eq!(made.program, "Unknown");
    let out_of_range = transaction_at(&update(None, Some(2)), 0).unwrap();
    assert_eq!(out_of_range.program, "Unknown");
    let first = transaction_at(&update(None, Some(0)), 0).unwrap();
    assert_eq!(first.program, "11111111111111111111111111111111");
}

#[test]
fn transaction_update_without_body_or_message_gives_nothing() {
    assert_eq!(parse_tx(&TransactionUpdate { slot: 1, transaction: None }), None);
    let no_message = TransactionUpdate {
        slot: 1,
        transaction: Some(UpdateBody { signature: vec![1], meta: None, message: None }),
    };
    assert_eq!(parse_tx(&no_message), None);
    assert_eq!(transaction_at(&no_message, 5), None);
    let parsed = parse_tx(&update(None, None)).unwrap();
    assert_eq!(parsed.signature, "he11owor1d");
    assert!(parsed.timestamp > 1_600_000_000);
}

#[test]
fn stream_messages_are_routed_by_kind() {
    let slot = StreamUpdate::Slot(SlotUpdate { slot: 9, parent: Some(8), status: 2 });
    assert_eq!(
        delivery_at(&slot, 4),
        Some(Delivery::Slot(Slot {
            slot: 9,
            parent: Some(8),
            status: SlotStatus::Finalized,
            timestamp: 4,
            block_hash: None,
            block_height: None,
        }))
    );
    let tx = StreamUpdate::Transaction(update(None, None));
    match delivery_at(&tx, 4) {
        Some(Delivery::Transaction(info)) => assert_eq!(info.signature, "he11owor1d"),
        other => panic!("unexpected delivery: {:?}", other),
    }
    let empty = StreamUpdate::Transaction(TransactionUpdate { slot: 1, transaction: None });
    assert_eq!(delivery_at(&empty, 4), None);
    assert_eq!(delivery_at(&StreamUpdate::Other, 4), None);
    assert_eq!(subscribe_with_transactions(&StreamUpdate::Other), None);
    assert!(matches!(subscribe_with_transactions(&slot), Some(Delivery::Slot(_))));
}
