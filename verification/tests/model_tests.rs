use chain_backfill::hashed_cursor::{
    DatabaseError, HashedCursor, HashedCursorFactory, HashedStorageCursor, MockHashedCursor,
    MockHashedCursorFactory,
};
use chain_backfill::primitives::{Account, Hash256};
use chain_backfill::test_utils::{
    ChainSpec, TestBlockBuilder, INITIAL_BASE_FEE, MIN_TRANSACTION_GAS,
};
use chain_backfill::thresholds::ExecutionStageThresholds;

fn account(balance: u128, nonce: u64) -> Account {
    Account { balance, nonce }
}

#[test]
fn cursor_seek_finds_first_prefix_match() {
    let entries = vec![
        (vec![0x10u8, 0x01], account(1, 0)),
        (vec![0x20u8, 0x02], account(2, 0)),
        (vec![0x20u8, 0x03], account(3, 0)),
    ];
    let mut cursor = MockHashedCursor::new(entries, Vec::new());
    assert!(cursor.current_key.is_none());
    let hit = cursor.seek(vec![0x20u8]).unwrap().expect("a match");
    assert_eq!(hit.0, vec![0x20u8, 0x02]);
    assert_eq!(hit.1, account(2, 0));
    // the cursor is positioned on the stored key it found
    assert_eq!(cursor.current_key.as_deref(), Some(&[0x20u8, 0x02][..]));
    // the full key is an exact match of itself
    let exact = cursor.seek(vec![0x10u8, 0x01]).unwrap().expect("a match");
    assert_eq!(exact.1, account(1, 0));
    // misses leave the position and the visit log untouched
    assert!(cursor.seek(vec![0x30u8]).unwrap().is_none());
    assert_eq!(cursor.current_key.as_deref(), Some(&[0x10u8, 0x01][..]));
    assert_eq!(
        cursor.visited_keys,
        vec![vec![0x20u8, 0x02], vec![0x10u8, 0x01]]
    );
    // the mock cursor never advances past a seek
    assert!(cursor.next().unwrap().is_none());
}

#[test]
fn storage_cursor_reports_emptiness() {
    let mut empty: MockHashedCursor<Hash256> = MockHashedCursor::new(vec![], Vec::new());
    assert_eq!(empty.is_storage_empty().unwrap(), true);
    let mut nonempty =
        MockHashedCursor::new(vec![(vec![1u8], Hash256 { bytes: [9u8; 32] })], Vec::new());
    assert_eq!(nonempty.is_storage_empty().unwrap(), false);
}

#[test]
fn factory_hands_out_cursors_and_reports_unknown_tries() {
    let accounts = vec![(vec![0x01u8], account(5, 1))];
    let tries = vec![(vec![0xabu8], vec![(vec![0x01u8], Hash256 { bytes: [2u8; 32] })])];
    let factory = MockHashedCursorFactory::new(accounts, tries);

    let mut account_cursor = factory.hashed_account_cursor().unwrap();
    let hit = account_cursor.seek(vec![0x01u8]).unwrap().expect("account");
    assert_eq!(hit.1, account(5, 1));

    let mut storage_cursor = factory.hashed_storage_cursor(vec![0xabu8]).unwrap();
    assert_eq!(storage_cursor.is_storage_empty().unwrap(), false);

    let missing = factory.hashed_storage_cursor(vec![0xcdu8]);
    assert_eq!(
        missing.unwrap_err(),
        DatabaseError::StorageTrieNotFound(vec![0xcdu8])
    );
}

/// The factory accumulates each walk's visit log: a later cursor for the same
/// walk starts from the visits earlier cursors recorded.
#[test]
fn factory_accumulates_visit_logs() {
    let accounts = vec![(vec![0x01u8], account(5, 1)), (vec![0x02u8], account(6, 2))];
    let tries = vec![(vec![0xabu8], vec![(vec![0x01u8], Hash256 { bytes: [2u8; 32] })])];
    let mut factory = MockHashedCursorFactory::new(accounts, tries);

    let mut first = factory.hashed_account_cursor().unwrap();
    assert!(first.visited_keys.is_empty());
    first.seek(vec![0x02u8]).unwrap().expect("account");
    factory.absorb_account_visits(&first);
    assert_eq!(factory.visited_account_keys, vec![vec![0x02u8]]);

    let mut second = factory.hashed_account_cursor().unwrap();
    assert_eq!(second.visited_keys, vec![vec![0x02u8]]);
    second.seek(vec![0x01u8]).unwrap().expect("account");
    factory.absorb_account_visits(&second);
    assert_eq!(
        factory.visited_account_keys,
        vec![vec![0x02u8], vec![0x01u8]]
    );

    let mut storage = factory.hashed_storage_cursor(vec![0xabu8]).unwrap();
    assert!(storage.visited_keys.is_empty());
    storage.seek(vec![0x01u8]).unwrap().expect("slot");
    factory.absorb_storage_visits(&vec![0xabu8], &storage);
    let later = factory.hashed_storage_cursor(vec![0xabu8]).unwrap();
    assert_eq!(later.visited_keys, vec![vec![0x01u8]]);
    // an unknown address changes nothing
    factory.absorb_storage_visits(&vec![0xcdu8], &storage);
    let unchanged = factory.hashed_storage_cursor(vec![0xabu8]).unwrap();
    assert_eq!(unchanged.visited_keys, vec![vec![0x01u8]]);
}

#[test]
fn thresholds_close_on_any_limit() {
    let t = ExecutionStageThresholds {
        max_blocks: Some(3),
        max_changes: Some(10),
        max_cumulative_gas: Some(1000),
        max_duration_ms: Some(50),
    };
    assert!(!t.is_end_of_batch(2, 9, 999, 49));
    assert!(t.is_end_of_batch(3, 9, 999, 49));
    assert!(t.is_end_of_batch(2, 10, 999, 49));
    assert!(t.is_end_of_batch(2, 9, 1000, 49));
    assert!(t.is_end_of_batch(2, 9, 999, 50));
    let unlimited = ExecutionStageThresholds::default();
    assert!(!unlimited.is_end_of_batch(u64::MAX, u64::MAX, u64::MAX, u64::MAX));
}

#[test]
fn single_tx_cost_is_base_fee_times_transfer_gas() {
    assert_eq!(
        TestBlockBuilder::single_tx_cost(),
        INITIAL_BASE_FEE as u128 * MIN_TRANSACTION_GAS as u128
    );
    assert_eq!(TestBlockBuilder::single_tx_cost(), 21_000_000_000_000u128);
}

#[test]
fn generated_blocks_are_consistent() {
    let mut builder = TestBlockBuilder::eth().with_chain_spec(ChainSpec {
        chain_id: 7,
        activation_timestamp: 1000,
    });
    let parent = Hash256 { bytes: [0u8; 32] };
    let block = builder.generate_random_block(5, parent);
    assert_eq!(block.number, 5);
    assert_eq!(block.parent_hash, parent);
    assert_eq!(block.timestamp, 1005);
    assert!(block.transactions.len() < 5);
    assert_eq!(block.senders.len(), block.transactions.len());
    assert_eq!(
        block.gas_used,
        block.transactions.len() as u64 * MIN_TRANSACTION_GAS
    );
    for (i, tx) in block.transactions.iter().enumerate() {
        assert_eq!(tx.nonce, i as u64);
        assert_eq!(tx.chain_id, 7);
        assert_eq!(tx.gas_limit, MIN_TRANSACTION_GAS);
        assert_eq!(tx.max_fee_per_gas, INITIAL_BASE_FEE);
    }
    for sender in &block.senders {
        assert_eq!(*sender, builder.signer);
    }
}

#[test]
fn forks_are_linked_by_parent_hash() {
    let mut builder = TestBlockBuilder::eth();
    let base = builder.generate_random_block(1, Hash256 { bytes: [0u8; 32] });
    let fork = builder.create_fork(&base, 3);
    assert_eq!(fork.len(), 3);
    assert_eq!(fork[0].parent_hash, base.hash);
    for i in 0..fork.len() {
        assert_eq!(fork[i].number, base.number + 1 + i as u64);
        if i > 0 {
            assert_eq!(fork[i].parent_hash, fork[i - 1].hash);
        }
    }
}

#[test]
fn execution_outcome_charges_the_signer() {
    let mut builder = TestBlockBuilder::eth();
    let initial = builder.signer_execute_account_info.balance;
    let block = builder.generate_random_block(1, Hash256 { bytes: [0u8; 32] });
    let tx_count = block.transactions.len();
    let outcome = builder.get_execution_outcome(block.clone());
    assert_eq!(outcome.first_block, 1);
    assert_eq!(outcome.receipts.len(), 1);
    assert_eq!(outcome.receipts[0].len(), tx_count);
    for (i, receipt) in outcome.receipts[0].iter().enumerate() {
        assert!(receipt.success);
        assert_eq!(
            receipt.cumulative_gas_used,
            (i as u64 + 1) * MIN_TRANSACTION_GAS
        );
    }
    if tx_count > 0 {
        let entry = outcome.bundle.get(&builder.signer).expect("signer entry");
        assert_eq!(
            entry.balance,
            initial - TestBlockBuilder::single_tx_cost() * tx_count as u128
        );
        assert_eq!(entry.nonce, block.transactions[tx_count - 1].nonce);
    }
    assert_eq!(
        builder.signer_execute_account_info.balance,
        initial - TestBlockBuilder::single_tx_cost() * tx_count as u128
    );
}

#[test]
fn executed_block_records_are_numbered() {
    let mut builder = TestBlockBuilder::eth();
    let records = builder.get_executed_blocks(1, 4);
    assert_eq!(records.len(), 3);
    assert_eq!(records[0].recovered_block.parent_hash.bytes, [0u8; 32]);
    for (i, record) in records.iter().enumerate() {
        assert_eq!(record.recovered_block().number, 1 + i as u64);
        assert_eq!(
            record.execution_outcome.first_block,
            record.recovered_block.number
        );
        assert_eq!(record.execution_outcome.receipts, vec![vec![]]);
        if i > 0 {
            assert_eq!(
                record.recovered_block.parent_hash,
                records[i - 1].recovered_block.hash
            );
        }
    }
    let given = vec![vec![chain_backfill::primitives::Receipt {
        success: true,
        cumulative_gas_used: 7,
    }]];
    let with_receipts = builder.get_executed_block_with_receipts(
        given.clone(),
        Hash256 { bytes: [9u8; 32] },
    );
    assert_eq!(
        with_receipts.execution_outcome.first_block,
        with_receipts.recovered_block.number
    );
    // the record carries exactly the given receipts and parent
    assert_eq!(with_receipts.execution_outcome.receipts, given);
    assert_eq!(with_receipts.recovered_block.parent_hash.bytes, [9u8; 32]);
}

#[test]
fn builder_signer_matches_its_key() {
    let key = [7u8; 32];
    let builder = TestBlockBuilder::eth().with_signer_pk(key);
    let signing_key = k256::ecdsa::SigningKey::from_slice(&key).unwrap();
    let point = signing_key.verifying_key().to_sec1_point(false);
    let expected =
        alloy_primitives::Address::from_raw_public_key(&point.as_bytes()[1..]).into_array();
    assert_eq!(builder.signer.bytes, expected);
}
