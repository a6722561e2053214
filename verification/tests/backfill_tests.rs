use chain_backfill::backfill::{BackfillJobFactory, BlockRange};
use chain_backfill::chain::{BlockExecutionOutput, ExecutionOutcome, StateView};
use chain_backfill::executor::{BackfillError, ExecutorFactory};
use chain_backfill::primitives::{Account, Address, Hash256, Receipt, RecoveredBlock, Signature, SignedTx};
use chain_backfill::provider::{MemoryProvider, Provider};
use chain_backfill::thresholds::ExecutionStageThresholds;

fn signer() -> Address {
    Address { bytes: [0xaa; 20] }
}

fn tx(nonce: u64, gas_limit: u64, max_fee_per_gas: u64) -> SignedTx {
    SignedTx {
        tx_type: 2,
        chain_id: 1,
        nonce,
        gas_limit,
        max_fee_per_gas,
        signing_payload: vec![nonce as u8],
        encoded: vec![nonce as u8, 1],
        hash: Hash256 { bytes: [nonce as u8; 32] },
        signature: Signature {
            r: Hash256 { bytes: [0; 32] },
            s: Hash256 { bytes: [0; 32] },
            odd_y_parity: false,
        },
    }
}

fn block_with_txs(number: u64, txs: Vec<SignedTx>) -> RecoveredBlock {
    let senders = vec![signer(); txs.len()];
    let gas_used: u64 = txs.iter().map(|t| t.gas_limit).sum();
    RecoveredBlock {
        number,
        hash: Hash256 { bytes: [number as u8; 32] },
        parent_hash: Hash256 { bytes: [number.wrapping_sub(1) as u8; 32] },
        timestamp: number,
        gas_used,
        transactions: txs,
        senders,
    }
}

fn empty_block(number: u64) -> RecoveredBlock {
    block_with_txs(number, vec![])
}

fn genesis_state(balance: u128) -> StateView {
    let mut state = StateView::new();
    state.set(signer(), Account { balance, nonce: 0 });
    state
}

/// A provider holding blocks 1..=count with one transaction each, plus the
/// historical state before and after every block.
fn single_tx_chain(count: u64, balance: u128, gas_limit: u64, fee: u64) -> MemoryProvider {
    let mut provider = MemoryProvider::new();
    let cost = gas_limit as u128 * fee as u128;
    let mut bal = balance;
    for n in 1..=count {
        let mut state = StateView::new();
        state.set(signer(), Account { balance: bal, nonce: n - 1 });
        provider.insert_state(n - 1, state);
        provider.insert_block(block_with_txs(n, vec![tx(n - 1, gas_limit, fee)]));
        bal -= cost;
    }
    provider
}

#[test]
fn test_backfill() {
    let balance = 1_000_000_000_000_000_000u128;
    let provider = single_tx_chain(1, balance, 21000, 7);
    let factory = BackfillJobFactory::new(ExecutorFactory, provider);
    let mut job = factory.backfill(BlockRange::new(1, 1));

    let mut chains = Vec::new();
    while let Some(step) = job.next() {
        chains.push(step.expect("backfill step"));
    }
    assert_eq!(chains.len(), 1);
    let chain = &chains[0];
    assert_eq!(chain.blocks(), &vec![block_with_txs(1, vec![tx(0, 21000, 7)])]);

    let mut bundle = StateView::new();
    bundle.set(signer(), Account { balance: balance - 21000 * 7, nonce: 1 });
    let expected = ExecutionOutcome {
        bundle,
        receipts: vec![vec![Receipt { success: true, cumulative_gas_used: 21000 }]],
        first_block: 1,
    };
    assert_eq!(chain.execution_outcome(), &expected);
}

#[test]
fn test_single_block_backfill() {
    let balance = 1_000_000_000_000_000_000u128;
    let provider = single_tx_chain(1, balance, 21000, 7);
    let factory = BackfillJobFactory::new(ExecutorFactory, provider);
    let job = factory.backfill(BlockRange::new(1, 1));
    let mut single_job = job.into_single_blocks();

    let mut outputs = Vec::new();
    while let Some(step) = single_job.next() {
        outputs.push(step.expect("single block step"));
    }
    assert_eq!(outputs.len(), 1);
    let (block, execution_output) = &outputs[0];
    assert_eq!(block, &block_with_txs(1, vec![tx(0, 21000, 7)]));

    let mut state = StateView::new();
    state.set(signer(), Account { balance: balance - 21000 * 7, nonce: 1 });
    let expected = BlockExecutionOutput {
        state,
        receipts: vec![Receipt { success: true, cumulative_gas_used: 21000 }],
        gas_used: 21000,
    };
    assert_eq!(execution_output, &expected);
}

/// Batching covers every number of the range exactly once, ascending,
/// without gaps or overlaps, whatever the batch boundaries.
#[test]
fn batches_cover_range_exactly_once() {
    for max_blocks in [None, Some(1u64), Some(2), Some(10)] {
        let mut provider = MemoryProvider::new();
        for n in 1..=5u64 {
            provider.insert_state(n - 1, genesis_state(10));
            provider.insert_block(empty_block(n));
        }
        let thresholds = ExecutionStageThresholds {
            max_blocks,
            max_changes: None,
            max_cumulative_gas: None,
            max_duration_ms: None,
        };
        let factory =
            BackfillJobFactory::new(ExecutorFactory, provider).with_thresholds(thresholds);
        let mut job = factory.backfill(BlockRange::new(1, 5));
        let mut numbers = Vec::new();
        while let Some(step) = job.next() {
            let chain = step.expect("batch");
            for b in chain.blocks() {
                numbers.push(b.number);
            }
        }
        assert_eq!(numbers, vec![1, 2, 3, 4, 5]);
    }
}

/// With a block limit of one, a range of n blocks yields exactly n batches of
/// one block each.
#[test]
fn unit_batches_one_per_block() {
    let mut provider = MemoryProvider::new();
    for n in 2..=6u64 {
        provider.insert_state(n - 1, genesis_state(10));
        provider.insert_block(empty_block(n));
    }
    let thresholds = ExecutionStageThresholds {
        max_blocks: Some(1),
        max_changes: None,
        max_cumulative_gas: None,
        max_duration_ms: None,
    };
    let factory = BackfillJobFactory::new(ExecutorFactory, provider).with_thresholds(thresholds);
    let mut job = factory.backfill(BlockRange::new(2, 6));
    let mut batches = Vec::new();
    while let Some(step) = job.next() {
        batches.push(step.expect("batch"));
    }
    assert_eq!(batches.len(), 5);
    for (i, chain) in batches.iter().enumerate() {
        assert_eq!(chain.len(), 1);
        assert_eq!(chain.blocks()[0].number, 2 + i as u64);
    }
}

/// The unit-batch mode and the single-block mode yield the same blocks and
/// the same execution results in the same order.
#[test]
fn unit_batches_match_single_blocks() {
    let balance = 1_000_000u128 * 1_000_000u128;
    let thresholds = ExecutionStageThresholds {
        max_blocks: Some(1),
        max_changes: None,
        max_cumulative_gas: None,
        max_duration_ms: None,
    };
    let factory = BackfillJobFactory::new(ExecutorFactory, single_tx_chain(3, balance, 21000, 3))
        .with_thresholds(thresholds.clone());
    let mut job = factory.backfill(BlockRange::new(1, 3));
    let mut batch_pairs = Vec::new();
    while let Some(step) = job.next() {
        let chain = step.expect("batch");
        assert_eq!(chain.len(), 1);
        batch_pairs.push((
            chain.blocks()[0].clone(),
            chain.execution_outcome().bundle.clone(),
            chain.execution_outcome().receipts[0].clone(),
        ));
    }

    let single_factory =
        BackfillJobFactory::new(ExecutorFactory, single_tx_chain(3, balance, 21000, 3))
            .with_thresholds(thresholds);
    let mut single_job = single_factory.backfill(BlockRange::new(1, 3)).into_single_blocks();
    let mut single_pairs = Vec::new();
    while let Some(step) = single_job.next() {
        let (block, output) = step.expect("single");
        single_pairs.push((block, output.state, output.receipts));
    }

    assert_eq!(batch_pairs, single_pairs);
}

/// A gas limit closes the batch as soon as the cumulative header gas reaches
/// it.
#[test]
fn gas_threshold_closes_batch() {
    let mut provider = MemoryProvider::new();
    for n in 1..=4u64 {
        provider.insert_state(n - 1, genesis_state(10));
        let mut b = empty_block(n);
        b.gas_used = 10;
        provider.insert_block(b);
    }
    let thresholds = ExecutionStageThresholds {
        max_blocks: None,
        max_changes: None,
        max_cumulative_gas: Some(20),
        max_duration_ms: None,
    };
    let factory = BackfillJobFactory::new(ExecutorFactory, provider).with_thresholds(thresholds);
    let mut job = factory.backfill(BlockRange::new(1, 4));
    let first = job.next().unwrap().unwrap();
    assert_eq!(first.len(), 2);
    let second = job.next().unwrap().unwrap();
    assert_eq!(second.len(), 2);
    assert!(job.next().is_none());
}

/// A time limit of zero closes every batch after its first block.
#[test]
fn zero_time_threshold_closes_after_one_block() {
    let mut provider = MemoryProvider::new();
    for n in 1..=3u64 {
        provider.insert_state(n - 1, genesis_state(10));
        provider.insert_block(empty_block(n));
    }
    let thresholds = ExecutionStageThresholds {
        max_blocks: None,
        max_changes: None,
        max_cumulative_gas: None,
        max_duration_ms: Some(0),
    };
    let factory = BackfillJobFactory::new(ExecutorFactory, provider).with_thresholds(thresholds);
    let mut job = factory.backfill(BlockRange::new(1, 3));
    let mut count = 0;
    while let Some(step) = job.next() {
        assert_eq!(step.expect("batch").len(), 1);
        count += 1;
    }
    assert_eq!(count, 3);
}

/// Backfilling one block against a known genesis balance yields that balance
/// minus the gas cost of the included transactions.
#[test]
fn backfill_deducts_gas_cost_from_balance() {
    let balance = 5_000_000_000u128;
    let gas_limit = 21000u64;
    let fee = 9u64;
    let provider = single_tx_chain(1, balance, gas_limit, fee);
    let factory = BackfillJobFactory::new(ExecutorFactory, provider);
    let mut job = factory.backfill(BlockRange::new(1, 1));
    let chain = job.next().unwrap().unwrap();
    let account = chain
        .execution_outcome()
        .bundle
        .get(&signer())
        .expect("signer account in bundle");
    assert_eq!(account.balance, balance - gas_limit as u128 * fee as u128);
    assert_eq!(account.nonce, 1);
    assert!(job.next().is_none());
}

#[test]
fn missing_block_is_reported_with_its_number() {
    let mut provider = MemoryProvider::new();
    provider.insert_state(0, genesis_state(10));
    provider.insert_state(1, genesis_state(10));
    provider.insert_block(empty_block(1));
    let thresholds = ExecutionStageThresholds {
        max_blocks: Some(1),
        max_changes: None,
        max_cumulative_gas: None,
        max_duration_ms: None,
    };
    let factory = BackfillJobFactory::new(ExecutorFactory, provider).with_thresholds(thresholds);
    let mut job = factory.backfill(BlockRange::new(1, 2));
    let first = job.next().unwrap();
    assert!(first.is_ok());
    let second = job.next().unwrap();
    assert_eq!(second.unwrap_err(), BackfillError::BlockNotFound(2));
    // a failed step leaves the remaining range where it was
    let again = job.next().unwrap();
    assert_eq!(again.unwrap_err(), BackfillError::BlockNotFound(2));
}

#[test]
fn missing_state_is_reported_with_its_number() {
    let mut provider = MemoryProvider::new();
    provider.insert_block(empty_block(1));
    let factory = BackfillJobFactory::new(ExecutorFactory, provider);
    let mut job = factory.backfill(BlockRange::new(1, 1));
    let out = job.next().unwrap();
    assert_eq!(out.unwrap_err(), BackfillError::StateUnavailable(0));
}

#[test]
fn failing_block_is_reported_with_its_number() {
    let mut provider = MemoryProvider::new();
    // the sender of the block's transaction has no account in the state
    provider.insert_state(0, StateView::new());
    provider.insert_block(block_with_txs(1, vec![tx(0, 21000, 1)]));
    let factory = BackfillJobFactory::new(ExecutorFactory, provider);
    let mut job = factory.backfill(BlockRange::new(1, 1));
    let out = job.next().unwrap();
    assert_eq!(out.unwrap_err(), BackfillError::Execution(1));
}

#[test]
fn empty_range_yields_no_batches() {
    let provider = MemoryProvider::new();
    let factory = BackfillJobFactory::new(ExecutorFactory, provider);
    let mut job = factory.backfill(BlockRange::new(5, 4));
    assert!(job.next().is_none());
}

/// The streaming form emits exactly what the plain job emits, and its
/// prefetch window never exceeds the lookahead.
#[test]
fn stream_matches_plain_job() {
    let mut provider = MemoryProvider::new();
    for n in 1..=3u64 {
        provider.insert_state(n - 1, genesis_state(10));
        provider.insert_block(empty_block(n));
    }
    let factory = BackfillJobFactory::new(ExecutorFactory, provider).with_stream_parallelism(2);
    let mut stream = factory.backfill(BlockRange::new(1, 3)).into_stream();
    let (lo, hi) = stream.prefetch_bounds();
    assert_eq!(lo, 1);
    assert!(hi - lo <= 2);
    let chain = stream.poll_next().unwrap().unwrap();
    assert_eq!(
        chain.blocks().iter().map(|b| b.number).collect::<Vec<_>>(),
        vec![1, 2, 3]
    );
    assert!(stream.poll_next().is_none());
}

/// Header lookups surface the stored block's header fields.
#[test]
fn provider_header_lookup() {
    let mut provider = MemoryProvider::new();
    provider.insert_block(empty_block(3));
    let header = provider.header(3).expect("header");
    assert_eq!(header.number, 3);
    assert_eq!(header.parent_hash, Hash256 { bytes: [2u8; 32] });
    assert_eq!(header.gas_used, 0);
    assert!(provider.header(4).is_none());
    assert!(provider.recovered_block(4).is_none());
}

/// The range variant of the factory entry point covers the same range.
#[test]
fn backfill_range_entry_point() {
    let mut provider = MemoryProvider::new();
    provider.insert_state(0, genesis_state(10));
    provider.insert_block(empty_block(1));
    let factory = BackfillJobFactory::new(ExecutorFactory, provider);
    let mut job = factory.backfill_range(1, 1);
    let chain = job.next().unwrap().unwrap();
    assert_eq!(chain.blocks().len(), 1);
    assert!(job.next().is_none());
}
