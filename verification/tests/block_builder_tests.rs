use sequencer_core::block_builder::{
    BlockBuilder, BlockBuilderError, BlockBuilderExecutionParams, BlockClosureData, BouncerWeights,
    BuilderEvent, FailOnErrorCause, TransactionExecutor, TransactionExecutorError, TxSimulation,
};
use sequencer_core::exec_map::exec_info_map_len;
use sequencer_core::execution::TxExecutionInfo;
use sequencer_core::transaction::{Fee, L1HandlerTransaction, L1HandlerTransactionInner, Transaction};
use sequencer_core::types::{Felt, ThinStateDiff, TransactionHash};

fn tx(i: u64) -> Transaction {
    Transaction::L1Handler(L1HandlerTransaction {
        tx: L1HandlerTransactionInner::default(),
        tx_hash: TransactionHash { h: Felt { v: i } },
        paid_fee_on_l1: Fee(0),
    })
}

fn weights(n_steps: u64) -> BouncerWeights {
    BouncerWeights {
        l1_gas: 0,
        message_segment_length: 0,
        n_events: 0,
        n_steps,
        state_diff_size: 0,
    }
}

fn sim(steps: u64, gas: u64) -> TxSimulation {
    TxSimulation::Executed {
        info: TxExecutionInfo { revert_happened: false, gas_consumed: gas },
        weights: weights(steps),
    }
}

fn closure() -> BlockClosureData {
    BlockClosureData { state_diff: ThinStateDiff::default(), visited_segments: Vec::new() }
}

fn builder(capacity_steps: u64, fail_on_err: bool) -> BlockBuilder {
    BlockBuilder::new(
        TransactionExecutor::new(weights(capacity_steps), closure()),
        true,
        100,
        BlockBuilderExecutionParams { fail_on_err },
    )
}

#[test]
fn executor_enforces_capacity() {
    // Cumulative weights stay within the capacity: the third transaction would
    // overflow it and is refused, as is everything after it.
    let mut executor = TransactionExecutor::new(weights(10), closure());
    let results = executor.add_txs_to_block(&vec![sim(4, 0), sim(6, 0), sim(1, 0), sim(1, 0)]);
    assert!(results[0].is_ok());
    assert!(results[1].is_ok());
    assert_eq!(results[2], Err(TransactionExecutorError::BlockFull));
    assert_eq!(results[3], Err(TransactionExecutorError::BlockFull));
    assert_eq!(executor.bouncer, weights(10));
    assert!(executor.block_full);
}

#[test]
fn build_block_records_and_streams_in_order() {
    let pairs: Vec<(Transaction, TxSimulation)> =
        (0..4u64).map(|i| (tx(i), sim(1, i))).collect();
    let outcome = builder(100, false)
        .build_block(vec![BuilderEvent::Chunk(pairs), BuilderEvent::ProviderEnd])
        .unwrap();
    assert_eq!(outcome.streamed, (0..4u64).map(tx).collect::<Vec<_>>());
    assert_eq!(exec_info_map_len(&outcome.artifacts.execution_infos), 4);
    assert_eq!(outcome.artifacts.bouncer_weights, weights(4));
}

#[test]
fn build_block_closes_on_full_block() {
    // Without fail-on-error, a full block closes with what fit.
    let pairs: Vec<(Transaction, TxSimulation)> =
        (0..4u64).map(|i| (tx(i), sim(4, 0))).collect();
    let outcome = builder(10, false)
        .build_block(vec![BuilderEvent::Chunk(pairs), BuilderEvent::ProviderEnd])
        .unwrap();
    // Two transactions fit under the capacity of ten steps.
    assert_eq!(outcome.streamed.len(), 2);
    assert_eq!(outcome.artifacts.bouncer_weights, weights(8));
}

#[test]
fn build_block_fails_on_full_block_when_validating() {
    let pairs: Vec<(Transaction, TxSimulation)> =
        (0..4u64).map(|i| (tx(i), sim(4, 0))).collect();
    let r = builder(10, true).build_block(vec![BuilderEvent::Chunk(pairs)]);
    assert_eq!(r, Err(BlockBuilderError::FailOnError(FailOnErrorCause::BlockFull)));
}

#[test]
fn build_block_aborts_on_signal() {
    let r = builder(10, false).build_block(vec![BuilderEvent::Abort]);
    assert_eq!(r, Err(BlockBuilderError::Aborted));
}

#[test]
fn build_block_deadline() {
    // Without fail-on-error the deadline closes the block; with it, the build
    // fails.
    let outcome = builder(10, false)
        .build_block(vec![BuilderEvent::DeadlineReached])
        .unwrap();
    assert_eq!(outcome.streamed.len(), 0);
    let r = builder(10, true).build_block(vec![BuilderEvent::DeadlineReached]);
    assert_eq!(r, Err(BlockBuilderError::FailOnError(FailOnErrorCause::DeadlineReached)));
}

#[test]
fn build_block_drops_failed_transactions_silently() {
    let pairs = vec![(tx(0), sim(1, 0)), (tx(1), TxSimulation::Failed), (tx(2), sim(1, 0))];
    let outcome = builder(100, false)
        .build_block(vec![BuilderEvent::Chunk(pairs), BuilderEvent::ProviderEnd])
        .unwrap();
    assert_eq!(outcome.streamed, vec![tx(0), tx(2)]);
    assert_eq!(exec_info_map_len(&outcome.artifacts.execution_infos), 2);
}

#[test]
fn build_block_fails_on_failed_transaction_when_validating() {
    let pairs = vec![(tx(0), sim(1, 0)), (tx(1), TxSimulation::Failed)];
    let r = builder(100, true).build_block(vec![BuilderEvent::Chunk(pairs)]);
    assert_eq!(
        r,
        Err(BlockBuilderError::FailOnError(FailOnErrorCause::TransactionFailed))
    );
}

#[test]
fn empty_chunk_continues_the_build() {
    let pairs = vec![(tx(0), sim(1, 0))];
    let outcome = builder(100, false)
        .build_block(vec![
            BuilderEvent::EmptyChunk,
            BuilderEvent::Chunk(pairs),
            BuilderEvent::ProviderEnd,
        ])
        .unwrap();
    assert_eq!(outcome.streamed, vec![tx(0)]);
}
