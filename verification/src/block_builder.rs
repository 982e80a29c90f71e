//! The block builder: assembles a block from transaction chunks under
//! capacity limits, records the accepted transactions in submission order, and
//! streams them to the proposal's consumer.
//!
//! The builder's surroundings — the transaction provider, the clock that
//! raises the deadline, the abort channel, and the per-transaction execution
//! performed by the virtual machine — are events to this module: each loop
//! iteration consumes one `BuilderEvent` carrying what those collaborators
//! delivered, and everything the builder decides from it is verified. The
//! cumulative block weights never exceed the configured capacity.

use indexmap::IndexMap;
use vstd::prelude::*;

use crate::exec_map::{
    entries_have_key, entries_key_index, entries_upsert, exec_info_entries, exec_info_map_insert,
    exec_info_map_new,
};
use crate::execution::TxExecutionInfo;
use crate::transaction::Transaction;
use crate::types::{BlockHash, BlockNumber, ClassHash, ThinStateDiff};

verus! {

/// The cumulative weights a block carries toward its capacity.
#[derive(Clone, Copy, Debug, PartialEq, Eq, Structural)]
pub struct BouncerWeights {
    pub l1_gas: u64,
    pub message_segment_length: u64,
    pub n_events: u64,
    pub n_steps: u64,
    pub state_diff_size: u64,
}

impl BouncerWeights {
    pub fn zeroed() -> (r: BouncerWeights)
        ensures
            r == BouncerWeights::spec_zeroed(),
    {
        BouncerWeights {
            l1_gas: 0,
            message_segment_length: 0,
            n_events: 0,
            n_steps: 0,
            state_diff_size: 0,
        }
    }

    pub open spec fn spec_zeroed() -> BouncerWeights {
        BouncerWeights {
            l1_gas: 0,
            message_segment_length: 0,
            n_events: 0,
            n_steps: 0,
            state_diff_size: 0,
        }
    }
}

/// Fieldwise comparison of weights.
pub open spec fn bw_le(a: BouncerWeights, b: BouncerWeights) -> bool {
    &&& a.l1_gas <= b.l1_gas
    &&& a.message_segment_length <= b.message_segment_length
    &&& a.n_events <= b.n_events
    &&& a.n_steps <= b.n_steps
    &&& a.state_diff_size <= b.state_diff_size
}

/// Whether accumulated weights `acc` plus one transaction's weights `w` stay
/// within `cap`.
pub open spec fn bw_fits(acc: BouncerWeights, w: BouncerWeights, cap: BouncerWeights) -> bool {
    &&& acc.l1_gas + w.l1_gas <= cap.l1_gas
    &&& acc.message_segment_length + w.message_segment_length <= cap.message_segment_length
    &&& acc.n_events + w.n_events <= cap.n_events
    &&& acc.n_steps + w.n_steps <= cap.n_steps
    &&& acc.state_diff_size + w.state_diff_size <= cap.state_diff_size
}

/// Fieldwise sum of weights; meaningful when the sum fits.
pub open spec fn bw_add(a: BouncerWeights, b: BouncerWeights) -> BouncerWeights {
    BouncerWeights {
        l1_gas: (a.l1_gas + b.l1_gas) as u64,
        message_segment_length: (a.message_segment_length + b.message_segment_length) as u64,
        n_events: (a.n_events + b.n_events) as u64,
        n_steps: (a.n_steps + b.n_steps) as u64,
        state_diff_size: (a.state_diff_size + b.state_diff_size) as u64,
    }
}

/// The capacity the block may not exceed.
#[derive(Clone, Copy, Debug, PartialEq, Eq, Structural)]
pub struct BouncerConfig {
    pub block_max_capacity: BouncerWeights,
}

/// What the virtual-machine layer reports for one transaction handed to the
/// executor: a completed execution with its record and its weights, or a
/// failure before the transaction could take effect.
#[derive(Clone, Copy, Debug, PartialEq, Eq, Structural)]
pub enum TxSimulation {
    Executed { info: TxExecutionInfo, weights: BouncerWeights },
    Failed,
}

/// The errors the executor reports per transaction.
#[derive(Clone, Copy, Debug, PartialEq, Eq, Structural)]
pub enum TransactionExecutorError {
    BlockFull,
    TransactionFailed,
}

/// What the executor hands back when the block is closed, besides the weights:
/// the commitment state diff and the visited program counters per class, both
/// produced by the execution layer.
#[derive(Clone, Debug, PartialEq, Eq)]
pub struct BlockClosureData {
    pub state_diff: ThinStateDiff,
    pub visited_segments: Vec<(ClassHash, Vec<usize>)>,
}

/// The per-transaction results of the executor over one chunk, with the
/// accumulated weights and fullness it reaches: a failed simulation fails its
/// transaction; once a transaction does not fit, it and everything after it in
/// the block is refused with `BlockFull` and no further weight accumulates.
pub open spec fn spec_executor_results(
    sims: Seq<TxSimulation>,
    bouncer: BouncerWeights,
    cap: BouncerWeights,
    full: bool,
) -> (Seq<Result<TxExecutionInfo, TransactionExecutorError>>, BouncerWeights, bool)
    decreases sims.len(),
{
    if sims.len() == 0 {
        (Seq::empty(), bouncer, full)
    } else {
        let (head, b1, f1) = match sims[0] {
            TxSimulation::Failed => (
                Err::<TxExecutionInfo, TransactionExecutorError>(
                    TransactionExecutorError::TransactionFailed,
                ),
                bouncer,
                full,
            ),
            TxSimulation::Executed { info, weights } => {
                if full {
                    (Err(TransactionExecutorError::BlockFull), bouncer, true)
                } else if bw_fits(bouncer, weights, cap) {
                    (Ok(info), bw_add(bouncer, weights), false)
                } else {
                    (Err(TransactionExecutorError::BlockFull), bouncer, true)
                }
            },
        };
        let (rest, b2, f2) = spec_executor_results(sims.skip(1), b1, cap, f1);
        (seq![head] + rest, b2, f2)
    }
}

/// The transaction executor, as the builder sees it: the capacity accountant
/// over the execution layer. Its accumulated weights never exceed the
/// capacity.
#[derive(Clone, Debug, PartialEq, Eq)]
pub struct TransactionExecutor {
    pub bouncer: BouncerWeights,
    pub block_max_capacity: BouncerWeights,
    pub block_full: bool,
    pub closure: BlockClosureData,
}

impl TransactionExecutor {
    /// The capacity invariant.
    pub open spec fn wf(&self) -> bool {
        bw_le(self.bouncer, self.block_max_capacity)
    }

    pub fn new(block_max_capacity: BouncerWeights, closure: BlockClosureData) -> (r:
        TransactionExecutor)
        ensures
            r.bouncer == BouncerWeights::spec_zeroed(),
            r.block_max_capacity == block_max_capacity,
            !r.block_full,
            r.closure == closure,
            r.wf(),
    {
        TransactionExecutor {
            bouncer: BouncerWeights::zeroed(),
            block_max_capacity,
            block_full: false,
            closure,
        }
    }

    /// Adds a chunk of transactions to the block, in order: each one either
    /// takes effect and is charged its weights, or is refused. Weights beyond
    /// the capacity close the block for this and every later transaction.
    pub fn add_txs_to_block(&mut self, sims: &Vec<TxSimulation>) -> (r: Vec<
        Result<TxExecutionInfo, TransactionExecutorError>,
    >)
        requires
            old(self).wf(),
        ensures
            ({
                let (results, b2, f2) = spec_executor_results(
                    sims@,
                    old(self).bouncer,
                    old(self).block_max_capacity,
                    old(self).block_full,
                );
                &&& r@ == results
                &&& final (self).bouncer == b2
                &&& final (self).block_full == f2
                &&& final (self).block_max_capacity == old(self).block_max_capacity
                &&& final (self).closure == old(self).closure
                &&& final (self).wf()
            }),
    {
        let mut results: Vec<Result<TxExecutionInfo, TransactionExecutorError>> = Vec::new();
        let mut i: usize = 0;
        let ghost b0 = self.bouncer;
        let ghost f0 = self.block_full;
        proof {
            assert(sims@.skip(0) =~= sims@);
            let (rest, b2, f2) = spec_executor_results(sims@, b0, self.block_max_capacity, f0);
            assert(results@ + rest =~= rest);
        }
        while i < sims.len()
            invariant
                0 <= i <= sims@.len(),
                self.wf(),
                self.block_max_capacity == old(self).block_max_capacity,
                self.closure == old(self).closure,
                spec_executor_results(sims@, b0, self.block_max_capacity, f0) == ({
                    let (rest, b2, f2) = spec_executor_results(
                        sims@.skip(i as int),
                        self.bouncer,
                        self.block_max_capacity,
                        self.block_full,
                    );
                    (results@ + rest, b2, f2)
                }),
                b0 == old(self).bouncer,
                f0 == old(self).block_full,
            decreases sims@.len() - i,
        {
            let ghost suffix = sims@.skip(i as int);
            let ghost pre_results = results@;
            let ghost pre_bouncer = self.bouncer;
            let ghost pre_full = self.block_full;
            proof {
                assert(suffix[0] == sims@[i as int]);
                assert(suffix.skip(1) =~= sims@.skip(i + 1));
            }
            let head: Result<TxExecutionInfo, TransactionExecutorError> = match sims[i] {
                TxSimulation::Failed => Err(TransactionExecutorError::TransactionFailed),
                TxSimulation::Executed { info, weights } => {
                    if self.block_full {
                        Err(TransactionExecutorError::BlockFull)
                    } else {
                        let cap = self.block_max_capacity;
                        let acc = self.bouncer;
                        let fits = weights.l1_gas <= cap.l1_gas - acc.l1_gas
                            && weights.message_segment_length <= cap.message_segment_length
                            - acc.message_segment_length && weights.n_events <= cap.n_events
                            - acc.n_events && weights.n_steps <= cap.n_steps - acc.n_steps
                            && weights.state_diff_size <= cap.state_diff_size
                            - acc.state_diff_size;
                        if fits {
                            self.bouncer = BouncerWeights {
                                l1_gas: acc.l1_gas + weights.l1_gas,
                                message_segment_length: acc.message_segment_length
                                    + weights.message_segment_length,
                                n_events: acc.n_events + weights.n_events,
                                n_steps: acc.n_steps + weights.n_steps,
                                state_diff_size: acc.state_diff_size + weights.state_diff_size,
                            };
                            Ok(info)
                        } else {
                            self.block_full = true;
                            Err(TransactionExecutorError::BlockFull)
                        }
                    }
                },
            };
            results.push(head);
            i += 1;
            proof {
                let (rest, b2, f2) = spec_executor_results(
                    sims@.skip(i as int),
                    self.bouncer,
                    self.block_max_capacity,
                    self.block_full,
                );
                assert(pre_results + (seq![head] + rest) =~= results@ + rest);
            }
        }
        proof {
            assert(sims@.skip(sims@.len() as int) =~= Seq::<TxSimulation>::empty());
            let (rest, b2, f2) = spec_executor_results(
                sims@.skip(sims@.len() as int),
                self.bouncer,
                self.block_max_capacity,
                self.block_full,
            );
            assert(results@ + rest =~= results@);
        }
        results
    }

    /// Closes the block: hands out the commitment state diff, the visited
    /// program counters, and the weights the block accumulated. Consumes the
    /// executor; a block is closed exactly once.
    pub fn close_block(self) -> (r: (ThinStateDiff, Vec<(ClassHash, Vec<usize>)>, BouncerWeights))
        ensures
            r.0 == self.closure.state_diff,
            r.1 == self.closure.visited_segments,
            r.2 == self.bouncer,
    {
        let TransactionExecutor { bouncer, block_max_capacity: _, block_full: _, closure } = self;
        (closure.state_diff, closure.visited_segments, bouncer)
    }
}

/// The executor never exceeds its capacity: whatever chunk is added to a block
/// within capacity, the accumulated weights stay within capacity.
pub proof fn lemma_bouncer_respects_capacity(
    sims: Seq<TxSimulation>,
    bouncer: BouncerWeights,
    cap: BouncerWeights,
    full: bool,
)
    requires
        bw_le(bouncer, cap),
    ensures
        bw_le(spec_executor_results(sims, bouncer, cap, full).1, cap),
    decreases sims.len(),
{
    if sims.len() > 0 {
        match sims[0] {
            TxSimulation::Failed => {
                lemma_bouncer_respects_capacity(sims.skip(1), bouncer, cap, full);
            },
            TxSimulation::Executed { info, weights } => {
                if full {
                    lemma_bouncer_respects_capacity(sims.skip(1), bouncer, cap, true);
                } else if bw_fits(bouncer, weights, cap) {
                    lemma_bouncer_respects_capacity(
                        sims.skip(1),
                        bw_add(bouncer, weights),
                        cap,
                        false,
                    );
                } else {
                    lemma_bouncer_respects_capacity(sims.skip(1), bouncer, cap, true);
                }
            },
        }
    }
}

/// The executor reports one result per transaction handed to it.
pub proof fn lemma_executor_results_len(
    sims: Seq<TxSimulation>,
    bouncer: BouncerWeights,
    cap: BouncerWeights,
    full: bool,
)
    ensures
        spec_executor_results(sims, bouncer, cap, full).0.len() == sims.len(),
    decreases sims.len(),
{
    if sims.len() > 0 {
        let (head, b1, f1) = match sims[0] {
            TxSimulation::Failed => (
                Err::<TxExecutionInfo, TransactionExecutorError>(
                    TransactionExecutorError::TransactionFailed,
                ),
                bouncer,
                full,
            ),
            TxSimulation::Executed { info, weights } => {
                if full {
                    (Err(TransactionExecutorError::BlockFull), bouncer, true)
                } else if bw_fits(bouncer, weights, cap) {
                    (Ok(info), bw_add(bouncer, weights), false)
                } else {
                    (Err(TransactionExecutorError::BlockFull), bouncer, true)
                }
            },
        };
        lemma_executor_results_len(sims.skip(1), b1, cap, f1);
    }
}

/// A full block stays full.
pub proof fn lemma_executor_full_sticky(
    sims: Seq<TxSimulation>,
    bouncer: BouncerWeights,
    cap: BouncerWeights,
)
    ensures
        spec_executor_results(sims, bouncer, cap, true).2,
    decreases sims.len(),
{
    if sims.len() > 0 {
        lemma_executor_full_sticky(sims.skip(1), bouncer, cap);
    }
}

/// The collection outcome of a chunk mirrors the executor's fullness: a chunk
/// whose results are all consumed leaves the fullness as it was, and a chunk
/// that stops at a full block really saw the executor fill up.
pub proof fn lemma_collect_tracks_fullness(
    sims: Seq<TxSimulation>,
    txs: Seq<Transaction>,
    bouncer: BouncerWeights,
    cap: BouncerWeights,
    full: bool,
    infos: Seq<(u64, TxExecutionInfo)>,
    streamed: Seq<Transaction>,
    output_enabled: bool,
    fail_on_err: bool,
)
    requires
        txs.len() == sims.len(),
    ensures
        ({
            let (results, b2, f2) = spec_executor_results(sims, bouncer, cap, full);
            let (i2, s2, out) = spec_collect(txs, results, infos, streamed, output_enabled, fail_on_err);
            &&& (out is Proceed ==> f2 == full)
            &&& (out is Full ==> f2)
        }),
    decreases sims.len(),
{
    if sims.len() > 0 {
        let (results, b2, f2) = spec_executor_results(sims, bouncer, cap, full);
        let (head, b1, f1) = match sims[0] {
            TxSimulation::Failed => (
                Err::<TxExecutionInfo, TransactionExecutorError>(
                    TransactionExecutorError::TransactionFailed,
                ),
                bouncer,
                full,
            ),
            TxSimulation::Executed { info, weights } => {
                if full {
                    (Err(TransactionExecutorError::BlockFull), bouncer, true)
                } else if bw_fits(bouncer, weights, cap) {
                    (Ok(info), bw_add(bouncer, weights), false)
                } else {
                    (Err(TransactionExecutorError::BlockFull), bouncer, true)
                }
            },
        };
        let rest = spec_executor_results(sims.skip(1), b1, cap, f1).0;
        assert(results =~= seq![head] + rest);
        assert(results[0] == head);
        assert(results.skip(1) =~= rest);
        match head {
            Ok(info) => {
                lemma_collect_tracks_fullness(
                    sims.skip(1),
                    txs.skip(1),
                    b1,
                    cap,
                    f1,
                    entries_upsert(infos, txs[0].spec_tx_hash().h.v, info),
                    if output_enabled {
                        streamed.push(txs[0])
                    } else {
                        streamed
                    },
                    output_enabled,
                    fail_on_err,
                );
            },
            Err(TransactionExecutorError::BlockFull) => {
                lemma_executor_full_sticky(sims.skip(1), b1, cap);
            },
            Err(TransactionExecutorError::TransactionFailed) => {
                lemma_collect_tracks_fullness(
                    sims.skip(1),
                    txs.skip(1),
                    b1,
                    cap,
                    f1,
                    infos,
                    streamed,
                    output_enabled,
                    fail_on_err,
                );
            },
        }
    }
}

/// Causes for failing a block when `fail_on_err` is set.
#[derive(Clone, Copy, Debug, PartialEq, Eq, Structural)]
pub enum FailOnErrorCause {
    BlockFull,
    DeadlineReached,
    TransactionFailed,
}

/// The errors of block building.
#[derive(Clone, Copy, Debug, PartialEq, Eq, Structural)]
pub enum BlockBuilderError {
    FailOnError(FailOnErrorCause),
    Aborted,
}

/// What one chunk does to the collection state.
#[derive(Clone, Copy, Debug, PartialEq, Eq, Structural)]
pub enum ChunkOutcome {
    /// All results consumed; keep building.
    Proceed,
    /// The block filled up; close it.
    Full,
    /// `fail_on_err` and the block filled up.
    FailBlockFull,
    /// `fail_on_err` and a transaction failed.
    FailTxFailed,
}

/// How the results of one chunk are folded into the block, pairing each input
/// transaction with its result in input order: an accepted transaction's
/// record is keyed under its hash and the transaction is streamed; a full
/// block stops consumption; a failed transaction is dropped silently — unless
/// `fail_on_err`, which turns either into a failure of the whole block.
pub open spec fn spec_collect(
    txs: Seq<Transaction>,
    results: Seq<Result<TxExecutionInfo, TransactionExecutorError>>,
    infos: Seq<(u64, TxExecutionInfo)>,
    streamed: Seq<Transaction>,
    output_enabled: bool,
    fail_on_err: bool,
) -> (Seq<(u64, TxExecutionInfo)>, Seq<Transaction>, ChunkOutcome)
    decreases txs.len(),
{
    if txs.len() == 0 {
        (infos, streamed, ChunkOutcome::Proceed)
    } else {
        match results[0] {
            Ok(info) => {
                let infos2 = entries_upsert(infos, txs[0].spec_tx_hash().h.v, info);
                let streamed2 = if output_enabled {
                    streamed.push(txs[0])
                } else {
                    streamed
                };
                spec_collect(
                    txs.skip(1),
                    results.skip(1),
                    infos2,
                    streamed2,
                    output_enabled,
                    fail_on_err,
                )
            },
            Err(TransactionExecutorError::BlockFull) => {
                if fail_on_err {
                    (infos, streamed, ChunkOutcome::FailBlockFull)
                } else {
                    (infos, streamed, ChunkOutcome::Full)
                }
            },
            Err(TransactionExecutorError::TransactionFailed) => {
                if fail_on_err {
                    (infos, streamed, ChunkOutcome::FailTxFailed)
                } else {
                    spec_collect(
                        txs.skip(1),
                        results.skip(1),
                        infos,
                        streamed,
                        output_enabled,
                        fail_on_err,
                    )
                }
            },
        }
    }
}

/// Folds one chunk's execution results into the block: records each accepted
/// transaction under its hash in the insertion-ordered map, appends it to the
/// output stream if one exists, stops at a full block, and drops or surfaces
/// failed transactions according to `fail_on_err`. Returns whether the block
/// is full and should be closed.
pub fn collect_execution_results_and_stream_txs(
    tx_chunk: Vec<Transaction>,
    results: Vec<Result<TxExecutionInfo, TransactionExecutorError>>,
    execution_infos: &mut IndexMap<u64, TxExecutionInfo>,
    output_enabled: bool,
    streamed: &mut Vec<Transaction>,
    fail_on_err: bool,
) -> (r: Result<bool, BlockBuilderError>)
    requires
        tx_chunk@.len() == results@.len(),
    ensures
        ({
            let (infos2, streamed2, out) = spec_collect(
                tx_chunk@,
                results@,
                exec_info_entries(*old(execution_infos)),
                old(streamed)@,
                output_enabled,
                fail_on_err,
            );
            &&& exec_info_entries(*final (execution_infos)) == infos2
            &&& final (streamed)@ == streamed2
            &&& match out {
                ChunkOutcome::Proceed => r == Ok::<bool, BlockBuilderError>(false),
                ChunkOutcome::Full => r == Ok::<bool, BlockBuilderError>(true),
                ChunkOutcome::FailBlockFull => r == Err::<bool, BlockBuilderError>(
                    BlockBuilderError::FailOnError(FailOnErrorCause::BlockFull),
                ),
                ChunkOutcome::FailTxFailed => r == Err::<bool, BlockBuilderError>(
                    BlockBuilderError::FailOnError(FailOnErrorCause::TransactionFailed),
                ),
            }
        }),
{
    let mut txs = tx_chunk;
    let mut i: usize = 0;
    let ghost txs0 = txs@;
    let ghost results0 = results@;
    let ghost infos0 = exec_info_entries(*execution_infos);
    let ghost streamed0 = streamed@;
    proof {
        assert(results@.skip(0) =~= results@);
    }
    loop
        invariant_except_break
            txs@.len() + i == results@.len(),
            i <= results@.len(),
            txs0 == tx_chunk@,
            results0 == results@,
            infos0 == exec_info_entries(*old(execution_infos)),
            streamed0 == old(streamed)@,
            spec_collect(txs0, results0, infos0, streamed0, output_enabled, fail_on_err)
                == spec_collect(
                txs@,
                results@.skip(i as int),
                exec_info_entries(*execution_infos),
                streamed@,
                output_enabled,
                fail_on_err,
            ),
        ensures
            txs0 == tx_chunk@,
            results0 == results@,
            infos0 == exec_info_entries(*old(execution_infos)),
            streamed0 == old(streamed)@,
            spec_collect(txs0, results0, infos0, streamed0, output_enabled, fail_on_err) == (
            exec_info_entries(*execution_infos), streamed@, ChunkOutcome::Full),
        decreases txs@.len(),
    {
        if txs.len() == 0 {
            proof {
                assert(spec_collect(
                    txs@,
                    results@.skip(i as int),
                    exec_info_entries(*execution_infos),
                    streamed@,
                    output_enabled,
                    fail_on_err,
                ) == (exec_info_entries(*execution_infos), streamed@, ChunkOutcome::Proceed));
            }
            return Ok(false);
        }
        let ghost pre_txs = txs@;
        let ghost pre_suffix = results@.skip(i as int);
        proof {
            assert(pre_suffix[0] == results@[i as int]);
            assert(pre_suffix.skip(1) =~= results@.skip(i + 1));
        }
        let input_tx = txs.remove(0);
        proof {
            assert(txs@ =~= pre_txs.skip(1));
        }
        let result = results[i];
        let n_results = results.len();
        proof {
            assert(i < n_results);
        }
        i += 1;
        match result {
            Ok(info) => {
                let h = input_tx.tx_hash();
                exec_info_map_insert(execution_infos, h.h.v, info);
                if output_enabled {
                    streamed.push(input_tx);
                }
            },
            Err(TransactionExecutorError::BlockFull) => {
                if fail_on_err {
                    return Err(BlockBuilderError::FailOnError(FailOnErrorCause::BlockFull));
                }
                break ;
            },
            Err(TransactionExecutorError::TransactionFailed) => {
                if fail_on_err {
                    return Err(
                        BlockBuilderError::FailOnError(FailOnErrorCause::TransactionFailed),
                    );
                }
            },
        }
    }
    Ok(true)
}

/// How far a build ran.
#[derive(Clone, Copy, Debug, PartialEq, Eq, Structural)]
pub enum BuildTermination {
    /// The block closed normally: deadline without `fail_on_err`, provider
    /// end, a full block, or the event script running out.
    Completed,
    /// The deadline passed under `fail_on_err`.
    FailDeadline,
    /// The abort channel fired.
    Aborted,
    /// The block filled up under `fail_on_err`.
    FailBlockFull,
    /// A transaction failed under `fail_on_err`.
    FailTxFailed,
}

/// One iteration's worth of input to the build loop: what the clock, the abort
/// channel and the transaction provider delivered, with each provided
/// transaction paired with what its execution produced.
#[derive(Clone, Debug, PartialEq, Eq)]
pub enum BuilderEvent {
    /// The deadline passed before this iteration.
    DeadlineReached,
    /// The abort channel was signalled.
    Abort,
    /// The provider reports that no more transactions will come.
    ProviderEnd,
    /// The provider had nothing yet; the builder sleeps and retries.
    EmptyChunk,
    /// A chunk of transactions with their execution outcomes.
    Chunk(Vec<(Transaction, TxSimulation)>),
}

/// The whole build as a function of the event script: the recorded execution
/// entries, the streamed transactions, the final weights, and how the build
/// ended.
pub open spec fn spec_build(
    events: Seq<BuilderEvent>,
    bouncer: BouncerWeights,
    cap: BouncerWeights,
    full: bool,
    fail_on_err: bool,
    output_enabled: bool,
    infos: Seq<(u64, TxExecutionInfo)>,
    streamed: Seq<Transaction>,
) -> (Seq<(u64, TxExecutionInfo)>, Seq<Transaction>, BouncerWeights, BuildTermination)
    decreases events.len(),
{
    if full || events.len() == 0 {
        (infos, streamed, bouncer, BuildTermination::Completed)
    } else {
        match events[0] {
            BuilderEvent::DeadlineReached => {
                if fail_on_err {
                    (infos, streamed, bouncer, BuildTermination::FailDeadline)
                } else {
                    (infos, streamed, bouncer, BuildTermination::Completed)
                }
            },
            BuilderEvent::Abort => (infos, streamed, bouncer, BuildTermination::Aborted),
            BuilderEvent::ProviderEnd => (infos, streamed, bouncer, BuildTermination::Completed),
            BuilderEvent::EmptyChunk => spec_build(
                events.skip(1),
                bouncer,
                cap,
                full,
                fail_on_err,
                output_enabled,
                infos,
                streamed,
            ),
            BuilderEvent::Chunk(pairs) => {
                let txs = pairs@.map_values(|p: (Transaction, TxSimulation)| p.0);
                let sims = pairs@.map_values(|p: (Transaction, TxSimulation)| p.1);
                let (results, b2, f2) = spec_executor_results(sims, bouncer, cap, full);
                let (infos2, streamed2, out) = spec_collect(
                    txs,
                    results,
                    infos,
                    streamed,
                    output_enabled,
                    fail_on_err,
                );
                match out {
                    ChunkOutcome::Proceed => spec_build(
                        events.skip(1),
                        b2,
                        cap,
                        f2,
                        fail_on_err,
                        output_enabled,
                        infos2,
                        streamed2,
                    ),
                    ChunkOutcome::Full => (infos2, streamed2, b2, BuildTermination::Completed),
                    ChunkOutcome::FailBlockFull => (
                        infos2,
                        streamed2,
                        b2,
                        BuildTermination::FailBlockFull,
                    ),
                    ChunkOutcome::FailTxFailed => (
                        infos2,
                        streamed2,
                        b2,
                        BuildTermination::FailTxFailed,
                    ),
                }
            },
        }
    }
}

/// What a block build produces: the artifacts of the closed block, and the
/// transactions that were streamed to the output, in order.
#[derive(Debug, PartialEq, Eq)]
pub struct BlockExecutionArtifacts {
    pub execution_infos: IndexMap<u64, TxExecutionInfo>,
    pub commitment_state_diff: ThinStateDiff,
    pub visited_segments_mapping: Vec<(ClassHash, Vec<usize>)>,
    pub bouncer_weights: BouncerWeights,
}

/// A finished build: the artifacts and the streamed transactions.
#[derive(Debug, PartialEq, Eq)]
pub struct BuildOutcome {
    pub artifacts: BlockExecutionArtifacts,
    pub streamed: Vec<Transaction>,
}

/// Parameters that configure one build.
#[derive(Clone, Copy, Debug, PartialEq, Eq, Structural)]
pub struct BlockBuilderExecutionParams {
    pub fail_on_err: bool,
}

/// The block builder for one proposal.
#[derive(Debug, PartialEq, Eq)]
pub struct BlockBuilder {
    pub executor: TransactionExecutor,
    pub output_enabled: bool,
    pub tx_chunk_size: usize,
    pub execution_params: BlockBuilderExecutionParams,
}

impl BlockBuilder {
    pub fn new(
        executor: TransactionExecutor,
        output_enabled: bool,
        tx_chunk_size: usize,
        execution_params: BlockBuilderExecutionParams,
    ) -> (r: BlockBuilder)
        ensures
            r == (BlockBuilder { executor, output_enabled, tx_chunk_size, execution_params }),
    {
        BlockBuilder { executor, output_enabled, tx_chunk_size, execution_params }
    }

    /// Builds the block by consuming the event script in order: stop at the
    /// deadline (failing the block if `fail_on_err`), abort when signalled,
    /// record and stream each accepted transaction, and close the block when
    /// the provider ends, the block fills up, or the script runs out. The
    /// executor is consumed: the block is closed exactly once on every
    /// non-failing path.
    pub fn build_block(self, events: Vec<BuilderEvent>) -> (r: Result<
        BuildOutcome,
        BlockBuilderError,
    >)
        requires
            self.executor.wf(),
        ensures
            ({
                let (infos_s, streamed_s, weights_s, term) = spec_build(
                    events@,
                    self.executor.bouncer,
                    self.executor.block_max_capacity,
                    self.executor.block_full,
                    self.execution_params.fail_on_err,
                    self.output_enabled,
                    Seq::empty(),
                    Seq::empty(),
                );
                match term {
                    BuildTermination::Completed => {
                        &&& r matches Ok(out)
                        &&& exec_info_entries(out.artifacts.execution_infos) == infos_s
                        &&& out.streamed@ == streamed_s
                        &&& out.artifacts.bouncer_weights == weights_s
                        &&& bw_le(weights_s, self.executor.block_max_capacity)
                        &&& out.artifacts.commitment_state_diff
                            == self.executor.closure.state_diff
                        &&& out.artifacts.visited_segments_mapping
                            == self.executor.closure.visited_segments
                    },
                    BuildTermination::FailDeadline => r == Err::<BuildOutcome, BlockBuilderError>(
                        BlockBuilderError::FailOnError(FailOnErrorCause::DeadlineReached),
                    ),
                    BuildTermination::Aborted => r == Err::<BuildOutcome, BlockBuilderError>(
                        BlockBuilderError::Aborted,
                    ),
                    BuildTermination::FailBlockFull => r == Err::<BuildOutcome, BlockBuilderError>(
                        BlockBuilderError::FailOnError(FailOnErrorCause::BlockFull),
                    ),
                    BuildTermination::FailTxFailed => r == Err::<BuildOutcome, BlockBuilderError>(
                        BlockBuilderError::FailOnError(FailOnErrorCause::TransactionFailed),
                    ),
                }
            }),
    {
        let BlockBuilder { mut executor, output_enabled, tx_chunk_size: _, execution_params } =
            self;
        let fail_on_err = execution_params.fail_on_err;
        let mut remaining = events;
        let mut execution_infos = exec_info_map_new();
        let mut streamed: Vec<Transaction> = Vec::new();
        let mut block_is_full = executor.block_full;
        let ghost cap = executor.block_max_capacity;
        loop
            invariant_except_break
                executor.wf(),
                cap == self.executor.block_max_capacity,
                executor.block_max_capacity == cap,
                executor.closure == self.executor.closure,
                block_is_full == executor.block_full,
                fail_on_err == self.execution_params.fail_on_err,
                output_enabled == self.output_enabled,
                spec_build(
                    events@,
                    self.executor.bouncer,
                    cap,
                    self.executor.block_full,
                    fail_on_err,
                    output_enabled,
                    Seq::empty(),
                    Seq::empty(),
                ) == spec_build(
                    remaining@,
                    executor.bouncer,
                    cap,
                    executor.block_full,
                    fail_on_err,
                    output_enabled,
                    exec_info_entries(execution_infos),
                    streamed@,
                ),
            ensures
                executor.wf(),
                executor.block_max_capacity == self.executor.block_max_capacity,
                cap == self.executor.block_max_capacity,
                executor.closure == self.executor.closure,
                spec_build(
                    events@,
                    self.executor.bouncer,
                    cap,
                    self.executor.block_full,
                    fail_on_err,
                    output_enabled,
                    Seq::empty(),
                    Seq::empty(),
                ) == (
                    exec_info_entries(execution_infos),
                    streamed@,
                    executor.bouncer,
                    BuildTermination::Completed,
                ),
            decreases remaining@.len(),
        {
            if block_is_full {
                break ;
            }
            if remaining.len() == 0 {
                break ;
            }
            let ghost pre_events = remaining@;
            let ev = remaining.remove(0);
            proof {
                assert(remaining@ =~= pre_events.skip(1));
            }
            match ev {
                BuilderEvent::DeadlineReached => {
                    if fail_on_err {
                        return Err(
                            BlockBuilderError::FailOnError(FailOnErrorCause::DeadlineReached),
                        );
                    }
                    break ;
                },
                BuilderEvent::Abort => {
                    return Err(BlockBuilderError::Aborted);
                },
                BuilderEvent::ProviderEnd => {
                    break ;
                },
                BuilderEvent::EmptyChunk => {
                    // The provider had nothing; the real loop sleeps here.
                },
                BuilderEvent::Chunk(pairs) => {
                    let ghost pairs0 = pairs@;
                    let mut pairs = pairs;
                    let mut txs: Vec<Transaction> = Vec::new();
                    let mut sims: Vec<TxSimulation> = Vec::new();
                    while pairs.len() > 0
                        invariant
                            txs@.len() == sims@.len(),
                            txs@.len() + pairs@.len() == pairs0.len(),
                            txs@ =~= pairs0.take(txs@.len() as int).map_values(
                                |p: (Transaction, TxSimulation)| p.0,
                            ),
                            sims@ =~= pairs0.take(sims@.len() as int).map_values(
                                |p: (Transaction, TxSimulation)| p.1,
                            ),
                            pairs@ =~= pairs0.skip(txs@.len() as int),
                        decreases pairs@.len(),
                    {
                        let (tx, sim) = pairs.remove(0);
                        sims.push(sim);
                        txs.push(tx);
                        proof {
                            assert(txs@ =~= pairs0.take(txs@.len() as int).map_values(
                                |p: (Transaction, TxSimulation)| p.0,
                            ));
                            assert(sims@ =~= pairs0.take(sims@.len() as int).map_values(
                                |p: (Transaction, TxSimulation)| p.1,
                            ));
                        }
                    }
                    proof {
                        assert(txs@ =~= pairs0.map_values(
                            |p: (Transaction, TxSimulation)| p.0,
                        ));
                        assert(sims@ =~= pairs0.map_values(
                            |p: (Transaction, TxSimulation)| p.1,
                        ));
                    }
                    proof {
                        lemma_executor_results_len(
                            sims@,
                            executor.bouncer,
                            cap,
                            executor.block_full,
                        );
                        lemma_collect_tracks_fullness(
                            sims@,
                            txs@,
                            executor.bouncer,
                            cap,
                            executor.block_full,
                            exec_info_entries(execution_infos),
                            streamed@,
                            output_enabled,
                            fail_on_err,
                        );
                    }
                    let results = executor.add_txs_to_block(&sims);
                    match collect_execution_results_and_stream_txs(
                        txs,
                        results,
                        &mut execution_infos,
                        output_enabled,
                        &mut streamed,
                        fail_on_err,
                    ) {
                        Ok(full) => {
                            block_is_full = full;
                            proof {
                                if full {
                                    // The executor reported the block full for
                                    // some transaction in the chunk, so its own
                                    // flag is set too.
                                    assert(executor.block_full);
                                }
                            }
                        },
                        Err(e) => {
                            return Err(e);
                        },
                    }
                },
            }
        }
        let (commitment_state_diff, visited_segments_mapping, bouncer_weights) =
            executor.close_block();
        Ok(
            BuildOutcome {
                artifacts: BlockExecutionArtifacts {
                    execution_infos,
                    commitment_state_diff,
                    visited_segments_mapping,
                    bouncer_weights,
                },
                streamed,
            },
        )
    }
}

/// The hashes of a list of transactions, in order.
pub open spec fn txs_hashes(txs: Seq<Transaction>) -> Seq<u64> {
    txs.map_values(|t: Transaction| t.spec_tx_hash().h.v)
}

/// Whether the words are pairwise distinct.
pub open spec fn distinct_u64(s: Seq<u64>) -> bool {
    forall|i: int, j: int| 0 <= i < j < s.len() ==> s[i] != s[j]
}

/// The hashes of every transaction any chunk of the event script delivers, in
/// delivery order.
pub open spec fn events_tx_hashes(events: Seq<BuilderEvent>) -> Seq<u64>
    decreases events.len(),
{
    if events.len() == 0 {
        Seq::empty()
    } else {
        (match events[0] {
            BuilderEvent::Chunk(pairs) => txs_hashes(
                pairs@.map_values(|p: (Transaction, TxSimulation)| p.0),
            ),
            _ => Seq::empty(),
        }) + events_tx_hashes(events.skip(1))
    }
}

/// Whether the hash is that of some transaction in the list.
pub open spec fn hash_among(h: u64, s: Seq<Transaction>) -> bool {
    exists|j: int| 0 <= j < s.len() && (#[trigger] s[j]).spec_tx_hash().h.v == h
}

/// Upserting a pair keeps every present key and adds the new one.
pub proof fn lemma_upsert_keys(es: Seq<(u64, TxExecutionInfo)>, k: u64, v: TxExecutionInfo)
    ensures
        forall|k2: u64|
            #[trigger] entries_have_key(entries_upsert(es, k, v), k2) <==> (entries_have_key(
                es,
                k2,
            ) || k2 == k),
{
    assert forall|k2: u64| #[trigger]
        entries_have_key(entries_upsert(es, k, v), k2) implies (entries_have_key(es, k2) || k2
        == k) by {
        let es2 = entries_upsert(es, k, v);
        let j = choose|j: int| 0 <= j < es2.len() && (#[trigger] es2[j]).0 == k2;
        if entries_have_key(es, k) {
            let idx = entries_key_index(es, k);
            if j == idx {
            } else {
                assert(es2[j] == es[j]);
            }
        } else {
            if j < es.len() {
                assert(es2[j] == es[j]);
            } else {
                assert(es2[j] == (k, v));
            }
        }
    }
    assert forall|k2: u64|
        (entries_have_key(es, k2) || k2 == k) implies #[trigger] entries_have_key(
        entries_upsert(es, k, v),
        k2,
    ) by {
        let es2 = entries_upsert(es, k, v);
        if entries_have_key(es, k) {
            let idx = entries_key_index(es, k);
            assert(0 <= idx < es.len() && es[idx].0 == k);
            if k2 == k {
                assert(es2[idx].0 == k);
            } else {
                let j = choose|j: int| 0 <= j < es.len() && (#[trigger] es[j]).0 == k2;
                assert(j != idx);
                assert(es2[j] == es[j]);
            }
        } else {
            if k2 == k {
                assert(es2[es.len() as int].0 == k);
            } else {
                let j = choose|j: int| 0 <= j < es.len() && (#[trigger] es[j]).0 == k2;
                assert(es2[j] == es[j]);
            }
        }
    }
}

/// Folding one chunk keeps the stream's promise: every streamed transaction is
/// recorded under its hash, no hash is streamed twice, and nothing is streamed
/// that did not come from the stream so far or from the chunk.
pub proof fn lemma_collect_stream(
    txs: Seq<Transaction>,
    results: Seq<Result<TxExecutionInfo, TransactionExecutorError>>,
    infos: Seq<(u64, TxExecutionInfo)>,
    streamed: Seq<Transaction>,
    output_enabled: bool,
    fail_on_err: bool,
)
    requires
        forall|i: int|
            0 <= i < streamed.len() ==> entries_have_key(
                infos,
                (#[trigger] streamed[i]).spec_tx_hash().h.v,
            ),
        distinct_u64(txs_hashes(streamed)),
        distinct_u64(txs_hashes(txs)),
        forall|i: int, j: int|
            0 <= i < streamed.len() && 0 <= j < txs.len() ==> (
            #[trigger] streamed[i]).spec_tx_hash().h.v != (#[trigger] txs[j]).spec_tx_hash().h.v,
    ensures
        ({
            let (infos2, streamed2, out) = spec_collect(
                txs,
                results,
                infos,
                streamed,
                output_enabled,
                fail_on_err,
            );
            &&& forall|i: int|
                0 <= i < streamed2.len() ==> entries_have_key(
                    infos2,
                    (#[trigger] streamed2[i]).spec_tx_hash().h.v,
                )
            &&& distinct_u64(txs_hashes(streamed2))
            &&& forall|i: int|
                0 <= i < streamed2.len() ==> hash_among(
                    (#[trigger] streamed2[i]).spec_tx_hash().h.v,
                    streamed,
                ) || hash_among(streamed2[i].spec_tx_hash().h.v, txs)
        }),
    decreases txs.len(),
{
    if txs.len() == 0 {
        assert forall|i: int| 0 <= i < streamed.len() implies hash_among(
            (#[trigger] streamed[i]).spec_tx_hash().h.v,
            streamed,
        ) by {
            assert(streamed[i].spec_tx_hash().h.v == streamed[i].spec_tx_hash().h.v);
        }
    } else {
        match results[0] {
            Ok(info) => {
                let h = txs[0].spec_tx_hash().h.v;
                let infos_next = entries_upsert(infos, h, info);
                let streamed_next = if output_enabled {
                    streamed.push(txs[0])
                } else {
                    streamed
                };
                lemma_upsert_keys(infos, h, info);
                assert forall|i: int|
                    0 <= i < streamed_next.len() implies entries_have_key(
                    infos_next,
                    (#[trigger] streamed_next[i]).spec_tx_hash().h.v,
                ) by {
                    if i < streamed.len() {
                        assert(streamed_next[i] == streamed[i]);
                    } else {
                        assert(streamed_next[i] == txs[0]);
                    }
                }
                assert(distinct_u64(txs_hashes(streamed_next))) by {
                    assert forall|i: int, j: int|
                        0 <= i < j < txs_hashes(streamed_next).len() implies txs_hashes(
                        streamed_next,
                    )[i] != txs_hashes(streamed_next)[j] by {
                        if j < streamed.len() {
                            assert(streamed_next[i] == streamed[i]);
                            assert(streamed_next[j] == streamed[j]);
                            assert(txs_hashes(streamed)[i] != txs_hashes(streamed)[j]);
                        } else {
                            assert(output_enabled);
                            assert(streamed_next[j] == txs[0]);
                            assert(streamed_next[i] == streamed[i]);
                        }
                    }
                }
                assert forall|i: int, j: int|
                    0 <= i < streamed_next.len() && 0 <= j < txs.skip(1).len() implies (
                #[trigger] streamed_next[i]).spec_tx_hash().h.v != (#[trigger] txs.skip(
                    1,
                )[j]).spec_tx_hash().h.v by {
                    assert(txs.skip(1)[j] == txs[j + 1]);
                    if i < streamed.len() {
                        assert(streamed_next[i] == streamed[i]);
                    } else {
                        assert(streamed_next[i] == txs[0]);
                        assert(txs_hashes(txs)[0] != txs_hashes(txs)[j + 1]);
                    }
                }
                assert(distinct_u64(txs_hashes(txs.skip(1)))) by {
                    assert forall|i: int, j: int|
                        0 <= i < j < txs.skip(1).len() implies txs_hashes(txs.skip(1))[i]
                        != txs_hashes(txs.skip(1))[j] by {
                        assert(txs.skip(1)[i] == txs[i + 1]);
                        assert(txs.skip(1)[j] == txs[j + 1]);
                        assert(txs_hashes(txs)[i + 1] != txs_hashes(txs)[j + 1]);
                    }
                }
                lemma_collect_stream(
                    txs.skip(1),
                    results.skip(1),
                    infos_next,
                    streamed_next,
                    output_enabled,
                    fail_on_err,
                );
                let (infos2, streamed2, out) = spec_collect(
                    txs,
                    results,
                    infos,
                    streamed,
                    output_enabled,
                    fail_on_err,
                );
                assert forall|i: int|
                    0 <= i < streamed2.len() implies hash_among(
                    (#[trigger] streamed2[i]).spec_tx_hash().h.v,
                    streamed,
                ) || hash_among(streamed2[i].spec_tx_hash().h.v, txs) by {
                    let h = streamed2[i].spec_tx_hash().h.v;
                    if hash_among(h, streamed_next) {
                        let j = choose|j: int|
                            0 <= j < streamed_next.len() && (
                            #[trigger] streamed_next[j]).spec_tx_hash().h.v == h;
                        if j < streamed.len() {
                            assert(streamed_next[j] == streamed[j]);
                        } else {
                            assert(streamed_next[j] == txs[0]);
                        }
                    } else {
                        assert(hash_among(h, txs.skip(1)));
                        let j = choose|j: int|
                            0 <= j < txs.skip(1).len() && (#[trigger] txs.skip(
                                1,
                            )[j]).spec_tx_hash().h.v == h;
                        assert(txs.skip(1)[j] == txs[j + 1]);
                    }
                }
            },
            Err(TransactionExecutorError::BlockFull) => {
                assert forall|i: int| 0 <= i < streamed.len() implies hash_among(
                    (#[trigger] streamed[i]).spec_tx_hash().h.v,
                    streamed,
                ) by {
                    assert(streamed[i].spec_tx_hash().h.v == streamed[i].spec_tx_hash().h.v);
                }
            },
            Err(TransactionExecutorError::TransactionFailed) => {
                if fail_on_err {
                    assert forall|i: int| 0 <= i < streamed.len() implies hash_among(
                        (#[trigger] streamed[i]).spec_tx_hash().h.v,
                        streamed,
                    ) by {
                        assert(streamed[i].spec_tx_hash().h.v == streamed[i].spec_tx_hash().h.v);
                    }
                }
                if !fail_on_err {
                    assert(distinct_u64(txs_hashes(txs.skip(1)))) by {
                        assert forall|i: int, j: int|
                            0 <= i < j < txs.skip(1).len() implies txs_hashes(txs.skip(1))[i]
                            != txs_hashes(txs.skip(1))[j] by {
                            assert(txs.skip(1)[i] == txs[i + 1]);
                            assert(txs.skip(1)[j] == txs[j + 1]);
                            assert(txs_hashes(txs)[i + 1] != txs_hashes(txs)[j + 1]);
                        }
                    }
                    assert forall|i: int, j: int|
                        0 <= i < streamed.len() && 0 <= j < txs.skip(1).len() implies (
                    #[trigger] streamed[i]).spec_tx_hash().h.v != (#[trigger] txs.skip(
                        1,
                    )[j]).spec_tx_hash().h.v by {
                        assert(txs.skip(1)[j] == txs[j + 1]);
                    }
                    lemma_collect_stream(
                        txs.skip(1),
                        results.skip(1),
                        infos,
                        streamed,
                        output_enabled,
                        fail_on_err,
                    );
                    let (infos2, streamed2, out) = spec_collect(
                        txs,
                        results,
                        infos,
                        streamed,
                        output_enabled,
                        fail_on_err,
                    );
                    assert forall|i: int|
                        0 <= i < streamed2.len() implies hash_among(
                        (#[trigger] streamed2[i]).spec_tx_hash().h.v,
                        streamed,
                    ) || hash_among(streamed2[i].spec_tx_hash().h.v, txs) by {
                        let h = streamed2[i].spec_tx_hash().h.v;
                        if hash_among(h, txs.skip(1)) {
                            let j = choose|j: int|
                                0 <= j < txs.skip(1).len() && (#[trigger] txs.skip(
                                    1,
                                )[j]).spec_tx_hash().h.v == h;
                            assert(txs.skip(1)[j] == txs[j + 1]);
                        }
                    }
                }
            },
        }
    }
}

/// A distinct concatenation has distinct halves, disjoint from one another.
pub proof fn lemma_distinct_concat(a: Seq<u64>, b: Seq<u64>)
    requires
        distinct_u64(a + b),
    ensures
        distinct_u64(a),
        distinct_u64(b),
        forall|i: int, j: int| 0 <= i < a.len() && 0 <= j < b.len() ==> a[i] != b[j],
{
    let c = a + b;
    assert forall|i: int, j: int| 0 <= i < j < a.len() implies a[i] != a[j] by {
        assert(c[i] == a[i] && c[j] == a[j]);
    }
    assert forall|i: int, j: int| 0 <= i < j < b.len() implies b[i] != b[j] by {
        assert(c[a.len() + i] == b[i] && c[a.len() + j] == b[j]);
    }
    assert forall|i: int, j: int|
        0 <= i < a.len() && 0 <= j < b.len() implies a[i] != b[j] by {
        assert(c[i] == a[i] && c[a.len() + j] == b[j]);
    }
}

/// Every transaction a build accepts is recorded under its hash, and no
/// transaction is streamed twice, as long as the provider delivers each
/// transaction hash once.
pub proof fn lemma_build_stream(
    events: Seq<BuilderEvent>,
    bouncer: BouncerWeights,
    cap: BouncerWeights,
    full: bool,
    fail_on_err: bool,
    output_enabled: bool,
    infos: Seq<(u64, TxExecutionInfo)>,
    streamed: Seq<Transaction>,
)
    requires
        forall|i: int|
            0 <= i < streamed.len() ==> entries_have_key(
                infos,
                (#[trigger] streamed[i]).spec_tx_hash().h.v,
            ),
        distinct_u64(txs_hashes(streamed)),
        distinct_u64(events_tx_hashes(events)),
        forall|i: int, j: int|
            0 <= i < streamed.len() && 0 <= j < events_tx_hashes(events).len() ==> (
            #[trigger] streamed[i]).spec_tx_hash().h.v != #[trigger] events_tx_hashes(events)[j],
    ensures
        ({
            let (infos_s, streamed_s, _w, _t) = spec_build(
                events,
                bouncer,
                cap,
                full,
                fail_on_err,
                output_enabled,
                infos,
                streamed,
            );
            &&& forall|i: int|
                0 <= i < streamed_s.len() ==> entries_have_key(
                    infos_s,
                    (#[trigger] streamed_s[i]).spec_tx_hash().h.v,
                )
            &&& distinct_u64(txs_hashes(streamed_s))
        }),
    decreases events.len(),
{
    if full || events.len() == 0 {
    } else {
        let rest_hashes = events_tx_hashes(events.skip(1));
        match events[0] {
            BuilderEvent::DeadlineReached => {},
            BuilderEvent::Abort => {},
            BuilderEvent::ProviderEnd => {},
            BuilderEvent::EmptyChunk => {
                assert(events_tx_hashes(events) =~= rest_hashes);
                lemma_build_stream(
                    events.skip(1),
                    bouncer,
                    cap,
                    full,
                    fail_on_err,
                    output_enabled,
                    infos,
                    streamed,
                );
            },
            BuilderEvent::Chunk(pairs) => {
                let txs = pairs@.map_values(|p: (Transaction, TxSimulation)| p.0);
                let sims = pairs@.map_values(|p: (Transaction, TxSimulation)| p.1);
                let chunk_hashes = txs_hashes(txs);
                assert(events_tx_hashes(events) == chunk_hashes + rest_hashes);
                lemma_distinct_concat(chunk_hashes, rest_hashes);
                assert forall|i: int, j: int|
                    0 <= i < streamed.len() && 0 <= j < txs.len() implies (
                #[trigger] streamed[i]).spec_tx_hash().h.v != (
                #[trigger] txs[j]).spec_tx_hash().h.v by {
                    assert(events_tx_hashes(events)[j] == chunk_hashes[j]);
                }
                let (results, b2, f2) = spec_executor_results(sims, bouncer, cap, full);
                lemma_collect_stream(txs, results, infos, streamed, output_enabled, fail_on_err);
                let (infos2, streamed2, out) = spec_collect(
                    txs,
                    results,
                    infos,
                    streamed,
                    output_enabled,
                    fail_on_err,
                );
                match out {
                    ChunkOutcome::Proceed => {
                        assert forall|i: int, j: int|
                            0 <= i < streamed2.len() && 0 <= j < events_tx_hashes(
                                events.skip(1),
                            ).len() implies (#[trigger] streamed2[i]).spec_tx_hash().h.v
                            != #[trigger] events_tx_hashes(events.skip(1))[j] by {
                            let h = streamed2[i].spec_tx_hash().h.v;
                            if hash_among(h, streamed) {
                                let m = choose|m: int|
                                    0 <= m < streamed.len() && (
                                    #[trigger] streamed[m]).spec_tx_hash().h.v == h;
                                assert(events_tx_hashes(events)[chunk_hashes.len() + j]
                                    == rest_hashes[j]);
                            } else {
                                assert(hash_among(h, txs));
                                let m = choose|m: int|
                                    0 <= m < txs.len() && (#[trigger] txs[m]).spec_tx_hash().h.v
                                        == h;
                                assert(chunk_hashes[m] == h);
                            }
                        }
                        lemma_build_stream(
                            events.skip(1),
                            b2,
                            cap,
                            f2,
                            fail_on_err,
                            output_enabled,
                            infos2,
                            streamed2,
                        );
                    },
                    ChunkOutcome::Full => {},
                    ChunkOutcome::FailBlockFull => {},
                    ChunkOutcome::FailTxFailed => {},
                }
            },
        }
    }
}

/// Every transaction a fresh build accepts is recorded in the block's
/// execution map under its hash, and appears at most once in the output
/// stream, as long as the provider delivers each transaction hash once.
pub proof fn lemma_accepted_transactions_unique(
    events: Seq<BuilderEvent>,
    cap: BouncerWeights,
    fail_on_err: bool,
    output_enabled: bool,
)
    requires
        distinct_u64(events_tx_hashes(events)),
    ensures
        ({
            let (infos_s, streamed_s, _w, _t) = spec_build(
                events,
                BouncerWeights::spec_zeroed(),
                cap,
                false,
                fail_on_err,
                output_enabled,
                Seq::empty(),
                Seq::empty(),
            );
            &&& forall|i: int|
                0 <= i < streamed_s.len() ==> entries_have_key(
                    infos_s,
                    (#[trigger] streamed_s[i]).spec_tx_hash().h.v,
                )
            &&& forall|i: int, j: int|
                0 <= i < j < streamed_s.len() ==> (#[trigger] streamed_s[i]).spec_tx_hash().h.v
                    != (#[trigger] streamed_s[j]).spec_tx_hash().h.v
        }),
{
    lemma_build_stream(
        events,
        BouncerWeights::spec_zeroed(),
        cap,
        false,
        fail_on_err,
        output_enabled,
        Seq::empty(),
        Seq::empty(),
    );
    let (infos_s, streamed_s, _w, _t) = spec_build(
        events,
        BouncerWeights::spec_zeroed(),
        cap,
        false,
        fail_on_err,
        output_enabled,
        Seq::empty(),
        Seq::empty(),
    );
    assert forall|i: int, j: int|
        0 <= i < j < streamed_s.len() implies (#[trigger] streamed_s[i]).spec_tx_hash().h.v != (
    #[trigger] streamed_s[j]).spec_tx_hash().h.v by {
        assert(txs_hashes(streamed_s)[i] == streamed_s[i].spec_tx_hash().h.v);
        assert(txs_hashes(streamed_s)[j] == streamed_s[j].spec_tx_hash().h.v);
    }
}

/// Configuration of the block builder.
#[derive(Clone, Copy, Debug, PartialEq, Eq, Structural)]
pub struct BlockBuilderConfig {
    pub bouncer_config: BouncerConfig,
    pub tx_chunk_size: usize,
}

impl Default for BlockBuilderConfig {
    fn default() -> (r: Self)
        ensures
            r.tx_chunk_size == 100,
    {
        BlockBuilderConfig {
            bouncer_config: BouncerConfig {
                block_max_capacity: BouncerWeights {
                    l1_gas: u64::MAX,
                    message_segment_length: u64::MAX,
                    n_events: u64::MAX,
                    n_steps: u64::MAX,
                    state_diff_size: u64::MAX,
                },
            },
            tx_chunk_size: 100,
        }
    }
}

/// A block hash together with its height.
#[derive(Clone, Copy, Debug, PartialEq, Eq, Structural)]
pub struct BlockHashAndNumber {
    pub hash: BlockHash,
    pub number: BlockNumber,
}

/// The information a block is built against.
#[derive(Clone, Copy, Debug, PartialEq, Eq, Structural)]
pub struct BlockInfo {
    pub block_number: BlockNumber,
    pub timestamp: u64,
}

/// What a new block is built from: its block info and, past the stored-hash
/// buffer, the retrospective block hash.
#[derive(Clone, Copy, Debug, PartialEq, Eq, Structural)]
pub struct BlockMetadata {
    pub block_info: BlockInfo,
    pub retrospective_block_hash: Option<BlockHashAndNumber>,
}

/// Creates block builders for the batcher, against the configured capacity.
#[derive(Clone, Copy, Debug, PartialEq, Eq, Structural)]
pub struct BlockBuilderFactory {
    pub block_builder_config: BlockBuilderConfig,
}

impl BlockBuilderFactory {
    /// Creates a block builder for one proposal: a fresh executor over the
    /// configured capacity, with the closure data the execution layer will
    /// produce for this block.
    pub fn create_block_builder(
        &self,
        block_metadata: BlockMetadata,
        execution_params: BlockBuilderExecutionParams,
        closure: BlockClosureData,
        output_enabled: bool,
    ) -> (r: BlockBuilder)
        ensures
            r.executor.bouncer == BouncerWeights::spec_zeroed(),
            r.executor.block_max_capacity
                == self.block_builder_config.bouncer_config.block_max_capacity,
            !r.executor.block_full,
            r.executor.closure == closure,
            r.executor.wf(),
            r.output_enabled == output_enabled,
            r.tx_chunk_size == self.block_builder_config.tx_chunk_size,
            r.execution_params == execution_params,
    {
        let _ = block_metadata;
        let executor = TransactionExecutor::new(
            self.block_builder_config.bouncer_config.block_max_capacity,
            closure,
        );
        BlockBuilder::new(
            executor,
            output_enabled,
            self.block_builder_config.tx_chunk_size,
            execution_params,
        )
    }
}

} // verus!
