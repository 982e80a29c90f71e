//! The batcher facade: drives proposals over one active height.
//!
//! The facade owns the ledger model (the storage height and the committed
//! diffs), the record of mempool notifications, the proposal manager, the
//! streams of a validation in progress, and the output streams of proposals
//! built locally. Starting a height checks it against storage; building and
//! validating run against plans whose outside parts — the transaction
//! executions and the commitment computed over the state diff — enter as
//! arguments; a decision commits exactly one height and advances storage by
//! one, so decisions are committed in strictly increasing height order.

use indexmap::IndexMap;
use vstd::prelude::*;

use crate::batcher_types::{
    BatcherConfig, BatcherError, CommitBlockArgs, DecisionReachedInput, DecisionReachedResponse,
    GetHeightResponse, GetProposalContent, GetProposalContentInput, GetProposalContentResponse,
    ProposalCommitment, ProposalId, ProposalOutput, ProposeBlockInput, SendProposalContent,
    SendProposalContentInput, SendProposalContentResponse, ProposalStatus, StartHeightInput,
    SyncBlock, ValidateBlockInput,
};
use crate::block_builder::{
    collect_execution_results_and_stream_txs, spec_build, spec_collect, spec_executor_results,
    BlockBuilderError, BlockBuilderExecutionParams, BlockBuilderFactory, BlockClosureData,
    BlockInfo, BlockMetadata, BuilderEvent, ChunkOutcome, FailOnErrorCause, TransactionExecutor,
    TxSimulation,
};
use crate::exec_map::{exec_info_entries, exec_info_map_new};
use crate::execution::TxExecutionInfo;
use crate::proposal_manager::{GenerateProposalError, ProposalManager};
use crate::transaction::Transaction;
use crate::types::{
    clone_state_diff, copy_vec, sd_eq, BlockNumber, Felt, ThinStateDiff, TransactionHash,
};

verus! {

/// Blocks at or past this height require a retrospective block hash as input.
pub const STORED_BLOCK_HASH_BUFFER: u64 = 10;

/// The plan for building a proposal locally: the build-loop events (what the
/// provider, the clock and the abort channel deliver, with each transaction's
/// execution), what the executor reports at closure, and the commitment the
/// external cryptography computes over the resulting diff.
#[derive(Debug, PartialEq, Eq)]
pub struct ProposalPlan {
    pub events: Vec<BuilderEvent>,
    pub closure: BlockClosureData,
    pub commitment: ProposalCommitment,
}

/// The plan for validating a streamed proposal: the execution outcome of each
/// transaction in arrival order, the closure data, and the commitment.
#[derive(Debug, PartialEq, Eq)]
pub struct ValidationPlan {
    pub sims: Vec<TxSimulation>,
    pub closure: BlockClosureData,
    pub commitment: ProposalCommitment,
}

/// An open validation: its executor, the records so far, the adjudications
/// not yet consumed, and the commitment promised at the end.
#[derive(Debug, PartialEq, Eq)]
pub struct ValidationStream {
    pub proposal_id: ProposalId,
    pub executor: TransactionExecutor,
    pub infos: IndexMap<u64, TxExecutionInfo>,
    pub remaining_sims: Vec<TxSimulation>,
    pub commitment: ProposalCommitment,
}

/// The not-yet-fetched output of a locally built proposal.
#[derive(Debug, PartialEq, Eq)]
pub struct OutStream {
    pub proposal_id: ProposalId,
    pub pending: Vec<Transaction>,
    pub commitment: ProposalCommitment,
}

/// The adjudications taken for a batch of `n` arriving transactions: the front
/// of the remaining plan, padded with failures once the plan is exhausted.
pub open spec fn spec_take_sims(remaining: Seq<TxSimulation>, n: int) -> Seq<TxSimulation> {
    Seq::new(
        n as nat,
        |i: int|
            if i < remaining.len() {
                remaining[i]
            } else {
                TxSimulation::Failed
            },
    )
}

/// What remains of the plan after a batch of `n`.
pub open spec fn spec_drop_sims(remaining: Seq<TxSimulation>, n: int) -> Seq<TxSimulation> {
    if n <= remaining.len() {
        remaining.skip(n)
    } else {
        Seq::empty()
    }
}

/// The batcher.
#[derive(Debug, PartialEq, Eq)]
pub struct Batcher {
    pub config: BatcherConfig,
    pub storage_height: BlockNumber,
    pub committed: Vec<(BlockNumber, ThinStateDiff)>,
    pub mempool_commits: Vec<CommitBlockArgs>,
    pub active_height: Option<BlockNumber>,
    pub block_builder_factory: BlockBuilderFactory,
    pub proposal_manager: ProposalManager,
    pub validate_streams: Vec<ValidationStream>,
    pub outstreams: Vec<OutStream>,
}

impl Batcher {
    /// The facade's invariant: proposal bookkeeping is consistent, at most one
    /// validation is open and it is the manager's active proposal, output
    /// streams carry distinct ids, and the committed heights grow strictly,
    /// all below the storage height.
    pub open spec fn wf(&self) -> bool {
        &&& self.proposal_manager.wf()
        &&& self.validate_streams@.len() <= 1
        &&& (self.validate_streams@.len() == 1 ==> {
            &&& self.proposal_manager.active_proposal == Some(
                self.validate_streams@[0].proposal_id,
            )
            &&& !self.proposal_manager.spec_has_completed(self.validate_streams@[0].proposal_id)
            &&& self.validate_streams@[0].executor.wf()
        })
        &&& (self.validate_streams@.len() == 0 ==> self.proposal_manager.active_proposal is None)
        &&& (forall|i: int, j: int|
            0 <= i < j < self.outstreams@.len() ==> (#[trigger] self.outstreams@[i]).proposal_id
                != (#[trigger] self.outstreams@[j]).proposal_id)
        &&& (forall|i: int, j: int|
            0 <= i < j < self.committed@.len() ==> (#[trigger] self.committed@[i]).0.n < (
            #[trigger] self.committed@[j]).0.n)
        &&& (self.committed@.len() > 0 ==> self.committed@.last().0.n < self.storage_height.n)
    }

    /// Whether a validation stream for the id is open.
    pub open spec fn spec_has_stream(&self, id: ProposalId) -> bool {
        self.validate_streams@.len() == 1 && self.validate_streams@[0].proposal_id == id
    }

    /// Whether an output stream for the id is open.
    pub open spec fn spec_has_outstream(&self, id: ProposalId) -> bool {
        exists|i: int|
            0 <= i < self.outstreams@.len() && (#[trigger] self.outstreams@[i]).proposal_id == id
    }

    pub fn new(
        config: BatcherConfig,
        storage_height: BlockNumber,
        block_builder_factory: BlockBuilderFactory,
    ) -> (r: Batcher)
        ensures
            r.wf(),
            r.config == config,
            r.storage_height == storage_height,
            r.committed@.len() == 0,
            r.mempool_commits@.len() == 0,
            r.active_height is None,
            r.block_builder_factory == block_builder_factory,
            r.proposal_manager.active_proposal is None,
            r.proposal_manager.completed@.len() == 0,
            r.validate_streams@.len() == 0,
            r.outstreams@.len() == 0,
    {
        Batcher {
            config,
            storage_height,
            committed: Vec::new(),
            mempool_commits: Vec::new(),
            active_height: None,
            block_builder_factory,
            proposal_manager: ProposalManager::new(),
            validate_streams: Vec::new(),
            outstreams: Vec::new(),
        }
    }

    /// The height the storage has reached.
    pub fn get_height(&self) -> (r: GetHeightResponse)
        ensures
            r.height == self.storage_height,
    {
        GetHeightResponse { height: self.storage_height }
    }

    /// Enters a height: the height must be exactly the storage height (a lower
    /// one has already passed; a higher one means storage is not synced), and
    /// no height may be in progress. On success every proposal of the previous
    /// height is forgotten.
    pub fn start_height(&mut self, input: StartHeightInput) -> (r: Result<(), BatcherError>)
        requires
            old(self).wf(),
        ensures
            final (self).wf(),
            final (self).config == old(self).config,
            final (self).block_builder_factory == old(self).block_builder_factory,
            input.height.n < old(self).storage_height.n ==> r == Err::<(), BatcherError>(
                BatcherError::HeightAlreadyPassed {
                    storage_height: old(self).storage_height,
                    requested_height: input.height,
                },
            ),
            input.height.n > old(self).storage_height.n ==> r == Err::<(), BatcherError>(
                BatcherError::StorageNotSynced {
                    storage_height: old(self).storage_height,
                    requested_height: input.height,
                },
            ),
            input.height.n == old(self).storage_height.n && old(self).active_height is Some ==> r
                == Err::<(), BatcherError>(BatcherError::HeightInProgress),
            r is Ok <==> (input.height.n == old(self).storage_height.n && old(self).active_height
                is None),
            r is Ok ==> {
                &&& final (self).active_height == Some(input.height)
                &&& final (self).proposal_manager.completed@.len() == 0
                &&& final (self).validate_streams@.len() == 0
                &&& final (self).outstreams@.len() == 0
                &&& final (self).storage_height == old(self).storage_height
                &&& final (self).committed == old(self).committed
                &&& final (self).mempool_commits == old(self).mempool_commits
            },
            r is Err ==> *final (self) == *old(self),
    {
        if input.height.n < self.storage_height.n {
            return Err(
                BatcherError::HeightAlreadyPassed {
                    storage_height: self.storage_height,
                    requested_height: input.height,
                },
            );
        }
        if input.height.n > self.storage_height.n {
            return Err(
                BatcherError::StorageNotSynced {
                    storage_height: self.storage_height,
                    requested_height: input.height,
                },
            );
        }
        if self.active_height.is_some() {
            return Err(BatcherError::HeightInProgress);
        }
        self.proposal_manager.reset();
        self.validate_streams = Vec::new();
        self.outstreams = Vec::new();
        self.active_height = Some(input.height);
        Ok(())
    }

    /// Builds a proposal locally. Requires an active height; at heights from
    /// the stored-hash buffer on, a retrospective block hash must be supplied.
    /// The block is built eagerly from the plan: on a completed build the
    /// result is recorded under the proposal id and the streamed transactions
    /// become available to `get_proposal_content`; a failed build records the
    /// failure and opens no stream.
    pub fn propose_block(&mut self, input: ProposeBlockInput, plan: ProposalPlan) -> (r: Result<
        (),
        BatcherError,
    >)
        requires
            old(self).wf(),
        ensures
            final (self).wf(),
            old(self).active_height is None ==> r == Err::<(), BatcherError>(
                BatcherError::NoActiveHeight,
            ) && *final (self) == *old(self),
            old(self).active_height matches Some(h) && h.n >= STORED_BLOCK_HASH_BUFFER
                && input.retrospective_block_hash is None ==> r == Err::<(), BatcherError>(
                BatcherError::MissingRetrospectiveBlockHash,
            ) && *final (self) == *old(self),
            final (self).storage_height == old(self).storage_height,
            final (self).committed == old(self).committed,
            final (self).active_height == old(self).active_height,
            final (self).config == old(self).config,
            final (self).block_builder_factory == old(self).block_builder_factory,
            r is Ok <==> (old(self).active_height matches Some(h) && (h.n
                < STORED_BLOCK_HASH_BUFFER || input.retrospective_block_hash is Some) && old(
                self,
            ).proposal_manager.active_proposal is None && !old(
                self,
            ).proposal_manager.spec_has_completed(input.proposal_id)),
            r is Ok ==> ({
                let (infos_s, streamed_s, weights_s, term) = spec_build(
                    plan.events@,
                    crate::block_builder::BouncerWeights::spec_zeroed(),
                    old(self).block_builder_factory.block_builder_config.bouncer_config.block_max_capacity,
                    false,
                    false,
                    true,
                    Seq::empty(),
                    Seq::empty(),
                );
                &&& final (self).proposal_manager.spec_has_completed(input.proposal_id)
                &&& (term is Completed ==> {
                    &&& final (self).proposal_manager.spec_completed_result(input.proposal_id)
                        matches Ok(output)
                    &&& final (self).proposal_manager.spec_completed_result(input.proposal_id)
                        matches Ok(output) ==> {
                        &&& output.commitment == plan.commitment
                        &&& sd_eq(&output.state_diff, &plan.closure.state_diff)
                        &&& output.tx_hashes@ == infos_s.map_values(
                            |e: (u64, TxExecutionInfo)| TransactionHash { h: Felt { v: e.0 } },
                        )
                        &&& output.nonces@ == plan.closure.state_diff.nonces@
                    }
                    &&& final (self).spec_has_outstream(input.proposal_id)
                    &&& exists|i: int|
                        0 <= i < final (self).outstreams@.len()
                            && (#[trigger] final (self).outstreams@[i]).proposal_id
                            == input.proposal_id
                            && final (self).outstreams@[i].pending@ == streamed_s
                            && final (self).outstreams@[i].commitment == plan.commitment
                })
                &&& (!(term is Completed) ==> final (self).proposal_manager.spec_completed_result(
                    input.proposal_id,
                ) is Err && !final (self).spec_has_outstream(input.proposal_id))
            }),
    {
        let height = match self.active_height {
            Some(h) => h,
            None => {
                return Err(BatcherError::NoActiveHeight);
            },
        };
        if height.n >= STORED_BLOCK_HASH_BUFFER && input.retrospective_block_hash.is_none() {
            return Err(BatcherError::MissingRetrospectiveBlockHash);
        }
        match self.proposal_manager.begin_proposal(input.proposal_id) {
            Ok(()) => {},
            Err(GenerateProposalError::AlreadyGeneratingProposal) => {
                return Err(
                    BatcherError::AnotherProposalInProgress { proposal_id: input.proposal_id },
                );
            },
            Err(GenerateProposalError::ProposalAlreadyExists { proposal_id }) => {
                return Err(BatcherError::ProposalAlreadyExists { proposal_id });
            },
        }
        let builder = self.block_builder_factory.create_block_builder(
            BlockMetadata {
                block_info: BlockInfo { block_number: height, timestamp: 0 },
                retrospective_block_hash: input.retrospective_block_hash,
            },
            BlockBuilderExecutionParams { fail_on_err: false },
            plan.closure,
            true,
        );
        match builder.build_block(plan.events) {
            Ok(outcome) => {
                let tx_hashes = exec_map_hash_keys(&outcome.artifacts.execution_infos);
                let nonces = copy_vec(&outcome.artifacts.commitment_state_diff.nonces);
                let output = ProposalOutput {
                    commitment: plan.commitment,
                    state_diff: outcome.artifacts.commitment_state_diff,
                    tx_hashes,
                    nonces,
                };
                self.proposal_manager.complete_proposal(input.proposal_id, Ok(output));
                self.remove_outstream(input.proposal_id);
                self.outstreams.push(
                    OutStream {
                        proposal_id: input.proposal_id,
                        pending: outcome.streamed,
                        commitment: plan.commitment,
                    },
                );
                proof {
                    assert(self.outstreams@[self.outstreams@.len() - 1].proposal_id
                        == input.proposal_id);
                }
            },
            Err(e) => {
                self.proposal_manager.complete_proposal(input.proposal_id, Err(e));
                self.remove_outstream(input.proposal_id);
            },
        }
        Ok(())
    }

    /// Removes the output stream of the id, if one is open.
    fn remove_outstream(&mut self, id: ProposalId)
        requires
            forall|i: int, j: int|
                0 <= i < j < old(self).outstreams@.len() ==> (#[trigger] old(self).outstreams@[i]).proposal_id != (#[trigger] old(self).outstreams@[j]).proposal_id,
        ensures
            !final (self).spec_has_outstream(id),
            forall|i: int, j: int|
                0 <= i < j < final (self).outstreams@.len() ==> (#[trigger] final (self).outstreams@[i]).proposal_id != (#[trigger] final (self).outstreams@[j]).proposal_id,
            final (self).proposal_manager == old(self).proposal_manager,
            final (self).validate_streams == old(self).validate_streams,
            final (self).committed == old(self).committed,
            final (self).mempool_commits == old(self).mempool_commits,
            final (self).storage_height == old(self).storage_height,
            final (self).active_height == old(self).active_height,
            final (self).config == old(self).config,
            final (self).block_builder_factory == old(self).block_builder_factory,
    {
        let mut idx_found: Option<usize> = None;
        let mut i: usize = 0;
        while i < self.outstreams.len()
            invariant
                0 <= i <= self.outstreams@.len(),
                *self == *old(self),
                idx_found matches Some(k) ==> 0 <= k < i && self.outstreams@[k as int].proposal_id
                    == id,
                idx_found is None ==> forall|k: int|
                    0 <= k < i ==> (#[trigger] self.outstreams@[k]).proposal_id != id,
            decreases self.outstreams@.len() - i,
        {
            if idx_found.is_none() && self.outstreams[i].proposal_id == id {
                idx_found = Some(i);
            }
            i += 1;
        }
        match idx_found {
            Some(idx) => {
                let ghost pre = self.outstreams@;
                self.outstreams.remove(idx);
                proof {
                    let es = self.outstreams@;
                    assert(es =~= pre.subrange(0, idx as int) + pre.subrange(
                        idx + 1,
                        pre.len() as int,
                    ));
                    assert forall|k: int| 0 <= k < es.len() implies (#[trigger] es[k]).proposal_id
                        != id by {
                        if k < idx {
                            assert(es[k] == pre[k]);
                        } else {
                            assert(es[k] == pre[k + 1]);
                        }
                    }
                    assert forall|k1: int, k2: int|
                        0 <= k1 < k2 < es.len() implies (#[trigger] es[k1]).proposal_id != (
                    #[trigger] es[k2]).proposal_id by {
                        let m1 = if k1 < idx { k1 } else { k1 + 1 };
                        let m2 = if k2 < idx { k2 } else { k2 + 1 };
                        assert(es[k1] == pre[m1]);
                        assert(es[k2] == pre[m2]);
                    }
                }
            },
            None => {},
        }
    }

    /// Opens a validation for a proposal that will be streamed in. Requires an
    /// active height and, past the stored-hash buffer, a retrospective block
    /// hash. Content then arrives through `send_proposal_content`.
    pub fn validate_block(&mut self, input: ValidateBlockInput, plan: ValidationPlan) -> (r:
        Result<(), BatcherError>)
        requires
            old(self).wf(),
        ensures
            final (self).wf(),
            old(self).active_height is None ==> r == Err::<(), BatcherError>(
                BatcherError::NoActiveHeight,
            ) && *final (self) == *old(self),
            old(self).active_height matches Some(h) && h.n >= STORED_BLOCK_HASH_BUFFER
                && input.retrospective_block_hash is None ==> r == Err::<(), BatcherError>(
                BatcherError::MissingRetrospectiveBlockHash,
            ) && *final (self) == *old(self),
            r is Ok <==> (old(self).active_height matches Some(h) && (h.n
                < STORED_BLOCK_HASH_BUFFER || input.retrospective_block_hash is Some) && old(
                self,
            ).proposal_manager.active_proposal is None && !old(
                self,
            ).proposal_manager.spec_has_completed(input.proposal_id)),
            final (self).config == old(self).config,
            final (self).block_builder_factory == old(self).block_builder_factory,
            final (self).storage_height == old(self).storage_height,
            final (self).active_height == old(self).active_height,
            r is Ok ==> {
                &&& final (self).spec_has_stream(input.proposal_id)
                &&& final (self).validate_streams@[0].remaining_sims@ == plan.sims@
                &&& final (self).validate_streams@[0].commitment == plan.commitment
                &&& final (self).validate_streams@[0].executor.block_max_capacity == old(
                    self,
                ).block_builder_factory.block_builder_config.bouncer_config.block_max_capacity
                &&& exec_info_entries(final (self).validate_streams@[0].infos) == Seq::<
                    (u64, TxExecutionInfo),
                >::empty()
                &&& final (self).validate_streams@[0].executor.bouncer
                    == crate::block_builder::BouncerWeights::spec_zeroed()
                &&& !final (self).validate_streams@[0].executor.block_full
                &&& sd_eq(
                    &final (self).validate_streams@[0].executor.closure.state_diff,
                    &plan.closure.state_diff,
                )
            },
            r is Ok ==> final (self).storage_height == old(self).storage_height && final (self).committed == old(self).committed && final (self).mempool_commits == old(self).mempool_commits,
    {
        let height = match self.active_height {
            Some(h) => h,
            None => {
                return Err(BatcherError::NoActiveHeight);
            },
        };
        if height.n >= STORED_BLOCK_HASH_BUFFER && input.retrospective_block_hash.is_none() {
            return Err(BatcherError::MissingRetrospectiveBlockHash);
        }
        match self.proposal_manager.begin_proposal(input.proposal_id) {
            Ok(()) => {},
            Err(GenerateProposalError::AlreadyGeneratingProposal) => {
                return Err(
                    BatcherError::AnotherProposalInProgress { proposal_id: input.proposal_id },
                );
            },
            Err(GenerateProposalError::ProposalAlreadyExists { proposal_id }) => {
                return Err(BatcherError::ProposalAlreadyExists { proposal_id });
            },
        }
        let builder = self.block_builder_factory.create_block_builder(
            BlockMetadata {
                block_info: BlockInfo { block_number: height, timestamp: 0 },
                retrospective_block_hash: input.retrospective_block_hash,
            },
            BlockBuilderExecutionParams { fail_on_err: true },
            plan.closure,
            false,
        );
        // A validation has no open build loop: its executor is fed directly as
        // content arrives.
        let executor = builder.executor;
        self.validate_streams = Vec::new();
        self.validate_streams.push(
            ValidationStream {
                proposal_id: input.proposal_id,
                executor,
                infos: exec_info_map_new(),
                remaining_sims: plan.sims,
                commitment: plan.commitment,
            },
        );
        Ok(())
    }

    /// Routes content into an open validation. A batch of transactions is
    /// executed against the validation plan and answered with `Processing`;
    /// `Finish` closes the stream and answers with the proposal's commitment.
    /// A validation that failed — the block overflowing its capacity or a
    /// transaction failing — answers `InvalidProposal`, on this and on every
    /// later call for the id. Content for an id that was never opened is
    /// refused with `ProposalNotFound`, and for one already finished with
    /// `ProposalAlreadyFinished`.
    pub fn send_proposal_content(&mut self, input: SendProposalContentInput) -> (r: Result<
        SendProposalContentResponse,
        BatcherError,
    >)
        requires
            old(self).wf(),
        ensures
            final (self).wf(),
            final (self).storage_height == old(self).storage_height,
            final (self).committed == old(self).committed,
            final (self).mempool_commits == old(self).mempool_commits,
            final (self).active_height == old(self).active_height,
            final (self).outstreams == old(self).outstreams,
            final (self).config == old(self).config,
            final (self).block_builder_factory == old(self).block_builder_factory,
            !old(self).spec_has_stream(input.proposal_id) && !old(self).proposal_manager.spec_has_completed(input.proposal_id) ==> r == Err::<
                SendProposalContentResponse,
                BatcherError,
            >(BatcherError::ProposalNotFound { proposal_id: input.proposal_id }) && *final (self)
                == *old(self),
            !old(self).spec_has_stream(input.proposal_id) && old(self).proposal_manager.spec_has_completed(input.proposal_id) && old(self).proposal_manager.spec_completed_result(input.proposal_id) is Err ==> r == Ok::<
                SendProposalContentResponse,
                BatcherError,
            >(SendProposalContentResponse { response: ProposalStatus::InvalidProposal }) && *final (self) == *old(self),
            !old(self).spec_has_stream(input.proposal_id) && old(self).proposal_manager.spec_has_completed(input.proposal_id) && old(self).proposal_manager.spec_completed_result(input.proposal_id) is Ok ==> r == Err::<
                SendProposalContentResponse,
                BatcherError,
            >(BatcherError::ProposalAlreadyFinished { proposal_id: input.proposal_id }) && *final (self) == *old(self),
            old(self).spec_has_stream(input.proposal_id) ==> ({
                let stream = old(self).validate_streams@[0];
                match input.content {
                    SendProposalContent::Txs(ref txs) => ({
                        let sims = spec_take_sims(stream.remaining_sims@, txs@.len() as int);
                        let (results, b2, f2) = spec_executor_results(
                            sims,
                            stream.executor.bouncer,
                            stream.executor.block_max_capacity,
                            stream.executor.block_full,
                        );
                        let (infos2, _s2, out) = spec_collect(
                            txs@,
                            results,
                            exec_info_entries(stream.infos),
                            Seq::empty(),
                            false,
                            true,
                        );
                        match out {
                            ChunkOutcome::Proceed => {
                                &&& r == Ok::<SendProposalContentResponse, BatcherError>(
                                    SendProposalContentResponse {
                                        response: ProposalStatus::Processing,
                                    },
                                )
                                &&& final (self).spec_has_stream(input.proposal_id)
                                &&& final (self).validate_streams@[0].executor.bouncer == b2
                                &&& exec_info_entries(final (self).validate_streams@[0].infos)
                                    == infos2
                                &&& final (self).validate_streams@[0].remaining_sims@
                                    == spec_drop_sims(stream.remaining_sims@, txs@.len() as int)
                                &&& final (self).validate_streams@[0].commitment
                                    == stream.commitment
                            },
                            ChunkOutcome::FailBlockFull => {
                                &&& r == Ok::<SendProposalContentResponse, BatcherError>(
                                    SendProposalContentResponse {
                                        response: ProposalStatus::InvalidProposal,
                                    },
                                )
                                &&& final (self).validate_streams@.len() == 0
                                &&& final (self).proposal_manager.spec_completed_result(
                                    input.proposal_id,
                                ) == Err::<ProposalOutput, BlockBuilderError>(
                                    BlockBuilderError::FailOnError(FailOnErrorCause::BlockFull),
                                )
                            },
                            ChunkOutcome::FailTxFailed => {
                                &&& r == Ok::<SendProposalContentResponse, BatcherError>(
                                    SendProposalContentResponse {
                                        response: ProposalStatus::InvalidProposal,
                                    },
                                )
                                &&& final (self).validate_streams@.len() == 0
                                &&& final (self).proposal_manager.spec_completed_result(
                                    input.proposal_id,
                                ) == Err::<ProposalOutput, BlockBuilderError>(
                                    BlockBuilderError::FailOnError(
                                        FailOnErrorCause::TransactionFailed,
                                    ),
                                )
                            },
                            ChunkOutcome::Full => true,
                        }
                    }),
                    SendProposalContent::Finish => {
                        &&& r == Ok::<SendProposalContentResponse, BatcherError>(
                            SendProposalContentResponse {
                                response: ProposalStatus::Finished(stream.commitment),
                            },
                        )
                        &&& final (self).validate_streams@.len() == 0
                        &&& final (self).proposal_manager.spec_has_completed(input.proposal_id)
                        &&& final (self).proposal_manager.spec_completed_result(input.proposal_id)
                            matches Ok(output)
                        &&& (final (self).proposal_manager.spec_completed_result(input.proposal_id)
                            matches Ok(output) ==> {
                            &&& output.commitment == stream.commitment
                            &&& sd_eq(&output.state_diff, &stream.executor.closure.state_diff)
                            &&& output.tx_hashes@ == exec_info_entries(stream.infos).map_values(
                                |e: (u64, TxExecutionInfo)| TransactionHash {
                                    h: Felt { v: e.0 },
                                },
                            )
                            &&& output.nonces@ == stream.executor.closure.state_diff.nonces@
                        })
                    },
                }
            }),
    {
        let has_stream = self.validate_streams.len() == 1 && self.validate_streams[0].proposal_id
            == input.proposal_id;
        if !has_stream {
            return match self.proposal_manager.completed_result_is_ok(input.proposal_id) {
                None => Err(BatcherError::ProposalNotFound { proposal_id: input.proposal_id }),
                Some(false) => Ok(
                    SendProposalContentResponse { response: ProposalStatus::InvalidProposal },
                ),
                Some(true) => Err(
                    BatcherError::ProposalAlreadyFinished { proposal_id: input.proposal_id },
                ),
            };
        }
        match input.content {
            SendProposalContent::Txs(txs) => {
                let mut stream = self.validate_streams.remove(0);
                let ghost stream0 = stream;
                // Take one adjudication per arriving transaction; an exhausted
                // plan fails the remainder.
                let mut sims: Vec<TxSimulation> = Vec::new();
                let mut k: usize = 0;
                while k < txs.len()
                    invariant
                        0 <= k <= txs@.len(),
                        stream.remaining_sims@ =~= spec_drop_sims(
                            stream0.remaining_sims@,
                            k as int,
                        ),
                        sims@ =~= spec_take_sims(stream0.remaining_sims@, k as int),
                        stream.executor == stream0.executor,
                        stream.infos == stream0.infos,
                        stream.proposal_id == stream0.proposal_id,
                        stream.commitment == stream0.commitment,
                    decreases txs@.len() - k,
                {
                    let ghost pre_rem = stream.remaining_sims@;
                    let sim = if stream.remaining_sims.len() > 0 {
                        stream.remaining_sims.remove(0)
                    } else {
                        TxSimulation::Failed
                    };
                    sims.push(sim);
                    proof {
                        if pre_rem.len() > 0 {
                            assert(stream.remaining_sims@ =~= pre_rem.skip(1));
                        }
                        assert(stream.remaining_sims@ =~= spec_drop_sims(
                            stream0.remaining_sims@,
                            k + 1,
                        ));
                        assert(sims@ =~= spec_take_sims(stream0.remaining_sims@, k + 1));
                    }
                    k += 1;
                }
                let results = stream.executor.add_txs_to_block(&sims);
                proof {
                    crate::block_builder::lemma_executor_results_len(
                        sims@,
                        stream0.executor.bouncer,
                        stream0.executor.block_max_capacity,
                        stream0.executor.block_full,
                    );
                }
                let mut discard: Vec<Transaction> = Vec::new();
                match collect_execution_results_and_stream_txs(
                    txs,
                    results,
                    &mut stream.infos,
                    false,
                    &mut discard,
                    true,
                ) {
                    Ok(_) => {
                        self.validate_streams.push(stream);
                        Ok(SendProposalContentResponse { response: ProposalStatus::Processing })
                    },
                    Err(e) => {
                        self.proposal_manager.complete_proposal(input.proposal_id, Err(e));
                        Ok(
                            SendProposalContentResponse {
                                response: ProposalStatus::InvalidProposal,
                            },
                        )
                    },
                }
            },
            SendProposalContent::Finish => {
                let stream = self.validate_streams.remove(0);
                let tx_hashes = exec_map_hash_keys(&stream.infos);
                let nonces = copy_vec(&stream.executor.closure.state_diff.nonces);
                let commitment = stream.commitment;
                let (state_diff, _visited, _weights) = stream.executor.close_block();
                let output = ProposalOutput {
                    commitment,
                    state_diff,
                    tx_hashes,
                    nonces,
                };
                self.proposal_manager.complete_proposal(input.proposal_id, Ok(output));
                Ok(
                    SendProposalContentResponse {
                        response: ProposalStatus::Finished(commitment),
                    },
                )
            },
        }
    }

    /// Streams out the content of a locally built proposal: each call drains
    /// up to the configured chunk size of the remaining transactions; once
    /// they are exhausted, the proposal's commitment is returned and the
    /// stream closes, so a later call finds no proposal.
    pub fn get_proposal_content(&mut self, input: GetProposalContentInput) -> (r: Result<
        GetProposalContentResponse,
        BatcherError,
    >)
        requires
            old(self).wf(),
        ensures
            final (self).wf(),
            final (self).storage_height == old(self).storage_height,
            final (self).committed == old(self).committed,
            final (self).mempool_commits == old(self).mempool_commits,
            final (self).active_height == old(self).active_height,
            final (self).proposal_manager == old(self).proposal_manager,
            final (self).validate_streams == old(self).validate_streams,
            final (self).config == old(self).config,
            final (self).block_builder_factory == old(self).block_builder_factory,
            !old(self).spec_has_outstream(input.proposal_id) ==> r == Err::<
                GetProposalContentResponse,
                BatcherError,
            >(BatcherError::ProposalNotFound { proposal_id: input.proposal_id }) && *final (self)
                == *old(self),
            forall|i: int|
                0 <= i < old(self).outstreams@.len() && (#[trigger] old(self).outstreams@[i]).proposal_id == input.proposal_id ==> ({
                    let stream = old(self).outstreams@[i];
                    if stream.pending@.len() > 0 {
                        let n = if stream.pending@.len() < old(self).config.outstream_content_buffer_size as int {
                            stream.pending@.len() as int
                        } else {
                            old(self).config.outstream_content_buffer_size as int
                        };
                        &&& r matches Ok(resp)
                        &&& (r matches Ok(resp) ==> resp.content matches GetProposalContent::Txs(
                            txs,
                        ) && txs@ == stream.pending@.take(n))
                        &&& final (self).spec_has_outstream(input.proposal_id)
                        &&& (exists|j: int|
                            0 <= j < final (self).outstreams@.len()
                                && (#[trigger] final (self).outstreams@[j]).proposal_id
                                == input.proposal_id
                                && final (self).outstreams@[j].pending@ == stream.pending@.skip(n)
                                && final (self).outstreams@[j].commitment == stream.commitment)
                    } else {
                        &&& r == Ok::<GetProposalContentResponse, BatcherError>(
                            GetProposalContentResponse {
                                content: GetProposalContent::Finished(stream.commitment),
                            },
                        )
                        &&& !final (self).spec_has_outstream(input.proposal_id)
                    }
                }),
    {
        let mut idx_found: Option<usize> = None;
        let mut i: usize = 0;
        while i < self.outstreams.len()
            invariant
                0 <= i <= self.outstreams@.len(),
                *self == *old(self),
                idx_found matches Some(k) ==> 0 <= k < i && self.outstreams@[k as int].proposal_id
                    == input.proposal_id,
                idx_found is None ==> forall|k: int|
                    0 <= k < i ==> (#[trigger] self.outstreams@[k]).proposal_id
                        != input.proposal_id,
            decreases self.outstreams@.len() - i,
        {
            if idx_found.is_none() && self.outstreams[i].proposal_id == input.proposal_id {
                idx_found = Some(i);
            }
            i += 1;
        }
        let idx = match idx_found {
            Some(k) => k,
            None => {
                return Err(BatcherError::ProposalNotFound { proposal_id: input.proposal_id });
            },
        };
        let ghost pre = self.outstreams@;
        let mut stream = self.outstreams.remove(idx);
        proof {
            let es = self.outstreams@;
            assert(es =~= pre.subrange(0, idx as int) + pre.subrange(idx + 1, pre.len() as int));
            assert forall|k: int| 0 <= k < es.len() implies (#[trigger] es[k]).proposal_id
                != input.proposal_id by {
                if k < idx {
                    assert(es[k] == pre[k]);
                } else {
                    assert(es[k] == pre[k + 1]);
                }
            }
            assert forall|k1: int, k2: int|
                0 <= k1 < k2 < es.len() implies (#[trigger] es[k1]).proposal_id != (
            #[trigger] es[k2]).proposal_id by {
                let m1 = if k1 < idx { k1 } else { k1 + 1 };
                let m2 = if k2 < idx { k2 } else { k2 + 1 };
                assert(es[k1] == pre[m1]);
                assert(es[k2] == pre[m2]);
            }
        }
        if stream.pending.len() > 0 {
            let n = if stream.pending.len() < self.config.outstream_content_buffer_size {
                stream.pending.len()
            } else {
                self.config.outstream_content_buffer_size
            };
            let mut chunk: Vec<Transaction> = Vec::new();
            let mut k: usize = 0;
            let ghost pending0 = stream.pending@;
            let ghost stream0 = stream;
            while k < n
                invariant
                    0 <= k <= n,
                    n <= pending0.len(),
                    stream.pending@ =~= pending0.skip(k as int),
                    chunk@ =~= pending0.take(k as int),
                    stream.proposal_id == stream0.proposal_id,
                    stream.commitment == stream0.commitment,
                    pending0 == stream0.pending@,
                decreases n - k,
            {
                let ghost pre_pending = stream.pending@;
                let tx = stream.pending.remove(0);
                chunk.push(tx);
                proof {
                    assert(stream.pending@ =~= pre_pending.skip(1));
                    assert(stream.pending@ =~= pending0.skip(k + 1));
                    assert(chunk@ =~= pending0.take(k + 1));
                }
                k += 1;
            }
            self.outstreams.push(stream);
            proof {
                assert(self.outstreams@.last().proposal_id == input.proposal_id);
            }
            return Ok(
                GetProposalContentResponse { content: GetProposalContent::Txs(chunk) },
            );
        }
        Ok(
            GetProposalContentResponse {
                content: GetProposalContent::Finished(stream.commitment),
            },
        )
    }

    /// Commits the decided proposal: its state diff is written to storage at
    /// the storage height, the mempool is told the committed hashes and
    /// nonces, the storage height advances by exactly one, and the height
    /// closes. A proposal with no recorded result cannot be committed.
    pub fn decision_reached(&mut self, input: DecisionReachedInput) -> (r: Result<
        DecisionReachedResponse,
        BatcherError,
    >)
        requires
            old(self).wf(),
            old(self).storage_height.n < u64::MAX,
        ensures
            final (self).wf(),
            final (self).config == old(self).config,
            final (self).block_builder_factory == old(self).block_builder_factory,
            !old(self).proposal_manager.spec_has_completed(input.proposal_id) ==> r == Err::<
                DecisionReachedResponse,
                BatcherError,
            >(BatcherError::ExecutedProposalNotFound { proposal_id: input.proposal_id }) && *final (self) == *old(self),
            old(self).proposal_manager.spec_has_completed(input.proposal_id) && old(self).proposal_manager.spec_completed_result(input.proposal_id) is Err ==> r == Err::<
                DecisionReachedResponse,
                BatcherError,
            >(BatcherError::InternalError),
            old(self).proposal_manager.spec_has_completed(input.proposal_id) ==> (old(self).proposal_manager.spec_completed_result(input.proposal_id) matches Ok(output) ==> {
                &&& r matches Ok(resp)
                &&& (r matches Ok(resp) ==> sd_eq(&resp.state_diff, &output.state_diff))
                &&& final (self).storage_height.n == old(self).storage_height.n + 1
                &&& final (self).committed@ == old(self).committed@.push(
                    (old(self).storage_height, output.state_diff),
                )
                &&& final (self).mempool_commits@ == old(self).mempool_commits@.push(
                    CommitBlockArgs {
                        address_to_nonce: output.nonces,
                        tx_hashes: output.tx_hashes,
                    },
                )
                &&& final (self).active_height is None
                // The result is consumed: the same proposal cannot commit a
                // second height.
                &&& !final (self).proposal_manager.spec_has_completed(input.proposal_id)
            }),
    {
        if self.validate_streams.len() == 1 && self.validate_streams[0].proposal_id
            == input.proposal_id {
            // The proposal is still being validated: its result is not ready.
            return Err(BatcherError::ExecutedProposalNotFound { proposal_id: input.proposal_id });
        }
        let result = match self.proposal_manager.take_proposal_result(input.proposal_id) {
            Some(res) => res,
            None => {
                return Err(
                    BatcherError::ExecutedProposalNotFound { proposal_id: input.proposal_id },
                );
            },
        };
        let output = match result {
            Ok(output) => output,
            Err(_) => {
                return Err(BatcherError::InternalError);
            },
        };
        let response_diff = clone_state_diff(&output.state_diff);
        let height = self.storage_height;
        self.committed.push((height, output.state_diff));
        self.mempool_commits.push(
            CommitBlockArgs { address_to_nonce: output.nonces, tx_hashes: output.tx_hashes },
        );
        self.storage_height = BlockNumber { n: height.n + 1 };
        self.active_height = None;
        Ok(DecisionReachedResponse { state_diff: response_diff })
    }

    /// Commits an externally synced block without local execution: the block's
    /// diff is written at its height, the mempool is told its hashes and
    /// nonces, and storage advances past it. Storage is append-only: a synced
    /// block below the storage height is never handed in.
    pub fn add_sync_block(&mut self, sync_block: SyncBlock) -> (r: Result<(), BatcherError>)
        requires
            old(self).wf(),
            sync_block.block_number.n >= old(self).storage_height.n,
            sync_block.block_number.n < u64::MAX,
        ensures
            final (self).wf(),
            final (self).config == old(self).config,
            final (self).block_builder_factory == old(self).block_builder_factory,
            r is Ok,
            final (self).committed@ == old(self).committed@.push(
                (sync_block.block_number, sync_block.state_diff),
            ),
            final (self).mempool_commits@.len() == old(self).mempool_commits@.len() + 1,
            forall|i: int|
                0 <= i < old(self).mempool_commits@.len() ==> final (self).mempool_commits@[i]
                    == old(self).mempool_commits@[i],
            final (self).mempool_commits@.last().address_to_nonce@
                == sync_block.state_diff.nonces@,
            final (self).mempool_commits@.last().tx_hashes == sync_block.transaction_hashes,
            final (self).storage_height.n == sync_block.block_number.n + 1,
            final (self).active_height is None,
    {
        let nonces = copy_vec(&sync_block.state_diff.nonces);
        let height = sync_block.block_number;
        self.mempool_commits.push(
            CommitBlockArgs {
                address_to_nonce: nonces,
                tx_hashes: sync_block.transaction_hashes,
            },
        );
        self.committed.push((height, sync_block.state_diff));
        self.storage_height = BlockNumber { n: height.n + 1 };
        self.active_height = None;
        Ok(())
    }
}

/// The transaction hashes recorded in an execution-info map, in order.
pub fn exec_map_hash_keys(m: &IndexMap<u64, TxExecutionInfo>) -> (r: Vec<TransactionHash>)
    ensures
        r@ == exec_info_entries(*m).map_values(
            |e: (u64, TxExecutionInfo)| TransactionHash { h: Felt { v: e.0 } },
        ),
{
    let mut r: Vec<TransactionHash> = Vec::new();
    let n = crate::exec_map::exec_info_map_len(m);
    let mut i: usize = 0;
    while i < n
        invariant
            0 <= i <= n,
            n == exec_info_entries(*m).len(),
            r@ =~= exec_info_entries(*m).take(i as int).map_values(
                |e: (u64, TxExecutionInfo)| TransactionHash { h: Felt { v: e.0 } },
            ),
        decreases n - i,
    {
        match crate::exec_map::exec_info_map_get_index(m, i) {
            Some((k, _)) => {
                r.push(TransactionHash { h: Felt { v: k } });
            },
            None => {
                // Unreachable: `i` is below the map's length.
                proof {
                    assert(false);
                }
            },
        }
        proof {
            assert(r@ =~= exec_info_entries(*m).take(i + 1).map_values(
                |e: (u64, TxExecutionInfo)| TransactionHash { h: Felt { v: e.0 } },
            ));
        }
        i += 1;
    }
    proof {
        assert(exec_info_entries(*m).take(exec_info_entries(*m).len() as int) =~= exec_info_entries(
            *m,
        ));
    }
    r
}

} // verus!
