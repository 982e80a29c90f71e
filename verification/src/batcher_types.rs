//! The wire types of the batcher: inputs, responses and errors of its
//! operations.

use vstd::prelude::*;

use crate::block_builder::{BlockHashAndNumber, BlockInfo};
use crate::transaction::Transaction;
use crate::types::{BlockNumber, ContractAddress, Felt, Nonce, ThinStateDiff, TransactionHash};

verus! {

/// A dense integer handle for a proposal, unique within a process lifetime and
/// opaque to callers.
#[derive(Clone, Copy, Debug, PartialEq, Eq, Hash, Structural)]
pub struct ProposalId(pub u64);

/// The commitment of a proposal: the commitment over its state diff, produced
/// exactly once per successful proposal.
#[derive(Clone, Copy, Debug, PartialEq, Eq, Structural)]
pub struct ProposalCommitment {
    pub state_diff_commitment: Felt,
}

/// What a successful proposal produced.
#[derive(Clone, Debug, PartialEq, Eq)]
pub struct ProposalOutput {
    pub commitment: ProposalCommitment,
    pub state_diff: ThinStateDiff,
    pub tx_hashes: Vec<TransactionHash>,
    pub nonces: Vec<(ContractAddress, Nonce)>,
}

/// Input to `start_height`.
#[derive(Clone, Copy, Debug, PartialEq, Eq, Structural)]
pub struct StartHeightInput {
    pub height: BlockNumber,
}

/// Input to `propose_block`.
#[derive(Clone, Copy, Debug, PartialEq, Eq, Structural)]
pub struct ProposeBlockInput {
    pub proposal_id: ProposalId,
    pub retrospective_block_hash: Option<BlockHashAndNumber>,
    pub block_info: BlockInfo,
}

/// Input to `validate_block`.
#[derive(Clone, Copy, Debug, PartialEq, Eq, Structural)]
pub struct ValidateBlockInput {
    pub proposal_id: ProposalId,
    pub retrospective_block_hash: Option<BlockHashAndNumber>,
    pub block_info: BlockInfo,
}

/// Content sent into a validation stream.
#[derive(Clone, Debug, PartialEq, Eq)]
pub enum SendProposalContent {
    Txs(Vec<Transaction>),
    Finish,
}

/// Input to `send_proposal_content`.
#[derive(Clone, Debug, PartialEq, Eq)]
pub struct SendProposalContentInput {
    pub proposal_id: ProposalId,
    pub content: SendProposalContent,
}

/// The status of a proposal as seen by its feeder.
#[derive(Clone, Copy, Debug, PartialEq, Eq, Structural)]
pub enum ProposalStatus {
    Processing,
    Finished(ProposalCommitment),
    InvalidProposal,
}

/// Response of `send_proposal_content`.
#[derive(Clone, Copy, Debug, PartialEq, Eq, Structural)]
pub struct SendProposalContentResponse {
    pub response: ProposalStatus,
}

/// Input to `get_proposal_content`.
#[derive(Clone, Copy, Debug, PartialEq, Eq, Structural)]
pub struct GetProposalContentInput {
    pub proposal_id: ProposalId,
}

/// One step of streamed proposal content: a batch of transactions, or the
/// commitment once the proposal is done.
#[derive(Clone, Debug, PartialEq, Eq)]
pub enum GetProposalContent {
    Txs(Vec<Transaction>),
    Finished(ProposalCommitment),
}

/// Response of `get_proposal_content`.
#[derive(Clone, Debug, PartialEq, Eq)]
pub struct GetProposalContentResponse {
    pub content: GetProposalContent,
}

/// Input to `decision_reached`.
#[derive(Clone, Copy, Debug, PartialEq, Eq, Structural)]
pub struct DecisionReachedInput {
    pub proposal_id: ProposalId,
}

/// Response of `decision_reached`: the state diff that was committed.
#[derive(Clone, Debug, PartialEq, Eq)]
pub struct DecisionReachedResponse {
    pub state_diff: ThinStateDiff,
}

/// Response of `get_height`.
#[derive(Clone, Copy, Debug, PartialEq, Eq, Structural)]
pub struct GetHeightResponse {
    pub height: BlockNumber,
}

/// What the mempool is told when a block commits.
#[derive(Clone, Debug, PartialEq, Eq)]
pub struct CommitBlockArgs {
    pub address_to_nonce: Vec<(ContractAddress, Nonce)>,
    pub tx_hashes: Vec<TransactionHash>,
}

/// An externally synced block, committed without local execution.
#[derive(Clone, Debug, PartialEq, Eq)]
pub struct SyncBlock {
    pub block_number: BlockNumber,
    pub state_diff: ThinStateDiff,
    pub transaction_hashes: Vec<TransactionHash>,
}

/// The errors the batcher surfaces to its callers.
#[derive(Clone, Copy, Debug, PartialEq, Eq, Structural)]
pub enum BatcherError {
    NoActiveHeight,
    HeightAlreadyPassed { storage_height: BlockNumber, requested_height: BlockNumber },
    StorageNotSynced { storage_height: BlockNumber, requested_height: BlockNumber },
    HeightInProgress,
    ProposalNotFound { proposal_id: ProposalId },
    ProposalAlreadyFinished { proposal_id: ProposalId },
    MissingRetrospectiveBlockHash,
    ExecutedProposalNotFound { proposal_id: ProposalId },
    AnotherProposalInProgress { proposal_id: ProposalId },
    ProposalAlreadyExists { proposal_id: ProposalId },
    InternalError,
}

/// Configuration of the batcher.
#[derive(Clone, Copy, Debug, PartialEq, Eq, Structural)]
pub struct BatcherConfig {
    pub outstream_content_buffer_size: usize,
}

impl Default for BatcherConfig {
    fn default() -> (r: Self)
        ensures
            r.outstream_content_buffer_size == 100,
    {
        BatcherConfig { outstream_content_buffer_size: 100 }
    }
}

} // verus!
