use sequencer_core::batcher::{Batcher, ProposalPlan, ValidationPlan, STORED_BLOCK_HASH_BUFFER};
use sequencer_core::batcher_types::{
    BatcherConfig, BatcherError, DecisionReachedInput, GetHeightResponse, GetProposalContent,
    GetProposalContentInput, ProposalCommitment, ProposalId, ProposalStatus, ProposeBlockInput,
    SendProposalContent, SendProposalContentInput, SendProposalContentResponse, StartHeightInput,
    SyncBlock, ValidateBlockInput,
};
use sequencer_core::block_builder::{
    BlockBuilderConfig, BlockBuilderFactory, BlockClosureData, BouncerConfig, BouncerWeights,
    BuilderEvent, TxSimulation,
};
use sequencer_core::execution::TxExecutionInfo;
use sequencer_core::transaction::{Fee, L1HandlerTransaction, L1HandlerTransactionInner, Transaction};
use sequencer_core::types::{
    BlockNumber, ContractAddress, Felt, Nonce, StorageEntry, ThinStateDiff, TransactionHash,
};

const INITIAL_HEIGHT: u64 = 3;
const STREAMING_CHUNK_SIZE: usize = 3;
const PROPOSAL_ID: ProposalId = ProposalId(0);

fn test_txs(range: std::ops::Range<u64>) -> Vec<Transaction> {
    range
        .map(|i| {
            Transaction::L1Handler(L1HandlerTransaction {
                tx: L1HandlerTransactionInner::default(),
                tx_hash: TransactionHash { h: Felt { v: 100 + i } },
                paid_fee_on_l1: Fee(0),
            })
        })
        .collect()
}

fn accepted_sim() -> TxSimulation {
    TxSimulation::Executed {
        info: TxExecutionInfo { revert_happened: false, gas_consumed: 7 },
        weights: BouncerWeights {
            l1_gas: 1,
            message_segment_length: 1,
            n_events: 1,
            n_steps: 1,
            state_diff_size: 1,
        },
    }
}

fn test_contract_nonces() -> Vec<(ContractAddress, Nonce)> {
    (0..3u64)
        .map(|i| {
            (ContractAddress { a: Felt { v: i + 33 } }, Nonce { n: Felt { v: i + 9 } })
        })
        .collect()
}

pub fn test_state_diff() -> ThinStateDiff {
    ThinStateDiff {
        storage_diffs: vec![
            StorageEntry {
                address: ContractAddress { a: Felt { v: 4 } },
                key: Felt { v: 5 },
                value: Felt { v: 6 },
            },
            StorageEntry {
                address: ContractAddress { a: Felt { v: 4 } },
                key: Felt { v: 7 },
                value: Felt { v: 8 },
            },
            StorageEntry {
                address: ContractAddress { a: Felt { v: 9 } },
                key: Felt { v: 10 },
                value: Felt { v: 11 },
            },
        ],
        nonces: test_contract_nonces(),
        declared_classes: Vec::new(),
        deployed_contracts: Vec::new(),
    }
}

fn proposal_commitment() -> ProposalCommitment {
    ProposalCommitment { state_diff_commitment: Felt { v: 7 } }
}

fn closure_data() -> BlockClosureData {
    BlockClosureData { state_diff: test_state_diff(), visited_segments: Vec::new() }
}

fn create_batcher() -> Batcher {
    Batcher::new(
        BatcherConfig { outstream_content_buffer_size: STREAMING_CHUNK_SIZE },
        BlockNumber { n: INITIAL_HEIGHT },
        BlockBuilderFactory { block_builder_config: BlockBuilderConfig::default() },
    )
}

fn propose_block_input() -> ProposeBlockInput {
    ProposeBlockInput {
        proposal_id: PROPOSAL_ID,
        retrospective_block_hash: None,
        block_info: sequencer_core::block_builder::BlockInfo {
            block_number: BlockNumber { n: INITIAL_HEIGHT },
            timestamp: 0,
        },
    }
}

fn validate_block_input() -> ValidateBlockInput {
    ValidateBlockInput {
        proposal_id: PROPOSAL_ID,
        retrospective_block_hash: None,
        block_info: sequencer_core::block_builder::BlockInfo {
            block_number: BlockNumber { n: INITIAL_HEIGHT },
            timestamp: 0,
        },
    }
}

fn validation_plan(n_sims: usize) -> ValidationPlan {
    ValidationPlan {
        sims: (0..n_sims).map(|_| accepted_sim()).collect(),
        closure: closure_data(),
        commitment: proposal_commitment(),
    }
}

#[test]
fn start_height_success() {
    let mut batcher = create_batcher();
    assert_eq!(
        batcher.start_height(StartHeightInput { height: BlockNumber { n: INITIAL_HEIGHT } }),
        Ok(())
    );
}

#[test]
fn start_height_fail() {
    let mut batcher = create_batcher();
    assert_eq!(
        batcher.start_height(StartHeightInput { height: BlockNumber { n: INITIAL_HEIGHT - 1 } }),
        Err(BatcherError::HeightAlreadyPassed {
            storage_height: BlockNumber { n: INITIAL_HEIGHT },
            requested_height: BlockNumber { n: INITIAL_HEIGHT - 1 },
        })
    );
    assert_eq!(
        batcher.start_height(StartHeightInput { height: BlockNumber { n: INITIAL_HEIGHT + 1 } }),
        Err(BatcherError::StorageNotSynced {
            storage_height: BlockNumber { n: INITIAL_HEIGHT },
            requested_height: BlockNumber { n: INITIAL_HEIGHT + 1 },
        })
    );
}

#[test]
fn duplicate_start_height() {
    let mut batcher = create_batcher();
    let input = StartHeightInput { height: BlockNumber { n: INITIAL_HEIGHT } };
    assert_eq!(batcher.start_height(input), Ok(()));
    assert_eq!(batcher.start_height(input), Err(BatcherError::HeightInProgress));
}

#[test]
fn no_active_height() {
    let mut batcher = create_batcher();
    let result = batcher.propose_block(
        propose_block_input(),
        ProposalPlan {
            events: Vec::new(),
            closure: closure_data(),
            commitment: proposal_commitment(),
        },
    );
    assert_eq!(result, Err(BatcherError::NoActiveHeight));

    let result = batcher.validate_block(validate_block_input(), validation_plan(0));
    assert_eq!(result, Err(BatcherError::NoActiveHeight));
}

#[test]
fn validate_block_full_flow() {
    let mut batcher = create_batcher();
    batcher
        .start_height(StartHeightInput { height: BlockNumber { n: INITIAL_HEIGHT } })
        .unwrap();
    batcher.validate_block(validate_block_input(), validation_plan(1)).unwrap();

    let send_txs_result = batcher
        .send_proposal_content(SendProposalContentInput {
            proposal_id: PROPOSAL_ID,
            content: SendProposalContent::Txs(test_txs(0..1)),
        })
        .unwrap();
    assert_eq!(
        send_txs_result,
        SendProposalContentResponse { response: ProposalStatus::Processing }
    );

    let send_finish_result = batcher
        .send_proposal_content(SendProposalContentInput {
            proposal_id: PROPOSAL_ID,
            content: SendProposalContent::Finish,
        })
        .unwrap();
    assert_eq!(
        send_finish_result,
        SendProposalContentResponse { response: ProposalStatus::Finished(proposal_commitment()) }
    );
    assert_eq!(proposal_commitment().state_diff_commitment, Felt { v: 7 });
}

#[test]
fn send_content_after_proposal_already_finished() {
    let mut batcher = create_batcher();
    batcher
        .start_height(StartHeightInput { height: BlockNumber { n: INITIAL_HEIGHT } })
        .unwrap();
    batcher.validate_block(validate_block_input(), validation_plan(1)).unwrap();
    batcher
        .send_proposal_content(SendProposalContentInput {
            proposal_id: PROPOSAL_ID,
            content: SendProposalContent::Finish,
        })
        .unwrap();

    let result = batcher.send_proposal_content(SendProposalContentInput {
        proposal_id: PROPOSAL_ID,
        content: SendProposalContent::Txs(test_txs(0..1)),
    });
    assert_eq!(
        result,
        Err(BatcherError::ProposalAlreadyFinished { proposal_id: PROPOSAL_ID })
    );
}

#[test]
fn send_content_to_unknown_proposal() {
    let mut batcher = create_batcher();

    let result = batcher.send_proposal_content(SendProposalContentInput {
        proposal_id: PROPOSAL_ID,
        content: SendProposalContent::Txs(test_txs(0..1)),
    });
    assert_eq!(result, Err(BatcherError::ProposalNotFound { proposal_id: PROPOSAL_ID }));

    let result = batcher.send_proposal_content(SendProposalContentInput {
        proposal_id: PROPOSAL_ID,
        content: SendProposalContent::Finish,
    });
    assert_eq!(result, Err(BatcherError::ProposalNotFound { proposal_id: PROPOSAL_ID }));
}

fn batcher_with_invalid_proposal() -> Batcher {
    // The builder overflows the small capacity, so validation fails.
    let mut batcher = Batcher::new(
        BatcherConfig { outstream_content_buffer_size: STREAMING_CHUNK_SIZE },
        BlockNumber { n: INITIAL_HEIGHT },
        BlockBuilderFactory {
            block_builder_config: BlockBuilderConfig {
                bouncer_config: BouncerConfig {
                    block_max_capacity: BouncerWeights {
                        l1_gas: 0,
                        message_segment_length: 0,
                        n_events: 0,
                        n_steps: 0,
                        state_diff_size: 0,
                    },
                },
                tx_chunk_size: 100,
            },
        },
    );
    batcher
        .start_height(StartHeightInput { height: BlockNumber { n: INITIAL_HEIGHT } })
        .unwrap();
    batcher.validate_block(validate_block_input(), validation_plan(2)).unwrap();
    let result = batcher
        .send_proposal_content(SendProposalContentInput {
            proposal_id: PROPOSAL_ID,
            content: SendProposalContent::Txs(test_txs(0..1)),
        })
        .unwrap();
    assert_eq!(
        result,
        SendProposalContentResponse { response: ProposalStatus::InvalidProposal }
    );
    batcher
}

#[test]
fn send_txs_to_an_invalid_proposal() {
    let mut batcher = batcher_with_invalid_proposal();
    let result = batcher
        .send_proposal_content(SendProposalContentInput {
            proposal_id: PROPOSAL_ID,
            content: SendProposalContent::Txs(test_txs(0..1)),
        })
        .unwrap();
    assert_eq!(
        result,
        SendProposalContentResponse { response: ProposalStatus::InvalidProposal }
    );
}

#[test]
fn send_finish_to_an_invalid_proposal() {
    let mut batcher = batcher_with_invalid_proposal();
    let result = batcher
        .send_proposal_content(SendProposalContentInput {
            proposal_id: PROPOSAL_ID,
            content: SendProposalContent::Finish,
        })
        .unwrap();
    assert_eq!(
        result,
        SendProposalContentResponse { response: ProposalStatus::InvalidProposal }
    );
}

#[test]
fn propose_block_full_flow() {
    // With a streaming chunk size of three and seven accepted transactions,
    // the content is fetched as chunks of 3, 3 and 1, then the commitment.
    let expected_streamed_txs = test_txs(0..7);
    let pairs: Vec<(Transaction, TxSimulation)> =
        expected_streamed_txs.iter().cloned().map(|t| (t, accepted_sim())).collect();

    let mut batcher = create_batcher();
    batcher
        .start_height(StartHeightInput { height: BlockNumber { n: INITIAL_HEIGHT } })
        .unwrap();
    batcher
        .propose_block(
            propose_block_input(),
            ProposalPlan {
                events: vec![BuilderEvent::Chunk(pairs), BuilderEvent::ProviderEnd],
                closure: closure_data(),
                commitment: proposal_commitment(),
            },
        )
        .unwrap();

    let mut aggregated: Vec<Transaction> = Vec::new();
    for expected_len in [3usize, 3, 1] {
        let content = batcher
            .get_proposal_content(GetProposalContentInput { proposal_id: PROPOSAL_ID })
            .unwrap()
            .content;
        match content {
            GetProposalContent::Txs(mut txs) => {
                assert!(txs.len() <= STREAMING_CHUNK_SIZE);
                assert_eq!(txs.len(), expected_len);
                aggregated.append(&mut txs);
            },
            GetProposalContent::Finished(_) => panic!("expected transactions"),
        }
    }
    assert_eq!(aggregated, expected_streamed_txs);

    let commitment = batcher
        .get_proposal_content(GetProposalContentInput { proposal_id: PROPOSAL_ID })
        .unwrap();
    match commitment.content {
        GetProposalContent::Finished(c) => assert_eq!(c, proposal_commitment()),
        GetProposalContent::Txs(_) => panic!("expected the commitment"),
    }

    let exhausted = batcher.get_proposal_content(GetProposalContentInput {
        proposal_id: PROPOSAL_ID,
    });
    assert_eq!(exhausted, Err(BatcherError::ProposalNotFound { proposal_id: PROPOSAL_ID }));
}

#[test]
fn get_height() {
    let batcher = create_batcher();
    let result = batcher.get_height();
    assert_eq!(result, GetHeightResponse { height: BlockNumber { n: INITIAL_HEIGHT } });
}

#[test]
fn propose_block_without_retrospective_block_hash() {
    let mut batcher = Batcher::new(
        BatcherConfig { outstream_content_buffer_size: STREAMING_CHUNK_SIZE },
        BlockNumber { n: STORED_BLOCK_HASH_BUFFER },
        BlockBuilderFactory { block_builder_config: BlockBuilderConfig::default() },
    );
    batcher
        .start_height(StartHeightInput { height: BlockNumber { n: STORED_BLOCK_HASH_BUFFER } })
        .unwrap();
    let result = batcher.propose_block(
        propose_block_input(),
        ProposalPlan {
            events: Vec::new(),
            closure: closure_data(),
            commitment: proposal_commitment(),
        },
    );
    assert_eq!(result, Err(BatcherError::MissingRetrospectiveBlockHash));
}

#[test]
fn get_content_from_unknown_proposal() {
    let mut batcher = create_batcher();
    let result = batcher.get_proposal_content(GetProposalContentInput {
        proposal_id: PROPOSAL_ID,
    });
    assert_eq!(result, Err(BatcherError::ProposalNotFound { proposal_id: PROPOSAL_ID }));
}

#[test]
fn add_sync_block() {
    let mut batcher = create_batcher();
    let sync_block = SyncBlock {
        block_number: BlockNumber { n: INITIAL_HEIGHT },
        state_diff: test_state_diff(),
        transaction_hashes: (0..5u64)
            .map(|i| TransactionHash { h: Felt { v: i + 12 } })
            .collect(),
    };
    batcher.add_sync_block(sync_block).unwrap();
    assert_eq!(batcher.storage_height, BlockNumber { n: INITIAL_HEIGHT + 1 });
    assert_eq!(batcher.committed.len(), 1);
    assert_eq!(batcher.committed[0].0, BlockNumber { n: INITIAL_HEIGHT });
    assert_eq!(batcher.committed[0].1, test_state_diff());
    assert_eq!(batcher.mempool_commits.len(), 1);
    assert_eq!(batcher.mempool_commits[0].address_to_nonce, test_contract_nonces());
    assert_eq!(
        batcher.mempool_commits[0].tx_hashes,
        (0..5u64).map(|i| TransactionHash { h: Felt { v: i + 12 } }).collect::<Vec<_>>()
    );
}

#[test]
fn decision_reached() {
    let mut batcher = create_batcher();
    batcher
        .start_height(StartHeightInput { height: BlockNumber { n: INITIAL_HEIGHT } })
        .unwrap();
    batcher.validate_block(validate_block_input(), validation_plan(1)).unwrap();
    batcher
        .send_proposal_content(SendProposalContentInput {
            proposal_id: PROPOSAL_ID,
            content: SendProposalContent::Txs(test_txs(0..1)),
        })
        .unwrap();
    batcher
        .send_proposal_content(SendProposalContentInput {
            proposal_id: PROPOSAL_ID,
            content: SendProposalContent::Finish,
        })
        .unwrap();

    let response = batcher
        .decision_reached(DecisionReachedInput { proposal_id: PROPOSAL_ID })
        .unwrap();
    assert_eq!(response.state_diff, test_state_diff());
    // Exactly one height was committed, and storage advanced by one.
    assert_eq!(batcher.storage_height, BlockNumber { n: INITIAL_HEIGHT + 1 });
    assert_eq!(batcher.committed.len(), 1);
    assert_eq!(batcher.committed[0].0, BlockNumber { n: INITIAL_HEIGHT });
    assert_eq!(batcher.mempool_commits.len(), 1);
    assert_eq!(
        batcher.mempool_commits[0].tx_hashes,
        vec![TransactionHash { h: Felt { v: 100 } }]
    );
    assert_eq!(batcher.mempool_commits[0].address_to_nonce, test_contract_nonces());
}

#[test]
fn decision_reached_no_executed_proposal() {
    let mut batcher = create_batcher();
    let result = batcher.decision_reached(DecisionReachedInput { proposal_id: PROPOSAL_ID });
    assert_eq!(
        result,
        Err(BatcherError::ExecutedProposalNotFound { proposal_id: PROPOSAL_ID })
    );
}

#[test]
fn propose_while_validating_is_refused() {
    let mut batcher = create_batcher();
    batcher
        .start_height(StartHeightInput { height: BlockNumber { n: INITIAL_HEIGHT } })
        .unwrap();
    batcher.validate_block(validate_block_input(), validation_plan(1)).unwrap();
    let result = batcher.propose_block(
        ProposeBlockInput {
            proposal_id: ProposalId(1),
            retrospective_block_hash: None,
            block_info: sequencer_core::block_builder::BlockInfo {
                block_number: BlockNumber { n: INITIAL_HEIGHT },
                timestamp: 0,
            },
        },
        ProposalPlan {
            events: Vec::new(),
            closure: closure_data(),
            commitment: proposal_commitment(),
        },
    );
    assert_eq!(
        result,
        Err(BatcherError::AnotherProposalInProgress { proposal_id: ProposalId(1) })
    );
}

#[test]
fn reused_proposal_id_is_refused() {
    let mut batcher = create_batcher();
    batcher
        .start_height(StartHeightInput { height: BlockNumber { n: INITIAL_HEIGHT } })
        .unwrap();
    batcher
        .propose_block(
            propose_block_input(),
            ProposalPlan {
                events: vec![BuilderEvent::ProviderEnd],
                closure: closure_data(),
                commitment: proposal_commitment(),
            },
        )
        .unwrap();
    let result = batcher.propose_block(
        propose_block_input(),
        ProposalPlan {
            events: Vec::new(),
            closure: closure_data(),
            commitment: proposal_commitment(),
        },
    );
    assert_eq!(
        result,
        Err(BatcherError::ProposalAlreadyExists { proposal_id: PROPOSAL_ID })
    );
}

#[test]
fn decision_on_a_failed_proposal_is_an_internal_error() {
    let mut batcher = batcher_with_invalid_proposal();
    let result = batcher.decision_reached(DecisionReachedInput { proposal_id: PROPOSAL_ID });
    assert_eq!(result, Err(BatcherError::InternalError));
}
