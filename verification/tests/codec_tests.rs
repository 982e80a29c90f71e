use sequencer_core::block_builder::{BlockExecutionArtifacts, BouncerWeights};
use sequencer_core::codec::{decode_artifacts, encode_artifacts};
use sequencer_core::exec_map::{exec_info_map_insert, exec_info_map_new};
use sequencer_core::execution::TxExecutionInfo;
use sequencer_core::types::{
    ClassHash, CompiledClassHash, ContractAddress, Felt, Nonce, StorageEntry, ThinStateDiff,
};

fn sample_artifacts() -> BlockExecutionArtifacts {
    let mut execution_infos = exec_info_map_new();
    exec_info_map_insert(
        &mut execution_infos,
        11,
        TxExecutionInfo { revert_happened: false, gas_consumed: 5 },
    );
    exec_info_map_insert(
        &mut execution_infos,
        22,
        TxExecutionInfo { revert_happened: true, gas_consumed: 9 },
    );
    BlockExecutionArtifacts {
        execution_infos,
        commitment_state_diff: ThinStateDiff {
            storage_diffs: vec![StorageEntry {
                address: ContractAddress { a: Felt { v: 4 } },
                key: Felt { v: 5 },
                value: Felt { v: 6 },
            }],
            nonces: vec![(ContractAddress { a: Felt { v: 33 } }, Nonce { n: Felt { v: 9 } })],
            declared_classes: vec![(
                ClassHash { h: Felt { v: 1 } },
                CompiledClassHash { h: Felt { v: 2 } },
            )],
            deployed_contracts: vec![(
                ContractAddress { a: Felt { v: 3 } },
                ClassHash { h: Felt { v: 1 } },
            )],
        },
        visited_segments_mapping: vec![(ClassHash { h: Felt { v: 1 } }, vec![0usize, 2, 7])],
        bouncer_weights: BouncerWeights {
            l1_gas: 1,
            message_segment_length: 2,
            n_events: 3,
            n_steps: 4,
            state_diff_size: 5,
        },
    }
}

#[test]
fn artifacts_round_trip_is_identity() {
    let artifacts = sample_artifacts();
    let words = encode_artifacts(&artifacts);
    let decoded = decode_artifacts(&words).unwrap();
    assert_eq!(decoded, artifacts);
}

#[test]
fn empty_artifacts_round_trip() {
    let artifacts = BlockExecutionArtifacts {
        execution_infos: exec_info_map_new(),
        commitment_state_diff: ThinStateDiff::default(),
        visited_segments_mapping: Vec::new(),
        bouncer_weights: BouncerWeights {
            l1_gas: 0,
            message_segment_length: 0,
            n_events: 0,
            n_steps: 0,
            state_diff_size: 0,
        },
    };
    let words = encode_artifacts(&artifacts);
    let decoded = decode_artifacts(&words).unwrap();
    assert_eq!(decoded, artifacts);
}

#[test]
fn truncated_stream_is_rejected() {
    let artifacts = sample_artifacts();
    let mut words = encode_artifacts(&artifacts);
    words.pop();
    assert!(decode_artifacts(&words).is_none());
}

#[test]
fn trailing_garbage_is_rejected() {
    let artifacts = sample_artifacts();
    let mut words = encode_artifacts(&artifacts);
    words.push(0);
    assert!(decode_artifacts(&words).is_none());
}

#[test]
fn bad_revert_flag_is_rejected() {
    let artifacts = sample_artifacts();
    let mut words = encode_artifacts(&artifacts);
    // The first entry's flag word follows the entry count and its key.
    words[2] = 3;
    assert!(decode_artifacts(&words).is_none());
}
