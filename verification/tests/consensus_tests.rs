use sequencer_core::config::TimeoutsConfig;
use sequencer_core::consensus::{
    ConsensusAction, HeightEvent, ManagerEvent, MultiHeightManager, ProposalInit, RunHeightRes,
    SingleHeightConsensus, Vote, VoteType, ValidatorId,
};
use sequencer_core::types::{BlockHash, Felt};

const PROPOSER_ID: ValidatorId = ValidatorId { v: 100 };
const VALIDATOR_ID: ValidatorId = ValidatorId { v: 101 };
const VALIDATOR_ID_2: ValidatorId = ValidatorId { v: 102 };
const VALIDATOR_ID_3: ValidatorId = ValidatorId { v: 103 };

fn felt_one() -> BlockHash {
    BlockHash { h: Felt { v: 1 } }
}

fn felt_two() -> BlockHash {
    BlockHash { h: Felt { v: 2 } }
}

fn proposal_init(height: u64, round: u32, proposer: ValidatorId) -> ProposalInit {
    ProposalInit { height, round, proposer, valid_round: None }
}

fn prevote(block_hash: Option<BlockHash>, height: u64, round: u32, voter: ValidatorId) -> Vote {
    Vote { vote_type: VoteType::Prevote, height, round, block_hash, voter }
}

fn precommit(block_hash: Option<BlockHash>, height: u64, round: u32, voter: ValidatorId) -> Vote {
    Vote { vote_type: VoteType::Precommit, height, round, block_hash, voter }
}

fn msg(height: u64, event: HeightEvent) -> ManagerEvent {
    ManagerEvent::Message { height, event }
}

fn assert_decision(res: RunHeightRes, id: BlockHash) {
    match res {
        RunHeightRes::Decision { block } => assert_eq!(block, id),
        _ => panic!("Expected decision"),
    }
}

/// Messages for height 2 arrive before those for height 1: height 1 still
/// decides its block, and the buffered messages then decide height 2.
#[test]
fn manager_multiple_heights_unordered() {
    let validators = vec![PROPOSER_ID, VALIDATOR_ID];
    let mut manager = MultiHeightManager::new(VALIDATOR_ID, TimeoutsConfig::default());

    // Height 2 first, then height 1.
    let events = vec![
        msg(2, HeightEvent::Proposal { init: proposal_init(2, 0, PROPOSER_ID), content_id: felt_two() }),
        msg(2, HeightEvent::Vote(prevote(Some(felt_two()), 2, 0, PROPOSER_ID))),
        msg(2, HeightEvent::Vote(precommit(Some(felt_two()), 2, 0, PROPOSER_ID))),
        msg(1, HeightEvent::Proposal { init: proposal_init(1, 0, PROPOSER_ID), content_id: felt_one() }),
        msg(1, HeightEvent::Vote(prevote(Some(felt_one()), 1, 0, PROPOSER_ID))),
        msg(1, HeightEvent::Vote(precommit(Some(felt_one()), 1, 0, PROPOSER_ID))),
    ];

    let (res, _actions, leftover) = manager.run_height(1, validators.clone(), events);
    assert_decision(res, felt_one());
    assert!(leftover.is_empty());

    // Height 2 runs entirely from the buffered messages.
    let (res, _actions, leftover) = manager.run_height(2, validators, Vec::new());
    assert_decision(res, felt_two());
    assert!(leftover.is_empty());
}

/// A sync notification for a higher height cancels the current height, and the
/// run continues past the synced height.
#[test]
fn run_consensus_sync() {
    let validators = vec![PROPOSER_ID, VALIDATOR_ID];
    let mut manager = MultiHeightManager::new(VALIDATOR_ID, TimeoutsConfig::default());

    let events = vec![
        // Height 1 gets under way but a sync for height 2 arrives.
        msg(1, HeightEvent::Proposal { init: proposal_init(1, 0, PROPOSER_ID), content_id: felt_one() }),
        ManagerEvent::SyncNotification { height: 2 },
        // Height 3 then decides normally.
        msg(3, HeightEvent::Proposal { init: proposal_init(3, 0, PROPOSER_ID), content_id: felt_two() }),
        msg(3, HeightEvent::Vote(prevote(Some(felt_two()), 3, 0, PROPOSER_ID))),
        msg(3, HeightEvent::Vote(precommit(Some(felt_two()), 3, 0, PROPOSER_ID))),
    ];

    let (decisions, _actions) = manager.run_heights(1, &validators, events, 10);
    assert_eq!(decisions.len(), 1);
    assert_eq!(decisions[0].height, 3);
    assert_eq!(decisions[0].block, felt_two());
}

/// A sync notification for an already-passed height is ignored: the current
/// height keeps running and still decides. The check happens between events,
/// never inside the handling of one, so no message is lost to it.
#[test]
fn run_consensus_sync_cancellation_safety() {
    let validators = vec![PROPOSER_ID, VALIDATOR_ID];
    let mut manager = MultiHeightManager::new(VALIDATOR_ID, TimeoutsConfig::default());

    let events = vec![
        msg(1, HeightEvent::Proposal { init: proposal_init(1, 0, PROPOSER_ID), content_id: felt_one() }),
        // An old sync arrives mid-flight; it must not cancel height 1.
        ManagerEvent::SyncNotification { height: 0 },
        msg(1, HeightEvent::Vote(prevote(Some(felt_one()), 1, 0, PROPOSER_ID))),
        msg(1, HeightEvent::Vote(precommit(Some(felt_one()), 1, 0, PROPOSER_ID))),
    ];

    let (res, actions, _leftover) = manager.run_height(1, validators, events);
    assert_decision(res, felt_one());
    // The node prevoted for the proposal before the old sync arrived.
    assert!(actions.contains(&ConsensusAction::BroadcastVote(prevote(
        Some(felt_one()),
        1,
        0,
        VALIDATOR_ID
    ))));
}

/// Prevotes and precommits for nothing from two of three peers do not decide;
/// after the timeouts the node advances to round 1 and prevotes for nothing
/// there; a quorum for the block at round 1 then decides it.
#[test]
fn test_timeouts() {
    let validators = vec![PROPOSER_ID, VALIDATOR_ID_2, VALIDATOR_ID, VALIDATOR_ID_3];
    let mut manager = MultiHeightManager::new(VALIDATOR_ID, TimeoutsConfig::default());

    let events = vec![
        msg(1, HeightEvent::Proposal { init: proposal_init(1, 0, PROPOSER_ID), content_id: felt_one() }),
        msg(1, HeightEvent::Vote(prevote(None, 1, 0, VALIDATOR_ID_2))),
        msg(1, HeightEvent::Vote(prevote(None, 1, 0, VALIDATOR_ID_3))),
        msg(1, HeightEvent::Vote(precommit(None, 1, 0, VALIDATOR_ID_2))),
        msg(1, HeightEvent::Vote(precommit(None, 1, 0, VALIDATOR_ID_3))),
        msg(1, HeightEvent::TimeoutPrevote { round: 0 }),
        msg(1, HeightEvent::TimeoutPrecommit { round: 0 }),
        // Round 1: the node's proposal timeout fires and it prevotes nothing.
        msg(1, HeightEvent::TimeoutPropose { round: 1 }),
        // A quorum for the block arrives at round 1 and decides it.
        msg(1, HeightEvent::Vote(prevote(Some(felt_one()), 1, 1, PROPOSER_ID))),
        msg(1, HeightEvent::Vote(prevote(Some(felt_one()), 1, 1, VALIDATOR_ID_2))),
        msg(1, HeightEvent::Vote(prevote(Some(felt_one()), 1, 1, VALIDATOR_ID_3))),
        msg(1, HeightEvent::Vote(precommit(Some(felt_one()), 1, 1, PROPOSER_ID))),
        msg(1, HeightEvent::Vote(precommit(Some(felt_one()), 1, 1, VALIDATOR_ID_2))),
        msg(1, HeightEvent::Vote(precommit(Some(felt_one()), 1, 1, VALIDATOR_ID_3))),
    ];

    let (res, actions, _leftover) = manager.run_height(1, validators, events);
    // The node handled the timeout and answered round 1 with a nil prevote.
    assert!(actions.contains(&ConsensusAction::BroadcastVote(prevote(None, 1, 1, VALIDATOR_ID))));
    assert_decision(res, felt_one());
}

/// With an honest proposer and network, the height decides exactly the
/// proposed id.
#[test]
fn honest_height_decides_proposed_block() {
    let validators = vec![PROPOSER_ID, VALIDATOR_ID];
    let (mut shc, actions) = SingleHeightConsensus::new(7, VALIDATOR_ID, validators);
    assert!(actions.is_empty());

    let a1 = shc.handle_event(HeightEvent::Proposal {
        init: proposal_init(7, 0, PROPOSER_ID),
        content_id: felt_one(),
    });
    assert_eq!(
        a1,
        vec![ConsensusAction::BroadcastVote(prevote(Some(felt_one()), 7, 0, VALIDATOR_ID))]
    );
    let a2 = shc.handle_event(HeightEvent::Vote(prevote(Some(felt_one()), 7, 0, PROPOSER_ID)));
    assert_eq!(
        a2,
        vec![ConsensusAction::BroadcastVote(precommit(Some(felt_one()), 7, 0, VALIDATOR_ID))]
    );
    let a3 = shc.handle_event(HeightEvent::Vote(precommit(Some(felt_one()), 7, 0, PROPOSER_ID)));
    assert_eq!(a3, vec![ConsensusAction::ReportDecision { block: felt_one() }]);
    assert_eq!(shc.decision, Some(felt_one()));
}

/// Decisions across heights come out in strictly increasing height order.
#[test]
fn decisions_in_height_order() {
    let validators = vec![PROPOSER_ID, VALIDATOR_ID];
    let mut manager = MultiHeightManager::new(VALIDATOR_ID, TimeoutsConfig::default());

    let mut events = Vec::new();
    for h in [2u64, 1, 3] {
        events.push(msg(
            h,
            HeightEvent::Proposal {
                init: proposal_init(h, 0, PROPOSER_ID),
                content_id: BlockHash { h: Felt { v: h } },
            },
        ));
        events.push(msg(h, HeightEvent::Vote(prevote(Some(BlockHash { h: Felt { v: h } }), h, 0, PROPOSER_ID))));
        events.push(msg(h, HeightEvent::Vote(precommit(Some(BlockHash { h: Felt { v: h } }), h, 0, PROPOSER_ID))));
    }

    let (decisions, _actions) = manager.run_heights(1, &validators, events, 5);
    assert_eq!(decisions.len(), 3);
    for w in decisions.windows(2) {
        assert!(w[0].height < w[1].height);
    }
    for d in &decisions {
        assert_eq!(d.block, BlockHash { h: Felt { v: d.height } });
    }
}
