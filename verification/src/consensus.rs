//! The per-height consensus state machine: a Tendermint-style
//! propose / prevote / precommit protocol with rounds advanced on timeout and
//! a decision once a quorum of two thirds plus one precommits the same block.
//!
//! The network, the clock and the proposal building and validation are outside
//! collaborators: what they deliver — proposals already validated to a content
//! id, votes, timeouts, the id of a block built locally — arrives as events,
//! and every decision the machine takes from an event is verified against
//! `spec_handle_event`, the machine's mathematical transition function.

use vstd::prelude::*;

use crate::types::{copy_vec, BlockHash};

verus! {

/// A validator taking part in consensus.
#[derive(Clone, Copy, Debug, PartialEq, Eq, Hash, Structural)]
pub struct ValidatorId {
    pub v: u64,
}

/// The kind of a vote.
#[derive(Clone, Copy, Debug, PartialEq, Eq, Structural)]
pub enum VoteType {
    Prevote,
    Precommit,
}

/// A vote broadcast by a validator: for a block, or for nothing.
#[derive(Clone, Copy, Debug, PartialEq, Eq, Structural)]
pub struct Vote {
    pub vote_type: VoteType,
    pub height: u64,
    pub round: u32,
    pub block_hash: Option<BlockHash>,
    pub voter: ValidatorId,
}

/// The first part of a streamed proposal.
#[derive(Clone, Copy, Debug, PartialEq, Eq, Structural)]
pub struct ProposalInit {
    pub height: u64,
    pub round: u32,
    pub proposer: ValidatorId,
    pub valid_round: Option<u32>,
}

/// The last part of a streamed proposal: the content id voted on.
#[derive(Clone, Copy, Debug, PartialEq, Eq, Structural)]
pub struct ProposalFin {
    pub proposal_content_id: BlockHash,
}

/// The step the machine is in within the current round.
#[derive(Clone, Copy, Debug, PartialEq, Eq, Structural)]
pub enum Step {
    Propose,
    Prevote,
    Precommit,
    Committed,
}

/// What the machine asks its surroundings to do.
#[derive(Clone, Copy, Debug, PartialEq, Eq, Structural)]
pub enum ConsensusAction {
    /// Broadcast the vote to the other validators.
    BroadcastVote(Vote),
    /// Build a proposal for this round: this node is its proposer.
    RequestBuildProposal { round: u32 },
    /// A quorum precommitted the block: the height is decided.
    ReportDecision { block: BlockHash },
}

/// One external input to the height state machine.
#[derive(Clone, Copy, Debug, PartialEq, Eq, Structural)]
pub enum HeightEvent {
    /// A proposal arrived and was validated to its content id.
    Proposal { init: ProposalInit, content_id: BlockHash },
    /// A vote arrived from the network.
    Vote(Vote),
    /// A locally built proposal is ready.
    BuiltProposal { round: u32, content_id: BlockHash },
    /// The proposal timeout for the round fired.
    TimeoutPropose { round: u32 },
    /// The prevote timeout for the round fired.
    TimeoutPrevote { round: u32 },
    /// The precommit timeout for the round fired.
    TimeoutPrecommit { round: u32 },
}

/// The ghost image of the machine's state.
pub struct HeightStateModel {
    pub height: u64,
    pub my_id: ValidatorId,
    pub validators: Seq<ValidatorId>,
    pub round: u32,
    pub step: Step,
    pub locked_value: Option<BlockHash>,
    pub locked_round: Option<u32>,
    pub valid_value: Option<BlockHash>,
    pub valid_round: Option<u32>,
    pub proposal: Option<BlockHash>,
    pub prevotes: Seq<Vote>,
    pub precommits: Seq<Vote>,
    pub decision: Option<BlockHash>,
}

/// The quorum over `n` validators: two thirds plus one, `2f + 1` for
/// `f = (n - 1) / 3`.
pub open spec fn spec_quorum(n: int) -> int {
    2 * ((n - 1) / 3) + 1
}

/// How many recorded votes of the round are for the value.
pub open spec fn count_votes(votes: Seq<Vote>, round: u32, value: Option<BlockHash>) -> int
    decreases votes.len(),
{
    if votes.len() == 0 {
        0
    } else {
        count_votes(votes.drop_last(), round, value) + (
        if votes.last().round == round && votes.last().block_hash == value {
            1int
        } else {
            0int
        })
    }
}

/// Whether the pool already has a vote by this voter for this round.
pub open spec fn has_vote_from(votes: Seq<Vote>, voter: ValidatorId, round: u32) -> bool {
    exists|i: int|
        0 <= i < votes.len() && (#[trigger] votes[i]).voter == voter && votes[i].round == round
}

/// A vote pool ignores a duplicate by the same voter for the same round.
pub open spec fn spec_record_vote(votes: Seq<Vote>, v: Vote) -> Seq<Vote> {
    if has_vote_from(votes, v.voter, v.round) {
        votes
    } else {
        votes.push(v)
    }
}

/// The deterministic proposer of a round: the validators are walked round
/// robin.
pub open spec fn spec_proposer(validators: Seq<ValidatorId>, round: u32) -> ValidatorId
    recommends
        validators.len() > 0,
{
    validators[round as int % validators.len() as int]
}

/// Whether the machine prevotes for a proposed value: it must not be locked on
/// a different value, unless its lock is older than the proposal's valid
/// round.
pub open spec fn spec_prevote_accepts(
    locked_value: Option<BlockHash>,
    locked_round: Option<u32>,
    proposed: BlockHash,
    init_valid_round: Option<u32>,
) -> bool {
    match locked_value {
        None => true,
        Some(lv) => lv == proposed || (match (locked_round, init_valid_round) {
            (Some(lr), Some(vr)) => lr <= vr,
            _ => false,
        }),
    }
}

/// The machine's transition function: the next state and the actions taken,
/// for one event.
pub open spec fn spec_handle_event(s: HeightStateModel, ev: HeightEvent) -> (
    HeightStateModel,
    Seq<ConsensusAction>,
) {
    if s.step is Committed {
        (s, Seq::empty())
    } else {
        match ev {
            HeightEvent::Proposal { init, content_id } => {
                if init.height == s.height && init.round == s.round && init.proposer
                    == spec_proposer(s.validators, s.round) && s.step is Propose {
                    let accept = spec_prevote_accepts(
                        s.locked_value,
                        s.locked_round,
                        content_id,
                        init.valid_round,
                    );
                    let vote = Vote {
                        vote_type: VoteType::Prevote,
                        height: s.height,
                        round: s.round,
                        block_hash: if accept {
                            Some(content_id)
                        } else {
                            None
                        },
                        voter: s.my_id,
                    };
                    (
                        HeightStateModel {
                            proposal: Some(content_id),
                            step: Step::Prevote,
                            ..s
                        },
                        seq![ConsensusAction::BroadcastVote(vote)],
                    )
                } else {
                    (s, Seq::empty())
                }
            },
            HeightEvent::BuiltProposal { round, content_id } => {
                if round == s.round && s.step is Propose && s.my_id == spec_proposer(
                    s.validators,
                    s.round,
                ) {
                    let vote = Vote {
                        vote_type: VoteType::Prevote,
                        height: s.height,
                        round: s.round,
                        block_hash: Some(content_id),
                        voter: s.my_id,
                    };
                    (
                        HeightStateModel {
                            proposal: Some(content_id),
                            step: Step::Prevote,
                            ..s
                        },
                        seq![ConsensusAction::BroadcastVote(vote)],
                    )
                } else {
                    (s, Seq::empty())
                }
            },
            HeightEvent::TimeoutPropose { round } => {
                if round == s.round && s.step is Propose {
                    let vote = Vote {
                        vote_type: VoteType::Prevote,
                        height: s.height,
                        round: s.round,
                        block_hash: None,
                        voter: s.my_id,
                    };
                    (
                        HeightStateModel { step: Step::Prevote, ..s },
                        seq![ConsensusAction::BroadcastVote(vote)],
                    )
                } else {
                    (s, Seq::empty())
                }
            },
            HeightEvent::Vote(v) => {
                if v.height != s.height {
                    (s, Seq::empty())
                } else {
                    match v.vote_type {
                        VoteType::Prevote => {
                            let pool = spec_record_vote(s.prevotes, v);
                            let s1 = HeightStateModel { prevotes: pool, ..s };
                            if s.step is Prevote && v.round == s.round {
                                if v.block_hash is Some && count_votes(pool, s.round, v.block_hash)
                                    >= spec_quorum(s.validators.len() as int) {
                                    let id = v.block_hash.unwrap();
                                    let vote = Vote {
                                        vote_type: VoteType::Precommit,
                                        height: s.height,
                                        round: s.round,
                                        block_hash: Some(id),
                                        voter: s.my_id,
                                    };
                                    (
                                        HeightStateModel {
                                            locked_value: Some(id),
                                            locked_round: Some(s.round),
                                            valid_value: Some(id),
                                            valid_round: Some(s.round),
                                            step: Step::Precommit,
                                            ..s1
                                        },
                                        seq![ConsensusAction::BroadcastVote(vote)],
                                    )
                                } else if v.block_hash is None && count_votes(
                                    pool,
                                    s.round,
                                    None,
                                ) >= spec_quorum(s.validators.len() as int) {
                                    let vote = Vote {
                                        vote_type: VoteType::Precommit,
                                        height: s.height,
                                        round: s.round,
                                        block_hash: None,
                                        voter: s.my_id,
                                    };
                                    (
                                        HeightStateModel { step: Step::Precommit, ..s1 },
                                        seq![ConsensusAction::BroadcastVote(vote)],
                                    )
                                } else {
                                    (s1, Seq::empty())
                                }
                            } else {
                                (s1, Seq::empty())
                            }
                        },
                        VoteType::Precommit => {
                            let pool = spec_record_vote(s.precommits, v);
                            let s1 = HeightStateModel { precommits: pool, ..s };
                            if v.block_hash is Some && count_votes(pool, v.round, v.block_hash)
                                >= spec_quorum(s.validators.len() as int) {
                                let id = v.block_hash.unwrap();
                                (
                                    HeightStateModel {
                                        decision: Some(id),
                                        step: Step::Committed,
                                        ..s1
                                    },
                                    seq![ConsensusAction::ReportDecision { block: id }],
                                )
                            } else {
                                (s1, Seq::empty())
                            }
                        },
                    }
                }
            },
            HeightEvent::TimeoutPrevote { round } => {
                if round == s.round && s.step is Prevote {
                    let vote = Vote {
                        vote_type: VoteType::Precommit,
                        height: s.height,
                        round: s.round,
                        block_hash: None,
                        voter: s.my_id,
                    };
                    (
                        HeightStateModel { step: Step::Precommit, ..s },
                        seq![ConsensusAction::BroadcastVote(vote)],
                    )
                } else {
                    (s, Seq::empty())
                }
            },
            HeightEvent::TimeoutPrecommit { round } => {
                if round == s.round && s.round < u32::MAX && !(s.step is Committed) {
                    let s1 = HeightStateModel {
                        round: (s.round + 1) as u32,
                        step: Step::Propose,
                        proposal: None,
                        ..s
                    };
                    if s.my_id == spec_proposer(s.validators, s1.round) {
                        (
                            s1,
                            seq![
                                ConsensusAction::RequestBuildProposal { round: (s.round + 1) as u32 },
                            ],
                        )
                    } else {
                        (s1, Seq::empty())
                    }
                } else {
                    (s, Seq::empty())
                }
            },
        }
    }
}

/// The per-height state machine as run by the node.
#[derive(Debug, PartialEq, Eq)]
pub struct SingleHeightConsensus {
    pub height: u64,
    pub my_id: ValidatorId,
    pub validators: Vec<ValidatorId>,
    pub round: u32,
    pub step: Step,
    pub locked_value: Option<BlockHash>,
    pub locked_round: Option<u32>,
    pub valid_value: Option<BlockHash>,
    pub valid_round: Option<u32>,
    pub proposal: Option<BlockHash>,
    pub prevotes: Vec<Vote>,
    pub precommits: Vec<Vote>,
    pub decision: Option<BlockHash>,
}

impl SingleHeightConsensus {
    /// The ghost image of this state.
    pub open spec fn view(&self) -> HeightStateModel {
        HeightStateModel {
            height: self.height,
            my_id: self.my_id,
            validators: self.validators@,
            round: self.round,
            step: self.step,
            locked_value: self.locked_value,
            locked_round: self.locked_round,
            valid_value: self.valid_value,
            valid_round: self.valid_round,
            proposal: self.proposal,
            prevotes: self.prevotes@,
            precommits: self.precommits@,
            decision: self.decision,
        }
    }

    /// Starts the machine for a height: round 0, nothing locked, no votes. If
    /// this node proposes round 0, a build is requested.
    pub fn new(height: u64, my_id: ValidatorId, validators: Vec<ValidatorId>) -> (r: (
        SingleHeightConsensus,
        Vec<ConsensusAction>,
    ))
        requires
            validators@.len() > 0,
        ensures
            r.0.view() == (HeightStateModel {
                height,
                my_id,
                validators: validators@,
                round: 0,
                step: Step::Propose,
                locked_value: None,
                locked_round: None,
                valid_value: None,
                valid_round: None,
                proposal: None,
                prevotes: Seq::empty(),
                precommits: Seq::empty(),
                decision: None,
            }),
            my_id == spec_proposer(validators@, 0) ==> r.1@ == seq![
                ConsensusAction::RequestBuildProposal { round: 0u32 },
            ],
            my_id != spec_proposer(validators@, 0) ==> r.1@ == Seq::<ConsensusAction>::empty(),
    {
        let proposer = validators[0];
        let mut actions: Vec<ConsensusAction> = Vec::new();
        if my_id == proposer {
            actions.push(ConsensusAction::RequestBuildProposal { round: 0 });
        }
        proof {
            assert(0int % validators@.len() as int == 0);
        }
        let shc = SingleHeightConsensus {
            height,
            my_id,
            validators,
            round: 0,
            step: Step::Propose,
            locked_value: None,
            locked_round: None,
            valid_value: None,
            valid_round: None,
            proposal: None,
            prevotes: Vec::new(),
            precommits: Vec::new(),
            decision: None,
        };
        (shc, actions)
    }

    /// Whether the pool has a vote by this voter for this round.
    fn pool_has_vote(pool: &Vec<Vote>, voter: ValidatorId, round: u32) -> (r: bool)
        ensures
            r == has_vote_from(pool@, voter, round),
    {
        let mut i: usize = 0;
        while i < pool.len()
            invariant
                0 <= i <= pool@.len(),
                forall|k: int|
                    0 <= k < i ==> !((#[trigger] pool@[k]).voter == voter && pool@[k].round
                        == round),
            decreases pool@.len() - i,
        {
            if pool[i].voter == voter && pool[i].round == round {
                return true;
            }
            i += 1;
        }
        false
    }

    /// How many recorded votes of the round are for the value.
    fn pool_count(pool: &Vec<Vote>, round: u32, value: Option<BlockHash>) -> (r: usize)
        ensures
            r == count_votes(pool@, round, value),
    {
        let mut count: usize = 0;
        let mut i: usize = 0;
        proof {
            lemma_count_votes_bound(pool@, round, value);
        }
        while i < pool.len()
            invariant
                0 <= i <= pool@.len(),
                count == count_votes(pool@.take(i as int), round, value),
                count <= i,
            decreases pool@.len() - i,
        {
            proof {
                assert(pool@.take(i + 1).drop_last() =~= pool@.take(i as int));
                assert(pool@.take(i + 1).last() == pool@[i as int]);
                lemma_count_votes_bound(pool@.take(i as int), round, value);
            }
            let matches_vote = pool[i].round == round && match (pool[i].block_hash, value) {
                (Some(a), Some(b)) => a == b,
                (None, None) => true,
                _ => false,
            };
            if matches_vote {
                count += 1;
            }
            i += 1;
        }
        proof {
            assert(pool@.take(pool@.len() as int) =~= pool@);
        }
        count
    }

    /// The proposer of a round.
    pub fn proposer(&self, round: u32) -> (r: ValidatorId)
        requires
            self.validators@.len() > 0,
        ensures
            r == spec_proposer(self.validators@, round),
    {
        let idx = (round as usize) % self.validators.len();
        self.validators[idx]
    }

    /// Feeds one event to the machine and returns the actions it takes, as the
    /// transition function dictates.
    pub fn handle_event(&mut self, ev: HeightEvent) -> (r: Vec<ConsensusAction>)
        requires
            old(self).validators@.len() > 0,
        ensures
            (final (self).view(), r@) == spec_handle_event(old(self).view(), ev),
            final (self).validators == old(self).validators,
            final (self).height == old(self).height,
            final (self).my_id == old(self).my_id,
    {
        let mut actions: Vec<ConsensusAction> = Vec::new();
        if matches!(self.step, Step::Committed) {
            return actions;
        }
        match ev {
            HeightEvent::Proposal { init, content_id } => {
                let proposer = self.proposer(self.round);
                if init.height == self.height && init.round == self.round && init.proposer
                    == proposer && matches!(self.step, Step::Propose) {
                    let accept = match self.locked_value {
                        None => true,
                        Some(lv) => lv == content_id || (match (self.locked_round, init.valid_round) {
                            (Some(lr), Some(vr)) => lr <= vr,
                            _ => false,
                        }),
                    };
                    let vote = Vote {
                        vote_type: VoteType::Prevote,
                        height: self.height,
                        round: self.round,
                        block_hash: if accept {
                            Some(content_id)
                        } else {
                            None
                        },
                        voter: self.my_id,
                    };
                    self.proposal = Some(content_id);
                    self.step = Step::Prevote;
                    actions.push(ConsensusAction::BroadcastVote(vote));
                }
            },
            HeightEvent::BuiltProposal { round, content_id } => {
                let proposer = self.proposer(self.round);
                if round == self.round && matches!(self.step, Step::Propose) && self.my_id
                    == proposer {
                    let vote = Vote {
                        vote_type: VoteType::Prevote,
                        height: self.height,
                        round: self.round,
                        block_hash: Some(content_id),
                        voter: self.my_id,
                    };
                    self.proposal = Some(content_id);
                    self.step = Step::Prevote;
                    actions.push(ConsensusAction::BroadcastVote(vote));
                }
            },
            HeightEvent::TimeoutPropose { round } => {
                if round == self.round && matches!(self.step, Step::Propose) {
                    let vote = Vote {
                        vote_type: VoteType::Prevote,
                        height: self.height,
                        round: self.round,
                        block_hash: None,
                        voter: self.my_id,
                    };
                    self.step = Step::Prevote;
                    actions.push(ConsensusAction::BroadcastVote(vote));
                }
            },
            HeightEvent::Vote(v) => {
                if v.height == self.height {
                    match v.vote_type {
                        VoteType::Prevote => {
                            if !Self::pool_has_vote(&self.prevotes, v.voter, v.round) {
                                self.prevotes.push(v);
                            }
                            if matches!(self.step, Step::Prevote) && v.round == self.round {
                                let quorum = Self::quorum_size(self.validators.len());
                                if v.block_hash.is_some() && Self::pool_count(
                                    &self.prevotes,
                                    self.round,
                                    v.block_hash,
                                ) >= quorum {
                                    let id = match v.block_hash {
                                        Some(id) => id,
                                        None => BlockHash { h: crate::types::Felt { v: 0 } },
                                    };
                                    let vote = Vote {
                                        vote_type: VoteType::Precommit,
                                        height: self.height,
                                        round: self.round,
                                        block_hash: Some(id),
                                        voter: self.my_id,
                                    };
                                    self.locked_value = Some(id);
                                    self.locked_round = Some(self.round);
                                    self.valid_value = Some(id);
                                    self.valid_round = Some(self.round);
                                    self.step = Step::Precommit;
                                    actions.push(ConsensusAction::BroadcastVote(vote));
                                } else if v.block_hash.is_none() && Self::pool_count(
                                    &self.prevotes,
                                    self.round,
                                    None,
                                ) >= quorum {
                                    let vote = Vote {
                                        vote_type: VoteType::Precommit,
                                        height: self.height,
                                        round: self.round,
                                        block_hash: None,
                                        voter: self.my_id,
                                    };
                                    self.step = Step::Precommit;
                                    actions.push(ConsensusAction::BroadcastVote(vote));
                                }
                            }
                        },
                        VoteType::Precommit => {
                            if !Self::pool_has_vote(&self.precommits, v.voter, v.round) {
                                self.precommits.push(v);
                            }
                            let quorum = Self::quorum_size(self.validators.len());
                            if v.block_hash.is_some() && Self::pool_count(
                                &self.precommits,
                                v.round,
                                v.block_hash,
                            ) >= quorum {
                                let id = match v.block_hash {
                                    Some(id) => id,
                                    None => BlockHash { h: crate::types::Felt { v: 0 } },
                                };
                                self.decision = Some(id);
                                self.step = Step::Committed;
                                actions.push(ConsensusAction::ReportDecision { block: id });
                            }
                        },
                    }
                }
            },
            HeightEvent::TimeoutPrevote { round } => {
                if round == self.round && matches!(self.step, Step::Prevote) {
                    let vote = Vote {
                        vote_type: VoteType::Precommit,
                        height: self.height,
                        round: self.round,
                        block_hash: None,
                        voter: self.my_id,
                    };
                    self.step = Step::Precommit;
                    actions.push(ConsensusAction::BroadcastVote(vote));
                }
            },
            HeightEvent::TimeoutPrecommit { round } => {
                if round == self.round && self.round < u32::MAX {
                    self.round = self.round + 1;
                    self.step = Step::Propose;
                    self.proposal = None;
                    let proposer = self.proposer(self.round);
                    if self.my_id == proposer {
                        actions.push(ConsensusAction::RequestBuildProposal { round: self.round });
                    }
                }
            },
        }
        actions
    }

    /// The quorum over `n` validators.
    pub fn quorum_size(n: usize) -> (r: usize)
        requires
            n > 0,
        ensures
            r == spec_quorum(n as int),
    {
        2 * ((n - 1) / 3) + 1
    }
}

/// A vote count never exceeds the pool size.
pub proof fn lemma_count_votes_bound(votes: Seq<Vote>, round: u32, value: Option<BlockHash>)
    ensures
        0 <= count_votes(votes, round, value) <= votes.len(),
    decreases votes.len(),
{
    if votes.len() > 0 {
        lemma_count_votes_bound(votes.drop_last(), round, value);
    }
}

/// How one height ends.
#[derive(Clone, Copy, Debug, PartialEq, Eq, Structural)]
pub enum RunHeightRes {
    /// A quorum precommitted this block.
    Decision { block: BlockHash },
    /// Sync reported a higher height: this height is cancelled.
    Sync { height: u64 },
    /// The input ran out before a decision.
    Pending,
}

/// One input to the multi-height manager: a consensus message tagged with its
/// height, or a sync notification.
#[derive(Clone, Copy, Debug, PartialEq, Eq, Structural)]
pub enum ManagerEvent {
    Message { height: u64, event: HeightEvent },
    SyncNotification { height: u64 },
}

/// The initial state of a height.
pub open spec fn spec_initial_state(
    height: u64,
    my_id: ValidatorId,
    validators: Seq<ValidatorId>,
) -> HeightStateModel {
    HeightStateModel {
        height,
        my_id,
        validators,
        round: 0,
        step: Step::Propose,
        locked_value: None,
        locked_round: None,
        valid_value: None,
        valid_round: None,
        proposal: None,
        prevotes: Seq::empty(),
        precommits: Seq::empty(),
        decision: None,
    }
}

/// Feeding a sequence of events to the machine, collecting all actions.
pub open spec fn spec_replay(s: HeightStateModel, evs: Seq<HeightEvent>) -> (
    HeightStateModel,
    Seq<ConsensusAction>,
)
    decreases evs.len(),
{
    if evs.len() == 0 {
        (s, Seq::empty())
    } else {
        let (s1, a1) = spec_handle_event(s, evs[0]);
        let (s2, a2) = spec_replay(s1, evs.skip(1));
        (s2, a1 + a2)
    }
}

/// The buffered events for one height, in arrival order.
pub open spec fn cache_matching(cache: Seq<(u64, HeightEvent)>, h: u64) -> Seq<HeightEvent>
    decreases cache.len(),
{
    if cache.len() == 0 {
        Seq::empty()
    } else {
        cache_matching(cache.drop_last(), h) + (if cache.last().0 == h {
            seq![cache.last().1]
        } else {
            Seq::empty()
        })
    }
}

/// The buffer without the events of one height.
pub open spec fn cache_rest(cache: Seq<(u64, HeightEvent)>, h: u64) -> Seq<(u64, HeightEvent)>
    decreases cache.len(),
{
    if cache.len() == 0 {
        Seq::empty()
    } else {
        cache_rest(cache.drop_last(), h) + (if cache.last().0 == h {
            Seq::empty()
        } else {
            seq![cache.last()]
        })
    }
}

/// Consuming the manager's input for one height: messages below the height are
/// dropped, messages above it are buffered, messages at it drive the machine,
/// and a sync notification above the height cancels it — that check stands
/// before any message handling, so a sync can never be lost to a message that
/// was consumed for a cancelled height. Returns the final machine state, the
/// buffer, the actions, how the height ended, and the unconsumed input.
pub open spec fn spec_consume(
    s: HeightStateModel,
    events: Seq<ManagerEvent>,
    cache: Seq<(u64, HeightEvent)>,
) -> (HeightStateModel, Seq<(u64, HeightEvent)>, Seq<ConsensusAction>, RunHeightRes, Seq<
    ManagerEvent,
>)
    decreases events.len(),
{
    if s.decision is Some {
        (
            s,
            cache,
            Seq::empty(),
            RunHeightRes::Decision { block: s.decision.unwrap() },
            events,
        )
    } else if events.len() == 0 {
        (s, cache, Seq::empty(), RunHeightRes::Pending, Seq::empty())
    } else {
        match events[0] {
            ManagerEvent::SyncNotification { height } => {
                if height > s.height {
                    (
                        s,
                        cache,
                        Seq::empty(),
                        RunHeightRes::Sync { height },
                        events.skip(1),
                    )
                } else {
                    spec_consume(s, events.skip(1), cache)
                }
            },
            ManagerEvent::Message { height, event } => {
                if height < s.height {
                    spec_consume(s, events.skip(1), cache)
                } else if height > s.height {
                    spec_consume(s, events.skip(1), cache.push((height, event)))
                } else {
                    let (s1, a1) = spec_handle_event(s, event);
                    let (s2, c2, a2, res, left) = spec_consume(s1, events.skip(1), cache);
                    (s2, c2, a1 + a2, res, left)
                }
            },
        }
    }
}

/// Runs one height at a time and multiplexes messages across heights: messages
/// for future heights wait in a buffer until their height becomes current.
#[derive(Debug, PartialEq, Eq)]
pub struct MultiHeightManager {
    pub my_id: ValidatorId,
    pub timeouts: crate::config::TimeoutsConfig,
    pub cached: Vec<(u64, HeightEvent)>,
}

impl MultiHeightManager {
    pub fn new(my_id: ValidatorId, timeouts: crate::config::TimeoutsConfig) -> (r:
        MultiHeightManager)
        ensures
            r.my_id == my_id,
            r.timeouts == timeouts,
            r.cached@.len() == 0,
    {
        MultiHeightManager { my_id, timeouts, cached: Vec::new() }
    }

    /// Runs consensus for one height: replays the messages buffered for it,
    /// then consumes the input until the height decides, a sync cancels it, or
    /// the input runs out. Returns how the height ended, the actions taken in
    /// order, and the unconsumed input.
    pub fn run_height(
        &mut self,
        height: u64,
        validators: Vec<ValidatorId>,
        events: Vec<ManagerEvent>,
    ) -> (r: (RunHeightRes, Vec<ConsensusAction>, Vec<ManagerEvent>))
        requires
            validators@.len() > 0,
        ensures
            ({
                let s0 = spec_initial_state(height, old(self).my_id, validators@);
                let a0: Seq<ConsensusAction> = if old(self).my_id == spec_proposer(
                    validators@,
                    0,
                ) {
                    seq![ConsensusAction::RequestBuildProposal { round: 0u32 }]
                } else {
                    Seq::empty()
                };
                let (s1, a1) = spec_replay(s0, cache_matching(old(self).cached@, height));
                let (s2, c2, a2, res, left) = spec_consume(
                    s1,
                    events@,
                    cache_rest(old(self).cached@, height),
                );
                &&& r.0 == res
                &&& r.1@ == a0 + a1 + a2
                &&& r.2@ == left
                &&& final (self).cached@ == c2
                &&& final (self).my_id == old(self).my_id
                &&& final (self).timeouts == old(self).timeouts
            }),
    {
        let (mut shc, mut outputs) = SingleHeightConsensus::new(height, self.my_id, validators);

        // Replay the buffered messages of this height, keeping the rest.
        let ghost cache0 = self.cached@;
        let mut kept: Vec<(u64, HeightEvent)> = Vec::new();
        let mut i: usize = 0;
        while i < self.cached.len()
            invariant
                0 <= i <= self.cached@.len(),
                self.cached@ == cache0,
                kept@ =~= cache_rest(cache0.take(i as int), height),
                shc.validators@.len() > 0,
                shc.validators@ == validators@,
                shc.validators@ == spec_initial_state(height, old(self).my_id, shc.validators@).validators,
                (shc.view(), outputs@) == ({
                    let s0 = spec_initial_state(height, old(self).my_id, shc.validators@);
                    let a0: Seq<ConsensusAction> = if old(self).my_id == spec_proposer(
                        shc.validators@,
                        0,
                    ) {
                        seq![ConsensusAction::RequestBuildProposal { round: 0u32 }]
                    } else {
                        Seq::<ConsensusAction>::empty()
                    };
                    let (s1, a1) = spec_replay(s0, cache_matching(cache0.take(i as int), height));
                    (s1, a0 + a1)
                }),
                shc.height == height,
                shc.my_id == old(self).my_id,
                self.my_id == old(self).my_id,
                self.timeouts == old(self).timeouts,
            decreases self.cached@.len() - i,
        {
            let (h, ev) = self.cached[i];
            proof {
                assert(cache0.take(i + 1).drop_last() =~= cache0.take(i as int));
                assert(cache0.take(i + 1).last() == cache0[i as int]);
                lemma_replay_snoc(
                    spec_initial_state(height, old(self).my_id, shc.validators@),
                    cache_matching(cache0.take(i as int), height),
                    ev,
                );
            }
            if h == height {
                let ghost pre_outputs = outputs@;
                let acts = shc.handle_event(ev);
                append_actions(&mut outputs, &acts);
                proof {
                    assert(cache_matching(cache0.take(i + 1), height) =~= cache_matching(
                        cache0.take(i as int),
                        height,
                    ).push(ev));
                }
            } else {
                kept.push((h, ev));
            }
            i += 1;
        }
        proof {
            assert(cache0.take(cache0.len() as int) =~= cache0);
        }
        self.cached = kept;

        // Consume the input: the sync check stands outside any message
        // handling, so it is reached again on every iteration.
        let mut remaining = events;
        let mut result: RunHeightRes = RunHeightRes::Pending;
        let mut done = false;
        loop
            invariant_except_break
                !done,
                shc.validators@.len() > 0,
                shc.validators@ == validators@,
                shc.height == height,
                shc.my_id == old(self).my_id,
                self.my_id == old(self).my_id,
                self.timeouts == old(self).timeouts,
                ({
                    let s0 = spec_initial_state(height, old(self).my_id, shc.validators@);
                    let a0: Seq<ConsensusAction> = if old(self).my_id == spec_proposer(
                        shc.validators@,
                        0,
                    ) {
                        seq![ConsensusAction::RequestBuildProposal { round: 0u32 }]
                    } else {
                        Seq::<ConsensusAction>::empty()
                    };
                    let (s1, a1) = spec_replay(s0, cache_matching(old(self).cached@, height));
                    let (s2, c2, a2, res, left) = spec_consume(
                        s1,
                        events@,
                        cache_rest(old(self).cached@, height),
                    );
                    let (s2b, c2b, a2b, resb, leftb) = spec_consume(
                        shc.view(),
                        remaining@,
                        self.cached@,
                    );
                    &&& s2 == s2b
                    &&& c2 == c2b
                    &&& res == resb
                    &&& left == leftb
                    &&& a0 + a1 + a2 =~= outputs@ + a2b
                }),
            ensures
                done,
                shc.validators@ == validators@,
                self.my_id == old(self).my_id,
                self.timeouts == old(self).timeouts,
                ({
                    let s0 = spec_initial_state(height, old(self).my_id, shc.validators@);
                    let a0: Seq<ConsensusAction> = if old(self).my_id == spec_proposer(
                        shc.validators@,
                        0,
                    ) {
                        seq![ConsensusAction::RequestBuildProposal { round: 0u32 }]
                    } else {
                        Seq::<ConsensusAction>::empty()
                    };
                    let (s1, a1) = spec_replay(s0, cache_matching(old(self).cached@, height));
                    let (s2, c2, a2, res, left) = spec_consume(
                        s1,
                        events@,
                        cache_rest(old(self).cached@, height),
                    );
                    &&& self.cached@ == c2
                    &&& outputs@ == a0 + a1 + a2
                    &&& remaining@ == left
                    &&& result == res
                }),
            decreases remaining@.len(),
        {
            if let Some(d) = shc.decision {
                result = RunHeightRes::Decision { block: d };
                done = true;
                proof {
                    let (s2b, c2b, a2b, resb, leftb) = spec_consume(
                        shc.view(),
                        remaining@,
                        self.cached@,
                    );
                    assert(a2b =~= Seq::<ConsensusAction>::empty());
                    assert(outputs@ + a2b =~= outputs@);
                }
                break ;
            }
            if remaining.len() == 0 {
                result = RunHeightRes::Pending;
                done = true;
                proof {
                    let (s2b, c2b, a2b, resb, leftb) = spec_consume(
                        shc.view(),
                        remaining@,
                        self.cached@,
                    );
                    assert(a2b =~= Seq::<ConsensusAction>::empty());
                    assert(outputs@ + a2b =~= outputs@);
                }
                break ;
            }
            let ghost pre_remaining = remaining@;
            let ev = remaining.remove(0);
            proof {
                assert(remaining@ =~= pre_remaining.skip(1));
            }
            match ev {
                ManagerEvent::SyncNotification { height: sync_height } => {
                    if sync_height > height {
                        result = RunHeightRes::Sync { height: sync_height };
                        done = true;
                        proof {
                            let (s2b, c2b, a2b, resb, leftb) = spec_consume(
                                shc.view(),
                                pre_remaining,
                                self.cached@,
                            );
                            assert(a2b =~= Seq::<ConsensusAction>::empty());
                            assert(outputs@ + a2b =~= outputs@);
                        }
                        break ;
                    }
                },
                ManagerEvent::Message { height: msg_height, event } => {
                    if msg_height < height {
                        // Stale message: dropped.
                    } else if msg_height > height {
                        self.cached.push((msg_height, event));
                    } else {
                        let ghost pre_outputs = outputs@;
                        let acts = shc.handle_event(event);
                        append_actions(&mut outputs, &acts);
                        proof {
                            let (s2b, c2b, a2b, resb, leftb) = spec_consume(
                                shc.view(),
                                remaining@,
                                self.cached@,
                            );
                            assert(pre_outputs + (acts@ + a2b) =~= (pre_outputs + acts@) + a2b);
                        }
                    }
                },
            }
        }
        (result, outputs, remaining)
    }
}

/// Appends the actions of one step to the collected outputs.
fn append_actions(outputs: &mut Vec<ConsensusAction>, acts: &Vec<ConsensusAction>)
    ensures
        final (outputs)@ == old(outputs)@ + acts@,
{
    let mut k: usize = 0;
    while k < acts.len()
        invariant
            0 <= k <= acts@.len(),
            outputs@ =~= old(outputs)@ + acts@.take(k as int),
        decreases acts@.len() - k,
    {
        outputs.push(acts[k]);
        proof {
            assert(outputs@ =~= old(outputs)@ + acts@.take(k + 1));
        }
        k += 1;
    }
    proof {
        assert(acts@.take(acts@.len() as int) =~= acts@);
        assert(outputs@ =~= old(outputs)@ + acts@);
    }
}

/// A decided height.
#[derive(Clone, Copy, Debug, PartialEq, Eq, Structural)]
pub struct HeightDecision {
    pub height: u64,
    pub block: BlockHash,
}

/// One height of the multi-height run, as a function of the manager's buffer
/// and input: how the height ends, the actions taken, the unconsumed input,
/// and the buffer left behind.
pub open spec fn spec_height_step(
    height: u64,
    my_id: ValidatorId,
    validators: Seq<ValidatorId>,
    cache: Seq<(u64, HeightEvent)>,
    events: Seq<ManagerEvent>,
) -> (RunHeightRes, Seq<ConsensusAction>, Seq<ManagerEvent>, Seq<(u64, HeightEvent)>) {
    let s0 = spec_initial_state(height, my_id, validators);
    let a0: Seq<ConsensusAction> = if my_id == spec_proposer(validators, 0) {
        seq![ConsensusAction::RequestBuildProposal { round: 0u32 }]
    } else {
        Seq::empty()
    };
    let (s1, a1) = spec_replay(s0, cache_matching(cache, height));
    let (s2, c2, a2, res, left) = spec_consume(s1, events, cache_rest(cache, height));
    (res, a0 + a1 + a2, left, c2)
}

/// The whole multi-height run as a function of the input: heights are run one
/// after the other for at most `fuel` heights; a decision records the height
/// and moves to the next; a sync skips past the synced height; a pending
/// height ends the run. Returns the decisions and the actions, in order.
pub open spec fn spec_run_heights(
    current: u64,
    my_id: ValidatorId,
    validators: Seq<ValidatorId>,
    cache: Seq<(u64, HeightEvent)>,
    events: Seq<ManagerEvent>,
    fuel: nat,
) -> (Seq<HeightDecision>, Seq<ConsensusAction>)
    decreases fuel,
{
    if fuel == 0 {
        (Seq::empty(), Seq::empty())
    } else {
        let (res, acts, left, c2) = spec_height_step(current, my_id, validators, cache, events);
        match res {
            RunHeightRes::Decision { block } => {
                if current == u64::MAX {
                    (seq![HeightDecision { height: current, block }], acts)
                } else {
                    let (ds, more) = spec_run_heights(
                        (current + 1) as u64,
                        my_id,
                        validators,
                        c2,
                        left,
                        (fuel - 1) as nat,
                    );
                    (seq![HeightDecision { height: current, block }] + ds, acts + more)
                }
            },
            RunHeightRes::Sync { height } => {
                if height == u64::MAX {
                    (Seq::empty(), acts)
                } else if height + 1 > current {
                    let (ds, more) = spec_run_heights(
                        (height + 1) as u64,
                        my_id,
                        validators,
                        c2,
                        left,
                        (fuel - 1) as nat,
                    );
                    (ds, acts + more)
                } else if current == u64::MAX {
                    (Seq::empty(), acts)
                } else {
                    let (ds, more) = spec_run_heights(
                        (current + 1) as u64,
                        my_id,
                        validators,
                        c2,
                        left,
                        (fuel - 1) as nat,
                    );
                    (ds, acts + more)
                }
            },
            RunHeightRes::Pending => (Seq::empty(), acts),
        }
    }
}

impl MultiHeightManager {
    /// Drives consensus height after height over one input queue, for at most
    /// `max_heights` heights: each decided height is recorded and the next
    /// height begins; a sync notification skips past the synced height; the
    /// run stops when the input runs out. Decisions are recorded in strictly
    /// increasing height order, starting at or after the start height.
    pub fn run_heights(
        &mut self,
        start_height: u64,
        validators: &Vec<ValidatorId>,
        events: Vec<ManagerEvent>,
        max_heights: usize,
    ) -> (r: (Vec<HeightDecision>, Vec<ConsensusAction>))
        requires
            validators@.len() > 0,
        ensures
            (r.0@, r.1@) == spec_run_heights(
                start_height,
                old(self).my_id,
                validators@,
                old(self).cached@,
                events@,
                max_heights as nat,
            ),
            final (self).my_id == old(self).my_id,
            final (self).timeouts == old(self).timeouts,
            forall|i: int, j: int|
                0 <= i < j < r.0@.len() ==> (#[trigger] r.0@[i]).height < (
                #[trigger] r.0@[j]).height,
            forall|i: int| 0 <= i < r.0@.len() ==> (#[trigger] r.0@[i]).height >= start_height,
    {
        let mut decisions: Vec<HeightDecision> = Vec::new();
        let mut actions: Vec<ConsensusAction> = Vec::new();
        let mut current: u64 = start_height;
        let mut remaining = events;
        let mut rounds_left = max_heights;
        proof {
            let (ds, more) = spec_run_heights(
                start_height,
                old(self).my_id,
                validators@,
                old(self).cached@,
                events@,
                max_heights as nat,
            );
            assert(decisions@ + ds =~= ds);
            assert(actions@ + more =~= more);
        }
        while rounds_left > 0
            invariant
                validators@.len() > 0,
                current >= start_height,
                self.my_id == old(self).my_id,
                self.timeouts == old(self).timeouts,
                forall|i: int, j: int|
                    0 <= i < j < decisions@.len() ==> (#[trigger] decisions@[i]).height < (
                    #[trigger] decisions@[j]).height,
                forall|i: int|
                    0 <= i < decisions@.len() ==> (#[trigger] decisions@[i]).height
                        >= start_height,
                decisions@.len() > 0 ==> decisions@.last().height < current,
                spec_run_heights(
                    start_height,
                    old(self).my_id,
                    validators@,
                    old(self).cached@,
                    events@,
                    max_heights as nat,
                ) == ({
                    let (ds, more) = spec_run_heights(
                        current,
                        old(self).my_id,
                        validators@,
                        self.cached@,
                        remaining@,
                        rounds_left as nat,
                    );
                    (decisions@ + ds, actions@ + more)
                }),
            decreases rounds_left,
        {
            let ghost fuel_top = rounds_left as nat;
            let ghost cache_pre = self.cached@;
            let ghost rem_pre = remaining@;
            let ghost act_pre = actions@;
            let ghost dec_pre = decisions@;
            rounds_left -= 1;
            let vals = copy_vec(validators);
            let (res, outs, left) = self.run_height(current, vals, remaining);
            remaining = left;
            append_actions(&mut actions, &outs);
            proof {
                let (sres, sacts, sleft, scache) = spec_height_step(
                    current,
                    old(self).my_id,
                    validators@,
                    cache_pre,
                    rem_pre,
                );
                assert(sres == res && sacts == outs@ && sleft == remaining@ && scache
                    == self.cached@);
            }
            match res {
                RunHeightRes::Decision { block } => {
                    decisions.push(HeightDecision { height: current, block });
                    proof {
                        let (ds, more) = spec_run_heights(
                            current,
                            old(self).my_id,
                            validators@,
                            cache_pre,
                            rem_pre,
                            fuel_top,
                        );
                        if current == u64::MAX {
                            assert(dec_pre + seq![HeightDecision { height: current, block }]
                                =~= decisions@);
                            assert(act_pre + outs@ =~= actions@);
                        } else {
                            let (ds2, more2) = spec_run_heights(
                                (current + 1) as u64,
                                old(self).my_id,
                                validators@,
                                self.cached@,
                                remaining@,
                                (fuel_top - 1) as nat,
                            );
                            assert(dec_pre + (seq![HeightDecision { height: current, block }]
                                + ds2) =~= decisions@ + ds2);
                            assert(act_pre + (outs@ + more2) =~= actions@ + more2);
                        }
                    }
                    if current == u64::MAX {
                        return (decisions, actions);
                    }
                    current = current + 1;
                },
                RunHeightRes::Sync { height } => {
                    // The sync reported a height at least as high as ours;
                    // continue past it.
                    proof {
                        if height != u64::MAX {
                            let next_spec: u64 = if height + 1 > current {
                                (height + 1) as u64
                            } else if current < u64::MAX {
                                (current + 1) as u64
                            } else {
                                current
                            };
                            if height + 1 > current || current < u64::MAX {
                                let (ds2, more2) = spec_run_heights(
                                    next_spec,
                                    old(self).my_id,
                                    validators@,
                                    self.cached@,
                                    remaining@,
                                    (fuel_top - 1) as nat,
                                );
                                assert(dec_pre + ds2 =~= decisions@ + ds2);
                                assert(act_pre + (outs@ + more2) =~= actions@ + more2);
                            } else {
                                assert(act_pre + outs@ =~= actions@);
                                assert(dec_pre + Seq::<HeightDecision>::empty() =~= decisions@);
                            }
                        } else {
                            assert(act_pre + outs@ =~= actions@);
                            assert(dec_pre + Seq::<HeightDecision>::empty() =~= decisions@);
                        }
                    }
                    if height == u64::MAX {
                        return (decisions, actions);
                    }
                    let next = height + 1;
                    if next > current {
                        current = next;
                    } else {
                        if current == u64::MAX {
                            return (decisions, actions);
                        }
                        current = current + 1;
                    }
                },
                RunHeightRes::Pending => {
                    proof {
                        assert(act_pre + outs@ =~= actions@);
                        assert(dec_pre + Seq::<HeightDecision>::empty() =~= decisions@);
                    }
                    return (decisions, actions);
                },
            }
        }
        proof {
            let (ds, more) = spec_run_heights(
                current,
                old(self).my_id,
                validators@,
                self.cached@,
                remaining@,
                0,
            );
            assert(decisions@ + ds =~= decisions@);
            assert(actions@ + more =~= actions@);
        }
        (decisions, actions)
    }
}

/// With an honest proposer and network, a height runs to a decision on exactly
/// the proposed block: the validated proposal arrives, the proposer's prevote
/// completes a quorum, and the proposer's precommit decides. Stated for a
/// validator pair, where the quorum is one vote.
pub proof fn lemma_honest_height_decides(
    height: u64,
    me: ValidatorId,
    proposer: ValidatorId,
    id: BlockHash,
)
    requires
        me != proposer,
    ensures
        ({
            let validators = seq![proposer, me];
            let s0 = spec_initial_state(height, me, validators);
            let events = seq![
                HeightEvent::Proposal {
                    init: ProposalInit { height, round: 0u32, proposer, valid_round: None },
                    content_id: id,
                },
                HeightEvent::Vote(
                    Vote {
                        vote_type: VoteType::Prevote,
                        height,
                        round: 0u32,
                        block_hash: Some(id),
                        voter: proposer,
                    },
                ),
                HeightEvent::Vote(
                    Vote {
                        vote_type: VoteType::Precommit,
                        height,
                        round: 0u32,
                        block_hash: Some(id),
                        voter: proposer,
                    },
                ),
            ];
            &&& spec_replay(s0, events).0.decision == Some(id)
            &&& spec_consume(
                s0,
                events.map_values(|ev: HeightEvent| ManagerEvent::Message { height, event: ev }),
                Seq::empty(),
            ).3 == (RunHeightRes::Decision { block: id })
        }),
{
    let validators = seq![proposer, me];
    let s0 = spec_initial_state(height, me, validators);
    let prevote = Vote {
        vote_type: VoteType::Prevote,
        height,
        round: 0u32,
        block_hash: Some(id),
        voter: proposer,
    };
    let precommit = Vote {
        vote_type: VoteType::Precommit,
        height,
        round: 0u32,
        block_hash: Some(id),
        voter: proposer,
    };
    let ev0 = HeightEvent::Proposal {
        init: ProposalInit { height, round: 0u32, proposer, valid_round: None },
        content_id: id,
    };
    let ev1 = HeightEvent::Vote(prevote);
    let ev2 = HeightEvent::Vote(precommit);
    let events = seq![ev0, ev1, ev2];

    assert(validators.len() == 2);
    assert(spec_quorum(2) == 1);
    assert(0int % 2int == 0);
    assert(spec_proposer(validators, 0) == proposer);

    let (s1, _a1) = spec_handle_event(s0, ev0);
    assert(s1.step is Prevote && s1.proposal == Some(id)) by {
        assert(spec_prevote_accepts(None, None, id, None));
    }
    let (s2, _a2) = spec_handle_event(s1, ev1);
    assert(s2.step is Precommit && s2.locked_value == Some(id)) by {
        assert(!has_vote_from(s1.prevotes, proposer, 0));
        let pool = s1.prevotes.push(prevote);
        assert(pool.drop_last() =~= s1.prevotes);
        assert(pool.last() == prevote);
        assert(count_votes(s1.prevotes, 0, Some(id)) == 0);
        assert(count_votes(pool, 0, Some(id)) == 1);
    }
    let (s3, _a3) = spec_handle_event(s2, ev2);
    assert(s3.decision == Some(id)) by {
        assert(!has_vote_from(s2.precommits, proposer, 0));
        let pool = s2.precommits.push(precommit);
        assert(pool.drop_last() =~= s2.precommits);
        assert(pool.last() == precommit);
        assert(count_votes(s2.precommits, 0, Some(id)) == 0);
        assert(count_votes(pool, 0, Some(id)) == 1);
    }
    assert(events.skip(1) =~= seq![ev1, ev2]);
    assert(events.skip(1).skip(1) =~= seq![ev2]);
    assert(seq![ev2].skip(1) =~= Seq::<HeightEvent>::empty());
    assert(spec_replay(s3, Seq::<HeightEvent>::empty()).0 == s3);
    assert(spec_replay(s2, seq![ev2]).0 == s3);
    assert(spec_replay(s1, seq![ev1, ev2]).0 == s3);
    assert(spec_replay(s0, events).0 == s3);

    // The multi-height manager reaches the same decision when the events
    // arrive as messages for this height.
    let msgs = events.map_values(|ev: HeightEvent| ManagerEvent::Message { height, event: ev });
    let empty_cache = Seq::<(u64, HeightEvent)>::empty();
    assert(msgs.len() == 3);
    assert(msgs[0] == (ManagerEvent::Message { height, event: ev0 }));
    assert(msgs[1] == (ManagerEvent::Message { height, event: ev1 }));
    assert(msgs[2] == (ManagerEvent::Message { height, event: ev2 }));
    let m1 = msgs.skip(1);
    let m2 = msgs.skip(2);
    assert(m1 =~= seq![msgs[1], msgs[2]]);
    assert(m2 =~= seq![msgs[2]]);
    assert(m1.skip(1) =~= m2);
    assert(m2.skip(1) =~= Seq::<ManagerEvent>::empty());
    assert(s0.decision is None && s1.decision is None && s2.decision is None);
    assert(s3.decision == Some(id));
    assert(spec_consume(s3, m2.skip(1), empty_cache).3 == (RunHeightRes::Decision {
        block: id,
    }));
    assert(spec_consume(s2, m2, empty_cache).3 == (RunHeightRes::Decision { block: id }));
    assert(spec_consume(s1, m1, empty_cache).3 == (RunHeightRes::Decision { block: id }));
    assert(spec_consume(s0, msgs, empty_cache).3 == (RunHeightRes::Decision { block: id }));
}

/// Replaying one more event appends its actions.
pub proof fn lemma_replay_snoc(s: HeightStateModel, evs: Seq<HeightEvent>, ev: HeightEvent)
    ensures
        spec_replay(s, evs.push(ev)).0 == spec_handle_event(spec_replay(s, evs).0, ev).0,
        spec_replay(s, evs.push(ev)).1 == spec_replay(s, evs).1 + spec_handle_event(
            spec_replay(s, evs).0,
            ev,
        ).1,
    decreases evs.len(),
{
    let whole = evs.push(ev);
    assert(whole.len() == evs.len() + 1);
    if evs.len() == 0 {
        assert(whole[0] == ev);
        assert(whole.skip(1) =~= Seq::<HeightEvent>::empty());
        let (h1, b1) = spec_handle_event(s, ev);
        assert(spec_replay(h1, whole.skip(1)) == (h1, Seq::<ConsensusAction>::empty()));
        assert(spec_replay(s, whole).0 == h1);
        assert(spec_replay(s, whole).1 =~= b1);
        assert(spec_replay(s, evs).0 == s);
        assert(spec_replay(s, evs).1 =~= Seq::<ConsensusAction>::empty());
        assert(spec_replay(s, evs).1 + b1 =~= b1);
    } else {
        assert(whole[0] == evs[0]);
        assert(whole.skip(1) =~= evs.skip(1).push(ev));
        let (h1, b1) = spec_handle_event(s, evs[0]);
        lemma_replay_snoc(h1, evs.skip(1), ev);
        let (s1, a1) = spec_replay(h1, evs.skip(1));
        let (s2, a2) = spec_handle_event(s1, ev);
        assert(spec_replay(s, whole).0 == s2);
        assert(spec_replay(s, whole).1 =~= b1 + (a1 + a2));
        assert(spec_replay(s, evs).0 == s1);
        assert(spec_replay(s, evs).1 =~= b1 + a1);
        assert(b1 + (a1 + a2) =~= (b1 + a1) + a2);
    }
}

} // verus!
