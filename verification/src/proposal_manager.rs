//! The proposal manager: tracks at most one active proposal per height and
//! holds the results of completed proposals keyed by their proposal id.
//!
//! Each completed proposal's result is written exactly once, and taking a
//! result consumes it: a second take of the same id finds nothing.

use vstd::prelude::*;

use crate::batcher_types::{ProposalId, ProposalOutput};
use crate::block_builder::BlockBuilderError;

verus! {

/// The result a proposal ended with.
pub type ProposalResult = Result<ProposalOutput, BlockBuilderError>;

/// Errors of proposal bookkeeping.
#[derive(Clone, Copy, Debug, PartialEq, Eq, Structural)]
pub enum GenerateProposalError {
    /// A proposal is already being generated.
    AlreadyGeneratingProposal,
    /// This proposal id was already used.
    ProposalAlreadyExists { proposal_id: ProposalId },
}

/// Tracks the active proposal and the completed ones.
#[derive(Debug, PartialEq, Eq)]
pub struct ProposalManager {
    pub active_proposal: Option<ProposalId>,
    pub completed: Vec<(ProposalId, ProposalResult)>,
}

impl ProposalManager {
    /// Completed proposal ids are unique: each result is written exactly once.
    pub open spec fn wf(&self) -> bool {
        forall|i: int, j: int|
            0 <= i < j < self.completed@.len() ==> (#[trigger] self.completed@[i]).0 != (
            #[trigger] self.completed@[j]).0
    }

    /// Whether a completed result is held for the id.
    pub open spec fn spec_has_completed(&self, id: ProposalId) -> bool {
        exists|i: int| 0 <= i < self.completed@.len() && (#[trigger] self.completed@[i]).0 == id
    }

    /// The held result for the id.
    pub open spec fn spec_completed_result(&self, id: ProposalId) -> ProposalResult {
        self.completed@[choose|i: int|
            0 <= i < self.completed@.len() && (#[trigger] self.completed@[i]).0 == id].1
    }

    pub fn new() -> (r: ProposalManager)
        ensures
            r.active_proposal is None,
            r.completed@.len() == 0,
            r.wf(),
    {
        ProposalManager { active_proposal: None, completed: Vec::new() }
    }

    /// Begins a proposal: fails if another proposal is active or the id was
    /// already completed, if and only if.
    pub fn begin_proposal(&mut self, proposal_id: ProposalId) -> (r: Result<
        (),
        GenerateProposalError,
    >)
        requires
            old(self).wf(),
        ensures
            final (self).wf(),
            final (self).completed == old(self).completed,
            r is Ok <==> (old(self).active_proposal is None && !old(self).spec_has_completed(
                proposal_id,
            )),
            r is Ok ==> final (self).active_proposal == Some(proposal_id),
            r is Err ==> final (self).active_proposal == old(self).active_proposal,
            old(self).active_proposal is Some ==> r == Err::<(), GenerateProposalError>(
                GenerateProposalError::AlreadyGeneratingProposal,
            ),
            (old(self).active_proposal is None && old(self).spec_has_completed(proposal_id)) ==> r
                == Err::<(), GenerateProposalError>(
                GenerateProposalError::ProposalAlreadyExists { proposal_id },
            ),
    {
        if self.active_proposal.is_some() {
            return Err(GenerateProposalError::AlreadyGeneratingProposal);
        }
        if self.find_completed(proposal_id).is_some() {
            return Err(GenerateProposalError::ProposalAlreadyExists { proposal_id });
        }
        self.active_proposal = Some(proposal_id);
        Ok(())
    }

    /// Completes the active proposal with its result: the result is recorded
    /// under the id and the manager becomes idle.
    pub fn complete_proposal(&mut self, proposal_id: ProposalId, result: ProposalResult)
        requires
            old(self).wf(),
            old(self).active_proposal == Some(proposal_id),
            !old(self).spec_has_completed(proposal_id),
        ensures
            final (self).wf(),
            final (self).active_proposal is None,
            final (self).completed@ == old(self).completed@.push((proposal_id, result)),
            final (self).spec_has_completed(proposal_id),
            final (self).spec_completed_result(proposal_id) == result,
    {
        self.completed.push((proposal_id, result));
        self.active_proposal = None;
        proof {
            let es = self.completed@;
            let i = choose|i: int| 0 <= i < es.len() && (#[trigger] es[i]).0 == proposal_id;
            assert(es[es.len() - 1].0 == proposal_id);
            assert(i == es.len() - 1);
        }
    }

    /// The position of a completed id, if any.
    fn find_completed(&self, proposal_id: ProposalId) -> (r: Option<usize>)
        ensures
            r matches Some(i) ==> 0 <= i < self.completed@.len()
                && self.completed@[i as int].0 == proposal_id,
            r is None ==> !self.spec_has_completed(proposal_id),
    {
        let mut i: usize = 0;
        while i < self.completed.len()
            invariant
                0 <= i <= self.completed@.len(),
                forall|k: int| 0 <= k < i ==> (#[trigger] self.completed@[k]).0 != proposal_id,
            decreases self.completed@.len() - i,
        {
            if self.completed[i].0 == proposal_id {
                return Some(i);
            }
            i += 1;
        }
        None
    }

    /// Whether a completed result is held for the id and whether it succeeded,
    /// without consuming it.
    pub fn completed_result_is_ok(&self, proposal_id: ProposalId) -> (r: Option<bool>)
        requires
            self.wf(),
        ensures
            r is Some <==> self.spec_has_completed(proposal_id),
            r matches Some(b) ==> b == self.spec_completed_result(proposal_id) is Ok,
    {
        let idx = match self.find_completed(proposal_id) {
            Some(i) => i,
            None => {
                return None;
            },
        };
        proof {
            let j = choose|j: int|
                0 <= j < self.completed@.len() && (#[trigger] self.completed@[j]).0 == proposal_id;
            assert(j == idx);
        }
        Some(self.completed[idx].1.is_ok())
    }

    /// Removes and returns the completed result for the id; nothing for an id
    /// that was never completed or was already taken.
    pub fn take_proposal_result(&mut self, proposal_id: ProposalId) -> (r: Option<ProposalResult>)
        requires
            old(self).wf(),
        ensures
            final (self).wf(),
            final (self).active_proposal == old(self).active_proposal,
            r is Some <==> old(self).spec_has_completed(proposal_id),
            r matches Some(res) ==> res == old(self).spec_completed_result(proposal_id),
            !final (self).spec_has_completed(proposal_id),
            forall|i: int|
                0 <= i < final (self).completed@.len() ==> old(self).completed@.contains(
                    #[trigger] final (self).completed@[i],
                ),
            forall|id2: ProposalId|
                id2 != proposal_id ==> #[trigger] final (self).spec_has_completed(id2) == old(
                    self,
                ).spec_has_completed(id2),
            r is None ==> *final (self) == *old(self),
    {
        let idx = match self.find_completed(proposal_id) {
            Some(i) => i,
            None => {
                return None;
            },
        };
        let ghost pre = self.completed@;
        let (_, result) = self.completed.remove(idx);
        proof {
            let es = self.completed@;
            assert(es =~= pre.subrange(0, idx as int) + pre.subrange(
                idx + 1,
                pre.len() as int,
            ));
            assert forall|i: int| 0 <= i < es.len() implies (#[trigger] es[i]).0
                != proposal_id by {
                if i < idx {
                    assert(es[i] == pre[i]);
                } else {
                    assert(es[i] == pre[i + 1]);
                }
            }
            let j = choose|j: int| 0 <= j < pre.len() && (#[trigger] pre[j]).0 == proposal_id;
            assert(j == idx);
            assert forall|id2: ProposalId|
                id2 != proposal_id && old(self).spec_has_completed(
                    id2,
                ) implies self.spec_has_completed(id2) by {
                let m = choose|m: int| 0 <= m < pre.len() && (#[trigger] pre[m]).0 == id2;
                if m < idx {
                    assert(es[m] == pre[m]);
                } else {
                    assert(es[m - 1] == pre[m]);
                }
            }
            assert forall|id2: ProposalId|
                id2 != proposal_id && self.spec_has_completed(id2) implies old(
                self,
            ).spec_has_completed(id2) by {
                let k = choose|k: int| 0 <= k < es.len() && (#[trigger] es[k]).0 == id2;
                if k < idx {
                    assert(es[k] == pre[k]);
                } else {
                    assert(es[k] == pre[k + 1]);
                }
            }
        }
        Some(result)
    }

    /// Whether any proposal is active.
    pub fn get_active_proposal(&self) -> (r: Option<ProposalId>)
        ensures
            r == self.active_proposal,
    {
        self.active_proposal
    }

    /// Aborts the proposal if it is the active one: the active proposal is
    /// cleared and an aborted result is recorded for it.
    pub fn abort_proposal(&mut self, proposal_id: ProposalId)
        requires
            old(self).wf(),
            old(self).active_proposal == Some(proposal_id) ==> !old(self).spec_has_completed(
                proposal_id,
            ),
        ensures
            final (self).wf(),
            old(self).active_proposal == Some(proposal_id) ==> {
                &&& final (self).active_proposal is None
                &&& final (self).completed@ == old(self).completed@.push(
                    (proposal_id, Err::<ProposalOutput, BlockBuilderError>(
                        BlockBuilderError::Aborted,
                    )),
                )
            },
            old(self).active_proposal != Some(proposal_id) ==> *final (self) == *old(self),
    {
        match self.active_proposal {
            Some(active) => {
                if active == proposal_id {
                    self.complete_proposal(proposal_id, Err(BlockBuilderError::Aborted));
                }
            },
            None => {},
        }
    }

    /// Aborts the active proposal, if any, and forgets every completed result.
    pub fn reset(&mut self)
        ensures
            final (self).active_proposal is None,
            final (self).completed@.len() == 0,
            final (self).wf(),
    {
        self.active_proposal = None;
        self.completed = Vec::new();
    }
}

} // verus!
