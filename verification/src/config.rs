//! Configuration of the consensus manager.

use vstd::prelude::*;

use crate::types::BlockNumber;

verus! {

/// Timeouts of the per-height consensus state machine, in milliseconds.
#[derive(Clone, Copy, Debug, PartialEq, Eq, Structural)]
pub struct TimeoutsConfig {
    pub proposal_timeout_millis: u64,
    pub prevote_timeout_millis: u64,
    pub precommit_timeout_millis: u64,
}

impl Default for TimeoutsConfig {
    fn default() -> (r: Self)
        ensures
            r.proposal_timeout_millis == 3000,
            r.prevote_timeout_millis == 1000,
            r.precommit_timeout_millis == 1000,
    {
        TimeoutsConfig {
            proposal_timeout_millis: 3000,
            prevote_timeout_millis: 1000,
            precommit_timeout_millis: 1000,
        }
    }
}

/// Configuration for consensus.
#[derive(Clone, Copy, Debug, PartialEq, Eq, Structural)]
pub struct ConsensusConfig {
    pub validator_id: u64,
    pub start_height: BlockNumber,
    pub num_validators: u64,
    pub consensus_delay_millis: u64,
    pub timeouts: TimeoutsConfig,
}

impl Default for ConsensusConfig {
    fn default() -> (r: Self)
        ensures
            r.num_validators == 1,
            r.consensus_delay_millis == 5000,
            r.start_height.n == 0,
    {
        ConsensusConfig {
            validator_id: 0,
            start_height: BlockNumber { n: 0 },
            num_validators: 1,
            consensus_delay_millis: 5000,
            timeouts: TimeoutsConfig::default(),
        }
    }
}

} // verus!
