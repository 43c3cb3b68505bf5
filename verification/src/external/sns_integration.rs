//! The records of the external decision body, and the status that follows from them.

use vstd::prelude::*;

use crate::text::{concat3, decimal_text};
use crate::types::{ClanopediaError, ClanopediaResult, ErrorKind, Principal};

verus! {

/// What a proposal asks the external decision body to do.
#[derive(Clone, Debug)]
pub enum Action {
    ExecuteGenericNervousSystemFunction { function_id: u64, payload: Vec<u8> },
    UpgradeSnsToNextVersion { target_version: Option<u64> },
    ExecuteNervousSystemFunction { function_id: u64, payload: Vec<u8> },
}

/// A proposal to hand to the external decision body.
#[derive(Clone, Debug)]
pub struct MakeProposalRequest {
    pub url: String,
    pub title: String,
    pub summary: String,
    pub action: Option<Action>,
    pub proposer: Option<Principal>,
}

#[derive(Clone, Copy, Debug)]
pub struct MakeProposalResponse {
    pub proposal_id: Option<u64>,
}

#[derive(Clone, Copy, Debug)]
pub struct GetProposalRequest {
    pub proposal_id: u64,
}

#[derive(Clone, Debug)]
pub struct SnsProposal {
    pub title: String,
    pub summary: String,
    pub url: String,
    pub action: Option<Action>,
}

#[derive(Clone, Copy, Debug, PartialEq, Eq, Structural)]
pub enum SnsVote {
    Yes,
    No,
}

#[derive(Clone, Copy, Debug)]
pub struct SnsBallot {
    pub vote: SnsVote,
    pub voting_power: u64,
    pub cast_timestamp_seconds: u64,
}

#[derive(Clone, Copy, Debug)]
pub struct SnsTally {
    pub yes: u64,
    pub no: u64,
    pub total: u64,
    pub timestamp_seconds: u64,
}

/// What the external decision body keeps about one of its proposals.
#[derive(Clone, Debug)]
pub struct SnsProposalData {
    pub id: Option<u64>,
    pub proposer: Option<Principal>,
    pub reject_cost_e8s: u64,
    pub proposal: Option<SnsProposal>,
    pub ballots: Vec<SnsBallot>,
    pub initial_voting_period: u64,
    pub current_voting_period: u64,
    pub decided_timestamp_seconds: u64,
    pub executed_timestamp_seconds: u64,
    pub failed_timestamp_seconds: u64,
    pub failure_reason: Option<String>,
    pub latest_tally: Option<SnsTally>,
    pub reward_event_round: u64,
    pub is_eligible_for_rewards: bool,
}

/// Where a proposal stands with the external decision body.
#[derive(Clone, Copy, Debug, PartialEq, Eq, Structural)]
pub enum SnsProposalStatus {
    Open,
    Rejected,
    Adopted,
    Executed,
    Failed,
}

/// The status that the time stamps and the tally of a record amount to:
/// executed before failed before decided; a decided proposal is adopted where
/// the tally holds more Yes than No, rejected where it does not, and still open
/// where there is no tally.
pub open spec fn status_of(
    executed_at: u64,
    failed_at: u64,
    decided_at: u64,
    tally: Option<SnsTally>,
) -> SnsProposalStatus {
    if executed_at > 0 {
        SnsProposalStatus::Executed
    } else if failed_at > 0 {
        SnsProposalStatus::Failed
    } else if decided_at > 0 {
        match tally {
            Some(t) => if t.yes > t.no {
                SnsProposalStatus::Adopted
            } else {
                SnsProposalStatus::Rejected
            },
            None => SnsProposalStatus::Open,
        }
    } else {
        SnsProposalStatus::Open
    }
}

/// The external decision body has said yes.
pub open spec fn is_affirmative(status: SnsProposalStatus) -> bool {
    status == SnsProposalStatus::Adopted || status == SnsProposalStatus::Executed
}

/// The status of proposal `proposal_id`, read from what the external decision
/// body answered: its record, or nothing where it knows no such proposal.
pub fn check_sns_proposal_status(proposal_id: u64, response: &Option<SnsProposalData>) -> (r:
    ClanopediaResult<SnsProposalStatus>)
    ensures
        match r {
            Ok(status) => response matches Some(data) && status == status_of(
                data.executed_timestamp_seconds,
                data.failed_timestamp_seconds,
                data.decided_timestamp_seconds,
                data.latest_tally,
            ),
            Err(e) => response is None && e.spec_kind() == ErrorKind::NotFound && e.spec_message()
                == "SNS proposal "@ + crate::text::decimal(proposal_id as nat) + " not found"@,
        },
{
    match response {
        Some(data) => {
            if data.executed_timestamp_seconds > 0 {
                Ok(SnsProposalStatus::Executed)
            } else if data.failed_timestamp_seconds > 0 {
                Ok(SnsProposalStatus::Failed)
            } else if data.decided_timestamp_seconds > 0 {
                match data.latest_tally {
                    Some(tally) => {
                        if tally.yes > tally.no {
                            Ok(SnsProposalStatus::Adopted)
                        } else {
                            Ok(SnsProposalStatus::Rejected)
                        }
                    },
                    None => Ok(SnsProposalStatus::Open),
                }
            } else {
                Ok(SnsProposalStatus::Open)
            }
        },
        None => {
            let number = decimal_text(proposal_id as u128);
            Err(ClanopediaError::NotFound(concat3("SNS proposal ", number.as_str(), " not found")))
        },
    }
}

/// Whether the external decision body has said yes to proposal `proposal_id`.
pub fn check_sns_proposal_approved(proposal_id: u64, response: &Option<SnsProposalData>) -> (r:
    ClanopediaResult<bool>)
    ensures
        match r {
            Ok(approved) => response matches Some(data) && approved == is_affirmative(
                status_of(
                    data.executed_timestamp_seconds,
                    data.failed_timestamp_seconds,
                    data.decided_timestamp_seconds,
                    data.latest_tally,
                ),
            ),
            Err(e) => response is None && e.spec_kind() == ErrorKind::NotFound && e.spec_message()
                == "SNS proposal "@ + crate::text::decimal(proposal_id as nat) + " not found"@,
        },
{
    match check_sns_proposal_status(proposal_id, response) {
        Ok(status) => Ok(
            matches!(status, SnsProposalStatus::Adopted | SnsProposalStatus::Executed),
        ),
        Err(e) => Err(e),
    }
}

} // verus!
