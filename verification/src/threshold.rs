//! Deciding whether the votes on a proposal meet the bar of its collection.

use vstd::prelude::*;

use crate::external::sns_integration::{is_affirmative, SnsProposalStatus};
use crate::types::{
    ClanopediaError, ClanopediaResult, Collection, CollectionView, ErrorKind, GovernanceModel,
    Principal, Proposal, ProposalView,
};
use crate::votes::{count_yes, count_yes_votes, tally_yes_weight, yes_weight};
use crate::wide::WideSum;

verus! {

/// What a collaborating service has said that bears on a decision.
#[derive(Clone, Copy, Debug, PartialEq, Eq, Structural)]
pub enum ThresholdEvidence {
    /// Nothing was asked.
    Absent,
    /// The balance service's total supply of the governance token.
    TotalSupply(u128),
    /// The external decision body's status of the linked proposal.
    Decision(SnsProposalStatus),
}

/// What has to be asked of a collaborating service before a decision.
#[derive(Clone, Copy, Debug, PartialEq, Eq)]
pub enum EvidenceRequest {
    /// Nothing: the decision rests on the records alone.
    Nothing,
    /// The total supply of `token`.
    TotalSupply { token: Principal },
    /// The status that `service` gives the proposal it knows as `reference`.
    Decision { service: Principal, reference: u64 },
}

/// Administrators have decided: at least `threshold` of them said Yes, and at
/// least one did.
pub open spec fn admin_majority_met(yes: nat, threshold: nat) -> bool {
    yes >= threshold && yes >= 1
}

/// Token holders have decided: the weight that said Yes, in percent of a
/// positive total supply, is at least `quorum`. Nothing is rounded.
pub open spec fn weighted_quorum_met(yes: nat, total_supply: nat, quorum: nat) -> bool {
    total_supply > 0 && yes * 100 >= total_supply * quorum
}

/// What has to be asked before the threshold of `p` in `c` can be decided.
pub open spec fn evidence_needed(c: CollectionView, p: ProposalView) -> EvidenceRequest {
    match c.governance_model {
        GovernanceModel::TokenBased => match c.governance_token {
            Some(token) => EvidenceRequest::TotalSupply { token },
            None => EvidenceRequest::Nothing,
        },
        GovernanceModel::SnsIntegrated => match (c.sns_governance_canister, p.sns_proposal_id) {
            (Some(service), Some(reference)) => EvidenceRequest::Decision { service, reference },
            _ => EvidenceRequest::Nothing,
        },
        _ => EvidenceRequest::Nothing,
    }
}

/// Whether the threshold of `p` in `c` is met, given what was learned from outside.
///
/// - Permissionless: always.
/// - Multisig: by the count of Yes votes against the collection's threshold.
/// - TokenBased: by the Yes weight against the quorum share of the total
///   supply; never without a governance token.
/// - SnsIntegrated: by the external status of the linked proposal; never
///   before one is linked; an error where no decision body is configured.
///
/// Evidence of the wrong kind for a decision that needs some is an error.
pub open spec fn threshold_verdict(
    c: CollectionView,
    p: ProposalView,
    evidence: ThresholdEvidence,
) -> Result<bool, ErrorKind> {
    match c.governance_model {
        GovernanceModel::Permissionless => Ok(true),
        GovernanceModel::Multisig => Ok(admin_majority_met(count_yes(p.votes), c.threshold as nat)),
        GovernanceModel::TokenBased => match c.governance_token {
            None => Ok(false),
            Some(_) => match evidence {
                ThresholdEvidence::TotalSupply(supply) => Ok(
                    weighted_quorum_met(
                        yes_weight(p.votes, p.token_votes),
                        supply as nat,
                        c.quorum_threshold as nat,
                    ),
                ),
                _ => Err(ErrorKind::InvalidArgument),
            },
        },
        GovernanceModel::SnsIntegrated => match c.sns_governance_canister {
            None => Err(ErrorKind::SnsNotConfigured),
            Some(_) => match p.sns_proposal_id {
                None => Ok(false),
                Some(_) => match evidence {
                    ThresholdEvidence::Decision(status) => Ok(is_affirmative(status)),
                    _ => Err(ErrorKind::InvalidArgument),
                },
            },
        },
    }
}

/// What has to be asked before the threshold of `proposal` can be decided.
pub fn required_evidence(collection: &Collection, proposal: &Proposal) -> (r: EvidenceRequest)
    ensures
        r == evidence_needed(collection@, proposal@),
{
    match collection.governance_model {
        GovernanceModel::TokenBased => match collection.governance_token {
            Some(token) => EvidenceRequest::TotalSupply { token },
            None => EvidenceRequest::Nothing,
        },
        GovernanceModel::SnsIntegrated => match collection.sns_governance_canister {
            Some(service) => match proposal.sns_proposal_id {
                Some(reference) => EvidenceRequest::Decision { service, reference },
                None => EvidenceRequest::Nothing,
            },
            None => EvidenceRequest::Nothing,
        },
        _ => EvidenceRequest::Nothing,
    }
}

/// Whether the votes on `proposal` meet the bar of `collection`.
pub fn check_threshold(collection: &Collection, proposal: &Proposal, evidence: ThresholdEvidence) -> (r:
    ClanopediaResult<bool>)
    ensures
        match r {
            Ok(met) => threshold_verdict(collection@, proposal@, evidence) == Ok::<bool, ErrorKind>(met),
            Err(e) => threshold_verdict(collection@, proposal@, evidence) == Err::<bool, ErrorKind>(
                e.spec_kind(),
            ),
        },
{
    match collection.governance_model {
        GovernanceModel::Permissionless => Ok(true),
        GovernanceModel::Multisig => {
            let yes = count_yes_votes(&proposal.votes);
            Ok(yes >= 1 && yes as u64 >= collection.threshold as u64)
        },
        GovernanceModel::TokenBased => match collection.governance_token {
            None => Ok(false),
            Some(_) => match evidence {
                ThresholdEvidence::TotalSupply(supply) => {
                    let yes = tally_yes_weight(&proposal.votes, &proposal.token_votes);
                    Ok(supply > 0 && yes.scaled_reaches(100, supply, collection.quorum_threshold))
                },
                _ => Err(
                    ClanopediaError::InvalidArgument(
                        String::from_str("The total supply of the governance token is needed"),
                    ),
                ),
            },
        },
        GovernanceModel::SnsIntegrated => match collection.sns_governance_canister {
            None => Err(ClanopediaError::SnsNotConfigured),
            Some(_) => match proposal.sns_proposal_id {
                None => Ok(false),
                Some(_) => match evidence {
                    ThresholdEvidence::Decision(status) => Ok(
                        matches!(status, SnsProposalStatus::Adopted | SnsProposalStatus::Executed),
                    ),
                    _ => Err(
                        ClanopediaError::InvalidArgument(
                            String::from_str("The external status of the proposal is needed"),
                        ),
                    ),
                },
            },
        },
    }
}

/// A whole-number quotient reaches `q` exactly when the dividend reaches `q` times the divisor.
pub proof fn lemma_quotient_reaches(a: nat, b: nat, q: nat)
    requires
        b > 0,
    ensures
        (a / b >= q) <==> (a >= q * b),
{
    assert((a / b >= q) <==> (a >= q * b)) by (nonlinear_arith)
        requires
            b > 0,
    ;
}

/// Whether the votes cast, in percent of the total supply and rounded down,
/// reach the quorum. Never where the total supply is zero.
pub fn has_reached_quorum(total_votes: u128, quorum_threshold: u32, total_supply: u128) -> (r: bool)
    ensures
        r == (total_supply > 0 && (total_votes * 100) / (total_supply as int) >= quorum_threshold),
{
    if total_supply == 0 {
        return false;
    }
    proof {
        lemma_quotient_reaches(
            (total_votes * 100) as nat,
            total_supply as nat,
            quorum_threshold as nat,
        );
        assert(total_supply * quorum_threshold == quorum_threshold * total_supply)
            by (nonlinear_arith);
    }
    WideSum::from_amount(total_votes).scaled_reaches(100, total_supply, quorum_threshold)
}

/// Whether the votes in favour, in percent of the votes cast and rounded down,
/// reach the threshold. Never where no vote was cast.
pub fn has_reached_threshold(votes_for: u128, total_votes: u128, threshold_percentage: u32) -> (r:
    bool)
    ensures
        r == (total_votes > 0 && (votes_for * 100) / (total_votes as int) >= threshold_percentage),
{
    if total_votes == 0 {
        return false;
    }
    proof {
        lemma_quotient_reaches(
            (votes_for * 100) as nat,
            total_votes as nat,
            threshold_percentage as nat,
        );
        assert(total_votes * threshold_percentage == threshold_percentage * total_votes)
            by (nonlinear_arith);
    }
    WideSum::from_amount(votes_for).scaled_reaches(100, total_votes, threshold_percentage)
}

} // verus!
