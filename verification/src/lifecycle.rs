//! The life of a proposal: the statuses it can take and the steps between them.

use vstd::prelude::*;

use crate::storage::{lemma_registry_put_proposal, RegistryView};
use crate::types::{ProposalStatus, ProposalView};

verus! {

/// The steps that a proposal can take: an active one is approved or expires;
/// an approved one expires, is executed or is rejected. Nothing leaves
/// Rejected, Expired or Executed.
pub open spec fn allowed_transition(from: ProposalStatus, to: ProposalStatus) -> bool {
    match (from, to) {
        (ProposalStatus::Active, ProposalStatus::Approved) => true,
        (ProposalStatus::Active, ProposalStatus::Expired) => true,
        (ProposalStatus::Approved, ProposalStatus::Expired) => true,
        (ProposalStatus::Approved, ProposalStatus::Executed) => true,
        (ProposalStatus::Approved, ProposalStatus::Rejected) => true,
        _ => false,
    }
}

/// `to` can be reached from `from` by any number of allowed steps.
pub open spec fn reachable(from: ProposalStatus, to: ProposalStatus) -> bool {
    match from {
        ProposalStatus::Active => true,
        ProposalStatus::Approved => to != ProposalStatus::Active,
        _ => to == from,
    }
}

/// What one operation may do to a proposal: leave its status or take one
/// allowed step, and leave a proposal in a final status exactly as it is.
pub open spec fn proposal_step(before: ProposalView, after: ProposalView) -> bool {
    &&& after.id == before.id
    &&& after.status == before.status || allowed_transition(before.status, after.status)
    &&& before.status.is_terminal() ==> after == before
}

/// What one operation may do to the proposals of a registry: each proposal
/// that is still there afterwards has taken at most one allowed step.
pub open spec fn registry_step(before: RegistryView, after: RegistryView) -> bool {
    forall|c: Seq<char>, p: Seq<char>|
        (#[trigger] before.proposal(c, p)) is Some && after.proposal(c, p) is Some
            ==> proposal_step(before.proposal(c, p).unwrap(), after.proposal(c, p).unwrap())
}

/// A proposal in a final status never changes status again, and no proposal
/// ever returns to Active: whatever sequence of allowed steps is taken.
pub proof fn lemma_statuses_only_move_forward(
    first: ProposalStatus,
    second: ProposalStatus,
    third: ProposalStatus,
)
    ensures
        allowed_transition(first, second) ==> reachable(first, second),
        reachable(first, first),
        reachable(first, second) && reachable(second, third) ==> reachable(first, third),
        first.is_terminal() && reachable(first, second) ==> second == first,
        reachable(first, ProposalStatus::Active) ==> first == ProposalStatus::Active,
        !allowed_transition(ProposalStatus::Executed, second),
        !allowed_transition(first, ProposalStatus::Active),
{
}

/// Storing a proposal that is one step away from the one stored under its id,
/// or that is new, is a step of the registry.
pub(crate) proof fn lemma_put_is_step(reg: RegistryView, collection_id: Seq<char>, p: ProposalView)
    requires
        reg.proposal(collection_id, p.id) matches Some(old) ==> proposal_step(old, p),
    ensures
        registry_step(reg, reg.put_proposal(collection_id, p)),
{
    let after = reg.put_proposal(collection_id, p);
    assert forall|c: Seq<char>, id: Seq<char>|
        (#[trigger] reg.proposal(c, id)) is Some && after.proposal(c, id) is Some implies proposal_step(
        reg.proposal(c, id).unwrap(),
        after.proposal(c, id).unwrap(),
    ) by {
        lemma_registry_put_proposal(reg, collection_id, p, c, id);
        crate::keys::lemma_position(reg.ids(), c);
        let col = reg.collection(c).unwrap();
        crate::keys::lemma_position(col.proposal_ids(), id);
    }
}

} // verus!
