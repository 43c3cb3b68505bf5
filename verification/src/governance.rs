//! Proposals on a collection: creating them, voting on them, reading them.

use vstd::prelude::*;

use crate::keys::lemma_position;
use crate::lifecycle::{lemma_put_is_step, proposal_step, registry_step};
use crate::storage::{
    collection_not_found, lemma_registry_put_proposal, lemma_registry_put_proposal_wf, Registry,
    RegistryView,
};
use crate::text::{concat2, decimal, hex4, hex4_text, last_four, last_four_digits};
use crate::external::sns_integration::{is_affirmative, SnsProposalStatus};
use crate::threshold::{
    check_threshold, evidence_needed, required_evidence, threshold_verdict, EvidenceRequest,
    ThresholdEvidence,
};
use crate::types::{
    clone_proposals, failure, ClanopediaError, ClanopediaResult, Collection, CollectionId,
    CollectionView, ErrorKind, GovernanceModel, Principal, Proposal, ProposalStatus,
    ProposalType, ProposalTypeView, ProposalView, Vote, PROPOSAL_DURATION_NANOS,
};
use crate::votes::{find_vote, has_voted, voters};

verus! {

/// The error that says that the collection called `collection_id` holds no
/// proposal called `proposal_id`.
pub fn proposal_not_found(proposal_id: &str, collection_id: &str) -> (e: ClanopediaError)
    ensures
        e.spec_kind() == ErrorKind::NotFound,
        e.spec_message() == "Proposal "@ + proposal_id@ + " not found in collection "@
            + collection_id@,
{
    let mut message = concat2("Proposal ", proposal_id);
    message.append(" not found in collection ");
    message.append(collection_id);
    ClanopediaError::NotFound(message)
}

/// Where a proposal is kept: the place of its collection and its place in it.
pub(crate) fn locate(registry: &Registry, collection_id: &str, proposal_id: &str) -> (r: ClanopediaResult<
    (usize, usize),
>)
    ensures
        match r {
            Ok((ci, pi)) => {
                &&& registry@.position(collection_id@) == Some(ci as int)
                &&& ci < registry.collections.len()
                &&& registry.collections[ci as int]@.proposal_position(proposal_id@) == Some(
                    pi as int,
                )
                &&& pi < registry.collections[ci as int].proposals.len()
                &&& registry@.proposal(collection_id@, proposal_id@) == Some(
                    registry.collections[ci as int].proposals[pi as int]@,
                )
                &&& registry@.collection(collection_id@) == Some(registry.collections[ci as int]@)
            },
            Err(e) => registry@.proposal(collection_id@, proposal_id@) is None && e.spec_kind()
                == ErrorKind::NotFound,
        },
{
    let ci = match registry.find(collection_id) {
        Some(ci) => ci,
        None => {
            return Err(collection_not_found(collection_id));
        },
    };
    match registry.collections[ci].find_proposal(proposal_id) {
        Some(pi) => Ok((ci, pi)),
        None => Err(proposal_not_found(proposal_id, collection_id)),
    }
}

/// Puts `proposal` in the place `pi` of the collection in the place `ci`,
/// where the proposal of the same id is kept.
pub(crate) fn store_at(registry: &mut Registry, ci: usize, pi: usize, proposal: Proposal)
    requires
        ci < old(registry).collections.len(),
        pi < old(registry).collections[ci as int].proposals.len(),
        old(registry)@.position(old(registry).collections[ci as int]@.id) == Some(ci as int),
        old(registry).collections[ci as int]@.proposal_position(proposal@.id) == Some(pi as int),
    ensures
        final(registry)@ == old(registry)@.put_proposal(
            old(registry).collections[ci as int]@.id,
            proposal@,
        ),
{
    let ghost before = registry@;
    let ghost c = registry.collections[ci as int]@;
    registry.collections[ci].proposals[pi] = proposal;
    proof {
        let after_c = registry.collections[ci as int]@;
        assert(after_c.proposals =~= c.proposals.update(pi as int, proposal@));
        assert(after_c == c.put_proposal(proposal@));
        assert(registry@.collections =~= before.collections.update(ci as int, after_c));
    }
}

/// A copy of the proposal called `proposal_id` of the collection called `collection_id`.
pub fn get_proposal(registry: &Registry, collection_id: &str, proposal_id: &str) -> (r:
    ClanopediaResult<Proposal>)
    ensures
        match r {
            Ok(p) => registry@.proposal(collection_id@, proposal_id@) == Some(p@),
            Err(e) => registry@.proposal(collection_id@, proposal_id@) is None && e.spec_kind()
                == ErrorKind::NotFound,
        },
{
    match locate(registry, collection_id, proposal_id) {
        Ok((ci, pi)) => Ok(registry.collections[ci].proposals[pi].clone()),
        Err(e) => Err(e),
    }
}

/// A copy of every proposal of the collection called `collection_id`.
pub fn get_proposals(registry: &Registry, collection_id: &str) -> (r: ClanopediaResult<
    Vec<Proposal>,
>)
    ensures
        match r {
            Ok(list) => registry@.collection(collection_id@) matches Some(c) && list.deep_view()
                == c.proposals,
            Err(e) => registry@.collection(collection_id@) is None && e.spec_kind()
                == ErrorKind::NotFound,
        },
{
    match registry.find(collection_id) {
        Some(ci) => Ok(clone_proposals(&registry.collections[ci].proposals)),
        None => Err(collection_not_found(collection_id)),
    }
}

/// The proposals of `all` that have not reached a final status, in order.
pub open spec fn open_proposals(all: Seq<ProposalView>) -> Seq<ProposalView>
    decreases all.len(),
{
    if all.len() == 0 {
        Seq::empty()
    } else if all.last().status.is_terminal() {
        open_proposals(all.drop_last())
    } else {
        open_proposals(all.drop_last()).push(all.last())
    }
}

/// A copy of every proposal of the collection called `collection_id` that is
/// still active or approved.
pub fn list_active_proposals(registry: &Registry, collection_id: &str) -> (r: ClanopediaResult<
    Vec<Proposal>,
>)
    ensures
        match r {
            Ok(list) => registry@.collection(collection_id@) matches Some(c) && list.deep_view()
                == open_proposals(c.proposals),
            Err(e) => registry@.collection(collection_id@) is None && e.spec_kind()
                == ErrorKind::NotFound,
        },
{
    let ci = match registry.find(collection_id) {
        Some(ci) => ci,
        None => {
            return Err(collection_not_found(collection_id));
        },
    };
    let all = &registry.collections[ci].proposals;
    let ghost views = all.deep_view();
    let mut out: Vec<Proposal> = Vec::new();
    let mut i: usize = 0;
    while i < all.len()
        invariant
            i <= all.len(),
            views == all.deep_view(),
            out.deep_view() == open_proposals(views.take(i as int)),
        decreases all.len() - i,
    {
        proof {
            assert(views.take(i + 1).drop_last() =~= views.take(i as int));
        }
        let ghost previous = out.deep_view();
        if !all[i].status.terminal() {
            out.push(all[i].clone());
            assert(out.deep_view() =~= previous.push(views[i as int]));
        }
        i += 1;
    }
    assert(views.take(all.len() as int) =~= views);
    Ok(out)
}

/// The status of the proposal called `proposal_id`.
pub fn get_proposal_status(registry: &Registry, collection_id: &str, proposal_id: String) -> (r:
    ClanopediaResult<ProposalStatus>)
    ensures
        match r {
            Ok(status) => registry@.proposal(collection_id@, proposal_id@) matches Some(p)
                && status == p.status,
            Err(e) => registry@.proposal(collection_id@, proposal_id@) is None && e.spec_kind()
                == ErrorKind::NotFound,
        },
{
    match locate(registry, collection_id, proposal_id.as_str()) {
        Ok((ci, pi)) => Ok(registry.collections[ci].proposals[pi].status),
        Err(e) => Err(e),
    }
}

/// Whether the collection lets its proposals pass without a vote.
pub fn can_execute_directly(registry: &Registry, collection_id: &CollectionId) -> (r:
    ClanopediaResult<bool>)
    ensures
        match r {
            Ok(direct) => registry@.collection(collection_id@) matches Some(c) && direct
                == c.is_permissionless,
            Err(e) => registry@.collection(collection_id@) is None && e.spec_kind()
                == ErrorKind::NotFound,
        },
{
    match registry.find(collection_id.as_str()) {
        Some(ci) => Ok(registry.collections[ci].is_permissionless),
        None => Err(collection_not_found(collection_id.as_str())),
    }
}

/// What the collaborating services said that bears on a vote: the voter's
/// balance of the governance token, and what the threshold needs.
#[derive(Clone, Copy, Debug)]
pub struct VoteEvidence {
    pub balance: Option<u128>,
    pub threshold: ThresholdEvidence,
}

/// Why `voter` may not vote in `c`, if so.
///
/// - Multisig: the voter must administer the collection.
/// - TokenBased: the collection must name a governance token, and the voter
///   must hold some of it.
/// - Permissionless and SnsIntegrated: nobody votes here.
pub open spec fn voter_rejection(c: CollectionView, voter: Principal, balance: Option<u128>) -> Option<
    ErrorKind,
> {
    match c.governance_model {
        GovernanceModel::TokenBased => match c.governance_token {
            None => Some(ErrorKind::InvalidOperation),
            Some(_) => match balance {
                None => Some(ErrorKind::InvalidArgument),
                Some(b) => if b == 0 {
                    Some(ErrorKind::NotAuthorized)
                } else {
                    None
                },
            },
        },
        GovernanceModel::Multisig => if c.is_admin(voter) {
            None
        } else {
            Some(ErrorKind::NotAuthorized)
        },
        GovernanceModel::Permissionless => Some(ErrorKind::InvalidOperation),
        GovernanceModel::SnsIntegrated => Some(ErrorKind::InvalidOperation),
    }
}

/// Checks that `voter` may vote in `collection`.
pub fn validate_voter(collection: &Collection, voter: Principal, balance: Option<u128>) -> (r:
    ClanopediaResult<()>)
    ensures
        failure(r) == voter_rejection(collection@, voter, balance),
{
    match collection.governance_model {
        GovernanceModel::TokenBased => match collection.governance_token {
            None => Err(
                ClanopediaError::InvalidOperation(
                    String::from_str("Token-based governance requires a governance token"),
                ),
            ),
            Some(_) => match balance {
                None => Err(
                    ClanopediaError::InvalidArgument(
                        String::from_str("The voter's token balance is needed"),
                    ),
                ),
                Some(b) => if b == 0 {
                    Err(ClanopediaError::NotAuthorized)
                } else {
                    Ok(())
                },
            },
        },
        GovernanceModel::Multisig => if collection.is_admin(voter) {
            Ok(())
        } else {
            Err(ClanopediaError::NotAuthorized)
        },
        GovernanceModel::Permissionless => Err(
            ClanopediaError::InvalidOperation(
                String::from_str("Permissionless governance doesn't require voting"),
            ),
        ),
        GovernanceModel::SnsIntegrated => Err(
            ClanopediaError::InvalidOperation(
                String::from_str("Votes are taken by the external decision body"),
            ),
        ),
    }
}

/// What has to be asked of the balance service before a vote can be taken.
#[derive(Clone, Copy, Debug)]
pub enum VoteNeeds {
    /// Nothing: the records alone decide.
    Nothing,
    /// The voter's balance of this governance token.
    Balance { token: Principal },
}

/// What a vote on a proposal needs from the balance service at time `now`:
/// the voter's balance, where the proposal is active, in time and not
/// executed, and its collection decides by the weight of a governance token.
/// For any other proposal the records alone decide, and no service is asked.
pub open spec fn needs_of_vote(
    reg: RegistryView,
    collection_id: Seq<char>,
    proposal_id: Seq<char>,
    now: u64,
) -> VoteNeeds {
    match (reg.collection(collection_id), reg.proposal(collection_id, proposal_id)) {
        (Some(c), Some(p)) => if p.status == ProposalStatus::Active && p.expires_at >= now
            && !p.executed && c.governance_model == GovernanceModel::TokenBased {
            match c.governance_token {
                Some(token) => VoteNeeds::Balance { token },
                None => VoteNeeds::Nothing,
            }
        } else {
            VoteNeeds::Nothing
        },
        _ => VoteNeeds::Nothing,
    }
}

/// Says what a vote on the proposal needs from the balance service, so that
/// no service is asked about a proposal that takes no votes.
pub fn vote_needs(registry: &Registry, collection_id: &str, proposal_id: &str, now: u64) -> (r:
    VoteNeeds)
    ensures
        r == needs_of_vote(registry@, collection_id@, proposal_id@, now),
{
    match locate(registry, collection_id, proposal_id) {
        Ok((ci, pi)) => {
            let c = &registry.collections[ci];
            let p = &c.proposals[pi];
            let open = matches!(p.status, ProposalStatus::Active) && p.expires_at >= now
                && !p.executed;
            if open && matches!(c.governance_model, GovernanceModel::TokenBased) {
                match c.governance_token {
                    Some(token) => VoteNeeds::Balance { token },
                    None => VoteNeeds::Nothing,
                }
            } else {
                VoteNeeds::Nothing
            }
        },
        Err(_) => VoteNeeds::Nothing,
    }
}

/// Where a vote needs nothing from the balance service, what it comes to
/// does not depend on the balance that is handed in.
pub proof fn lemma_vote_without_needs_ignores_balance(
    reg: RegistryView,
    collection_id: Seq<char>,
    proposal_id: Seq<char>,
    voter: Principal,
    vote: Vote,
    now: u64,
    first: VoteEvidence,
    second: VoteEvidence,
)
    requires
        needs_of_vote(reg, collection_id, proposal_id, now) is Nothing,
        first.threshold == second.threshold,
    ensures
        vote_outcome(reg, collection_id, proposal_id, voter, vote, now, first).error()
            == vote_outcome(reg, collection_id, proposal_id, voter, vote, now, second).error(),
        vote_outcome(reg, collection_id, proposal_id, voter, vote, now, first).registry(
            reg,
            collection_id,
        ) == vote_outcome(reg, collection_id, proposal_id, voter, vote, now, second).registry(
            reg,
            collection_id,
        ),
{
}

/// `p` with the vote of `voter` entered, and under token-weighted governance
/// the voter's balance beside it.
pub open spec fn with_vote(
    p: ProposalView,
    model: GovernanceModel,
    voter: Principal,
    vote: Vote,
    balance: Option<u128>,
) -> ProposalView {
    ProposalView {
        votes: p.votes.push((voter, vote)),
        token_votes: match (model, balance) {
            (GovernanceModel::TokenBased, Some(b)) => p.token_votes.push((voter, b)),
            _ => p.token_votes,
        },
        ..p
    }
}

/// What a vote comes to.
pub enum VoteOutcome {
    /// The vote is refused and nothing is written.
    Refused(ErrorKind),
    /// The proposal had run out of time: it is stored as expired, and the vote
    /// is refused.
    Lapsed(ProposalView),
    /// The vote is entered and the proposal is stored as given here.
    Recorded(ProposalView),
}

/// What the vote of `voter` on a proposal comes to at time `now`.
///
/// In this order: the proposal must exist; it must be active; it must not
/// have run out of time; the voter must be allowed to vote; the voter must not
/// have voted before; the threshold must be decidable. The vote is then
/// entered, and where the threshold is met with it, the proposal is approved
/// in the same step.
pub open spec fn vote_outcome(
    reg: RegistryView,
    collection_id: Seq<char>,
    proposal_id: Seq<char>,
    voter: Principal,
    vote: Vote,
    now: u64,
    evidence: VoteEvidence,
) -> VoteOutcome {
    match (reg.collection(collection_id), reg.proposal(collection_id, proposal_id)) {
        (Some(c), Some(p)) => {
            if p.status != ProposalStatus::Active {
                VoteOutcome::Refused(ErrorKind::InvalidProposalState)
            } else if p.expires_at < now {
                VoteOutcome::Lapsed(ProposalView { status: ProposalStatus::Expired, ..p })
            } else if p.executed {
                VoteOutcome::Refused(ErrorKind::InvalidProposalState)
            } else if voter_rejection(c, voter, evidence.balance) is Some {
                VoteOutcome::Refused(voter_rejection(c, voter, evidence.balance).unwrap())
            } else if has_voted(p.votes, voter) {
                VoteOutcome::Refused(ErrorKind::InvalidOperation)
            } else {
                let q = with_vote(p, c.governance_model, voter, vote, evidence.balance);
                match threshold_verdict(c, q, evidence.threshold) {
                    Err(kind) => VoteOutcome::Refused(kind),
                    Ok(met) => VoteOutcome::Recorded(
                        if met {
                            ProposalView {
                                status: ProposalStatus::Approved,
                                threshold_met: true,
                                ..q
                            }
                        } else {
                            q
                        },
                    ),
                }
            }
        },
        _ => VoteOutcome::Refused(ErrorKind::NotFound),
    }
}

impl VoteOutcome {
    /// The error that the voter is told, if any.
    pub open spec fn error(self) -> Option<ErrorKind> {
        match self {
            VoteOutcome::Refused(kind) => Some(kind),
            VoteOutcome::Lapsed(_) => Some(ErrorKind::ProposalExpired),
            VoteOutcome::Recorded(_) => None,
        }
    }

    /// The registry after the vote.
    pub open spec fn registry(self, reg: RegistryView, collection_id: Seq<char>) -> RegistryView {
        match self {
            VoteOutcome::Refused(_) => reg,
            VoteOutcome::Lapsed(p) => reg.put_proposal(collection_id, p),
            VoteOutcome::Recorded(p) => reg.put_proposal(collection_id, p),
        }
    }
}

/// Enters the vote of `voter` on a proposal, at time `now`, and approves the
/// proposal in the same step where the threshold is met with this vote.
pub fn vote_on_proposal(
    registry: &mut Registry,
    collection_id: &str,
    proposal_id: &str,
    voter: Principal,
    vote: Vote,
    now: u64,
    evidence: VoteEvidence,
) -> (r: ClanopediaResult<()>)
    ensures
        failure(r) == vote_outcome(
            old(registry)@,
            collection_id@,
            proposal_id@,
            voter,
            vote,
            now,
            evidence,
        ).error(),
        final(registry)@ == vote_outcome(
            old(registry)@,
            collection_id@,
            proposal_id@,
            voter,
            vote,
            now,
            evidence,
        ).registry(old(registry)@, collection_id@),
{
    let (ci, pi) = match locate(registry, collection_id, proposal_id) {
        Ok(place) => place,
        Err(e) => {
            return Err(e);
        },
    };
    proof {
        lemma_position(registry@.ids(), collection_id@);
        lemma_position(registry.collections[ci as int]@.proposal_ids(), proposal_id@);
    }
    let collection = &registry.collections[ci];
    let current = &collection.proposals[pi];
    if current.status != ProposalStatus::Active {
        return Err(ClanopediaError::InvalidProposalState(String::from_str("Proposal is not active")));
    }
    if current.expires_at < now {
        let mut lapsed = current.clone();
        lapsed.status = ProposalStatus::Expired;
        store_at(registry, ci, pi, lapsed);
        return Err(ClanopediaError::ProposalExpired);
    }
    if current.executed {
        return Err(
            ClanopediaError::InvalidProposalState(
                String::from_str("Proposal has already been executed"),
            ),
        );
    }
    match validate_voter(collection, voter, evidence.balance) {
        Err(e) => {
            return Err(e);
        },
        Ok(_) => {},
    }
    if find_vote(&current.votes, voter).is_some() {
        return Err(
            ClanopediaError::InvalidOperation(
                String::from_str("You have already voted on this proposal"),
            ),
        );
    }
    let mut updated = current.clone();
    updated.votes.push((voter, vote));
    match (collection.governance_model, evidence.balance) {
        (GovernanceModel::TokenBased, Some(b)) => {
            updated.token_votes.push((voter, b));
        },
        _ => {},
    }
    assert(updated@ == with_vote(
        current@,
        collection@.governance_model,
        voter,
        vote,
        evidence.balance,
    ));
    match check_threshold(collection, &updated, evidence.threshold) {
        Err(e) => {
            return Err(e);
        },
        Ok(met) => {
            if met {
                updated.status = ProposalStatus::Approved;
                updated.threshold_met = true;
            }
        },
    }
    store_at(registry, ci, pi, updated);
    Ok(())
}

/// A principal has an entry exactly when a place is found for it.
pub(crate) proof fn lemma_has_voted(votes: Seq<(Principal, Vote)>, who: Principal)
    ensures
        has_voted(votes, who) <==> crate::types::has_entry(votes, who),
        has_voted(votes, who) ==> crate::votes::vote_of(votes, who) is Some,
{
    lemma_position(voters(votes), who);
    if crate::types::has_entry(votes, who) {
        let i = choose|i: int| 0 <= i < votes.len() && votes[i].0 == who;
        assert(voters(votes)[i] == who);
    }
    if has_voted(votes, who) {
        let i = crate::keys::position(voters(votes), who).unwrap();
        assert(votes[i].0 == who);
    }
}

/// Entering the vote of a principal that had none keeps one entry for each
/// principal, and the entry made is the one found afterwards.
pub(crate) proof fn lemma_with_vote(
    p: ProposalView,
    model: GovernanceModel,
    voter: Principal,
    vote: Vote,
    balance: Option<u128>,
)
    requires
        p.wf(),
        !has_voted(p.votes, voter),
    ensures
        with_vote(p, model, voter, vote, balance).wf(),
        crate::votes::vote_of(with_vote(p, model, voter, vote, balance).votes, voter) == Some(vote),
        has_voted(with_vote(p, model, voter, vote, balance).votes, voter),
{
    let q = with_vote(p, model, voter, vote, balance);
    lemma_has_voted(p.votes, voter);
    let last = p.votes.len() as int;
    assert(voters(q.votes) =~= voters(p.votes).push(voter));
    crate::keys::lemma_position_push(voters(p.votes), voter, voter);
    assert forall|i: int| 0 <= i < q.token_votes.len() implies crate::types::has_entry(
        q.votes,
        (#[trigger] q.token_votes[i]).0,
    ) by {
        if i < p.token_votes.len() {
            assert(q.token_votes[i] == p.token_votes[i]);
            let j = choose|j: int| 0 <= j < p.votes.len() && p.votes[j].0 == p.token_votes[i].0;
            assert(q.votes[j].0 == q.token_votes[i].0);
        } else {
            assert(q.votes[last].0 == voter);
        }
    }
    assert(crate::types::distinct_voters(q.token_votes)) by {
        assert forall|i: int, j: int|
            0 <= i < q.token_votes.len() && 0 <= j < q.token_votes.len() && i != j implies q.token_votes[i].0
            != q.token_votes[j].0 by {
            if i < p.token_votes.len() && j < p.token_votes.len() {
            } else if i < p.token_votes.len() {
                assert(crate::types::has_entry(p.votes, p.token_votes[i].0));
            } else if j < p.token_votes.len() {
                assert(crate::types::has_entry(p.votes, p.token_votes[j].0));
            }
        }
    }
}

/// Voting keeps the registry well formed: at most one vote entry for each
/// principal on each proposal, whatever the vote comes to.
pub proof fn lemma_vote_keeps_one_entry_per_principal(
    reg: RegistryView,
    collection_id: Seq<char>,
    proposal_id: Seq<char>,
    voter: Principal,
    vote: Vote,
    now: u64,
    evidence: VoteEvidence,
)
    requires
        reg.wf(),
    ensures
        vote_outcome(reg, collection_id, proposal_id, voter, vote, now, evidence).registry(
            reg,
            collection_id,
        ).wf(),
{
    let outcome = vote_outcome(reg, collection_id, proposal_id, voter, vote, now, evidence);
    lemma_position(reg.ids(), collection_id);
    match outcome {
        VoteOutcome::Refused(_) => {},
        VoteOutcome::Lapsed(q) => {
            let c = reg.collection(collection_id).unwrap();
            lemma_position(c.proposal_ids(), proposal_id);
            lemma_registry_put_proposal_wf(reg, collection_id, q);
        },
        VoteOutcome::Recorded(q) => {
            let c = reg.collection(collection_id).unwrap();
            lemma_position(c.proposal_ids(), proposal_id);
            let p = c.proposal(proposal_id).unwrap();
            lemma_with_vote(p, c.governance_model, voter, vote, evidence.balance);
            lemma_registry_put_proposal_wf(reg, collection_id, q);
        },
    }
}

/// Once the vote of a principal on a proposal has been entered, every later
/// vote of the same principal on that proposal is refused, and the entry
/// stays as it was made.
pub proof fn lemma_second_vote_is_refused(
    reg: RegistryView,
    collection_id: Seq<char>,
    proposal_id: Seq<char>,
    voter: Principal,
    first: Vote,
    first_now: u64,
    first_evidence: VoteEvidence,
    second: Vote,
    second_now: u64,
    second_evidence: VoteEvidence,
)
    requires
        reg.wf(),
        vote_outcome(
            reg,
            collection_id,
            proposal_id,
            voter,
            first,
            first_now,
            first_evidence,
        ) is Recorded,
    ensures
        ({
            let between = vote_outcome(
                reg,
                collection_id,
                proposal_id,
                voter,
                first,
                first_now,
                first_evidence,
            ).registry(reg, collection_id);
            let again = vote_outcome(
                between,
                collection_id,
                proposal_id,
                voter,
                second,
                second_now,
                second_evidence,
            );
            let after = again.registry(between, collection_id);
            &&& again.error() is Some
            &&& between.proposal(collection_id, proposal_id) is Some
            &&& after.proposal(collection_id, proposal_id) is Some
            &&& after.proposal(collection_id, proposal_id).unwrap().votes == between.proposal(
                collection_id,
                proposal_id,
            ).unwrap().votes
            &&& crate::votes::vote_of(
                after.proposal(collection_id, proposal_id).unwrap().votes,
                voter,
            ) == Some(first)
        }),
{
    let o1 = vote_outcome(reg, collection_id, proposal_id, voter, first, first_now, first_evidence);
    let between = o1.registry(reg, collection_id);
    lemma_position(reg.ids(), collection_id);
    let c = reg.collection(collection_id).unwrap();
    lemma_position(c.proposal_ids(), proposal_id);
    let p = c.proposal(proposal_id).unwrap();
    let q = o1->Recorded_0;
    assert(q.id == proposal_id);
    lemma_with_vote(p, c.governance_model, voter, first, first_evidence.balance);
    lemma_registry_put_proposal(reg, collection_id, q, collection_id, proposal_id);
    crate::storage::lemma_put_proposal_lookup(c, q, proposal_id);
    crate::storage::lemma_replace_lookup(reg, collection_id, c.put_proposal(q), collection_id);
    assert(between.proposal(collection_id, proposal_id) == Some(q));
    let again = vote_outcome(
        between,
        collection_id,
        proposal_id,
        voter,
        second,
        second_now,
        second_evidence,
    );
    match again {
        VoteOutcome::Lapsed(l) => {
            lemma_registry_put_proposal(between, collection_id, l, collection_id, proposal_id);
            assert(between.contains(collection_id));
        },
        _ => {},
    }
}

/// A vote moves the proposal it is cast on by at most one allowed step, and
/// leaves every other proposal as it was.
pub proof fn lemma_vote_is_step(
    reg: RegistryView,
    collection_id: Seq<char>,
    proposal_id: Seq<char>,
    voter: Principal,
    vote: Vote,
    now: u64,
    evidence: VoteEvidence,
)
    ensures
        registry_step(
            reg,
            vote_outcome(reg, collection_id, proposal_id, voter, vote, now, evidence).registry(
                reg,
                collection_id,
            ),
        ),
{
    let outcome = vote_outcome(reg, collection_id, proposal_id, voter, vote, now, evidence);
    lemma_position(reg.ids(), collection_id);
    match outcome {
        VoteOutcome::Refused(_) => {},
        VoteOutcome::Lapsed(q) => {
            let c = reg.collection(collection_id).unwrap();
            lemma_position(c.proposal_ids(), proposal_id);
            lemma_put_is_step(reg, collection_id, q);
        },
        VoteOutcome::Recorded(q) => {
            let c = reg.collection(collection_id).unwrap();
            lemma_position(c.proposal_ids(), proposal_id);
            lemma_put_is_step(reg, collection_id, q);
        },
    }
}

/// The id given to a proposal created in the collection `collection_id` at
/// time `now` with the random number `random_number`: the word "prop", the
/// collection's id, the last four digits of the time, and the random number
/// reduced modulo 65535 as four digits in base sixteen, joined by underscores.
pub open spec fn proposal_id_text(collection_id: Seq<char>, now: u64, random_number: u32) -> Seq<
    char,
> {
    "prop_"@ + collection_id + "_"@ + last_four(decimal(now as nat)) + "_"@ + hex4(
        (random_number % 0xFFFF) as nat,
    )
}

/// When a proposal created at `now` runs out of time: seven days later, or at
/// the end of time where that is sooner.
pub open spec fn expiry_of(now: u64) -> u64 {
    if now + PROPOSAL_DURATION_NANOS > u64::MAX {
        u64::MAX
    } else {
        (now + PROPOSAL_DURATION_NANOS) as u64
    }
}

/// A collection approves its proposals without a vote.
pub open spec fn approves_on_creation(c: CollectionView) -> bool {
    c.is_permissionless || c.governance_model == GovernanceModel::Permissionless
}

/// The proposal that is stored when one is created in `c`.
pub open spec fn new_proposal(
    c: CollectionView,
    id: Seq<char>,
    collection_id: Seq<char>,
    proposal_type: ProposalTypeView,
    creator: Principal,
    description: Seq<char>,
    now: u64,
) -> ProposalView {
    ProposalView {
        id,
        collection_id,
        proposal_type,
        creator,
        description,
        created_at: now,
        expires_at: expiry_of(now),
        status: if approves_on_creation(c) {
            ProposalStatus::Approved
        } else {
            ProposalStatus::Active
        },
        votes: Seq::empty(),
        token_votes: Seq::empty(),
        executed: false,
        executed_at: None,
        executed_by: None,
        threshold: c.threshold,
        threshold_met: approves_on_creation(c),
        sns_proposal_id: None,
    }
}

/// Why no proposal called `id` can be created in the collection called
/// `collection_id`, if so: there is no such collection, or it holds a proposal
/// of that id already.
pub open spec fn creation_failure(reg: RegistryView, collection_id: Seq<char>, id: Seq<char>) -> Option<
    ErrorKind,
> {
    match reg.collection(collection_id) {
        None => Some(ErrorKind::NotFound),
        Some(c) => if c.proposal(id) is Some {
            Some(ErrorKind::AlreadyExists)
        } else {
            None
        },
    }
}

/// Creates a proposal in the collection called `collection_id`, with an id
/// made from `now` and `random_number`. Under permissionless governance the
/// proposal is approved at once; otherwise it is active.
pub fn create_proposal_with(
    registry: &mut Registry,
    collection_id: &str,
    proposal_type: ProposalType,
    creator: Principal,
    description: String,
    now: u64,
    random_number: u32,
) -> (r: ClanopediaResult<String>)
    ensures
        failure(r) == creation_failure(
            old(registry)@,
            collection_id@,
            proposal_id_text(collection_id@, now, random_number),
        ),
        r is Err ==> final(registry)@ == old(registry)@,
        r matches Ok(id) ==> {
            &&& id@ == proposal_id_text(collection_id@, now, random_number)
            &&& final(registry)@ == old(registry)@.put_proposal(
                collection_id@,
                new_proposal(
                    old(registry)@.collection(collection_id@).unwrap(),
                    id@,
                    collection_id@,
                    proposal_type@,
                    creator,
                    description@,
                    now,
                ),
            )
        },
{
    let ci = match registry.find(collection_id) {
        Some(ci) => ci,
        None => {
            return Err(collection_not_found(collection_id));
        },
    };
    proof {
        lemma_position(registry@.ids(), collection_id@);
    }
    let tail = last_four_digits(now);
    let hex = hex4_text((random_number % 0xFFFF) as u16);
    let mut id = concat2("prop_", collection_id);
    id.append("_");
    id.append(tail.as_str());
    id.append("_");
    id.append(hex.as_str());
    if registry.collections[ci].find_proposal(id.as_str()).is_some() {
        return Err(
            ClanopediaError::AlreadyExists(
                concat2("A proposal of this id exists already: ", id.as_str()),
            ),
        );
    }
    let collection = &registry.collections[ci];
    let approved = collection.is_permissionless || collection.governance_model
        == GovernanceModel::Permissionless;
    let proposal = Proposal {
        id: id.clone(),
        collection_id: String::from_str(collection_id),
        proposal_type,
        creator,
        description,
        created_at: now,
        expires_at: now.saturating_add(PROPOSAL_DURATION_NANOS),
        status: if approved {
            ProposalStatus::Approved
        } else {
            ProposalStatus::Active
        },
        votes: Vec::new(),
        token_votes: Vec::new(),
        executed: false,
        executed_at: None,
        executed_by: None,
        threshold: collection.threshold,
        threshold_met: approved,
        sns_proposal_id: None,
    };
    let ghost before = registry@;
    let ghost view = proposal@;
    proof {
        assert(view.votes =~= Seq::empty());
        assert(view.token_votes =~= Seq::empty());
    }
    crate::storage::put_proposal(&mut registry.collections[ci], proposal);
    proof {
        let c = before.collections[ci as int];
        assert(registry@.collections =~= before.collections.update(ci as int, c.put_proposal(view)));
    }
    Ok(id)
}

/// Creates a proposal in the collection called `collection_id`, with an id
/// made from `now` and a number drawn at random. Where there is no such
/// collection, no number is drawn and the collection is reported as not found.
pub fn create_proposal(
    registry: &mut Registry,
    collection_id: &str,
    proposal_type: ProposalType,
    creator: Principal,
    description: String,
    now: u64,
) -> (r: ClanopediaResult<String>)
    ensures
        failure(r) == Some(ErrorKind::NotFound) <==> old(registry)@.collection(collection_id@)
            is None,
        r is Err ==> final(registry)@ == old(registry)@,
        r matches Err(e) ==> e.spec_kind() == ErrorKind::NotFound || e.spec_kind()
            == ErrorKind::AlreadyExists || e.spec_kind() == ErrorKind::InvalidInput,
        old(registry)@.collection(collection_id@) is None ==> (r matches Err(e) && e.spec_message()
            == "Collection "@ + collection_id@ + " not found"@),
        r matches Ok(id) ==> exists|random_number: u32|
            {
                &&& id@ == #[trigger] proposal_id_text(collection_id@, now, random_number)
                &&& creation_failure(old(registry)@, collection_id@, id@) is None
                &&& final(registry)@ == old(registry)@.put_proposal(
                    collection_id@,
                    new_proposal(
                        old(registry)@.collection(collection_id@).unwrap(),
                        id@,
                        collection_id@,
                        proposal_type@,
                        creator,
                        description@,
                        now,
                    ),
                )
            },
{
    if registry.find(collection_id).is_none() {
        return Err(collection_not_found(collection_id));
    }
    match crate::entropy::random_number() {
        Some(random_number) => create_proposal_with(
            registry,
            collection_id,
            proposal_type,
            creator,
            description,
            now,
            random_number,
        ),
        None => Err(
            ClanopediaError::InvalidInput(String::from_str("Failed to generate random bytes")),
        ),
    }
}

/// Creating a proposal adds a well-formed proposal in its first status and
/// moves no other proposal.
pub proof fn lemma_creation_is_step(
    reg: RegistryView,
    collection_id: Seq<char>,
    proposal_type: ProposalTypeView,
    creator: Principal,
    description: Seq<char>,
    now: u64,
    random_number: u32,
)
    requires
        reg.wf(),
        creation_failure(reg, collection_id, proposal_id_text(collection_id, now, random_number))
            is None,
    ensures
        ({
            let id = proposal_id_text(collection_id, now, random_number);
            let created = new_proposal(
                reg.collection(collection_id).unwrap(),
                id,
                collection_id,
                proposal_type,
                creator,
                description,
                now,
            );
            let after = reg.put_proposal(collection_id, created);
            &&& after.wf()
            &&& registry_step(reg, after)
            &&& after.proposal(collection_id, id) == Some(created)
            &&& created.status == ProposalStatus::Active || created.status
                == ProposalStatus::Approved
        }),
{
    let id = proposal_id_text(collection_id, now, random_number);
    let c = reg.collection(collection_id).unwrap();
    let created = new_proposal(c, id, collection_id, proposal_type, creator, description, now);
    lemma_position(reg.ids(), collection_id);
    lemma_registry_put_proposal_wf(reg, collection_id, created);
    lemma_put_is_step(reg, collection_id, created);
    lemma_registry_put_proposal(reg, collection_id, created, collection_id, id);
}

/// The proposals of `all` whose time has not run out by `now`, in order.
pub open spec fn unexpired(all: Seq<ProposalView>, now: u64) -> Seq<ProposalView>
    decreases all.len(),
{
    if all.len() == 0 {
        Seq::empty()
    } else if all.last().expires_at < now {
        unexpired(all.drop_last(), now)
    } else {
        unexpired(all.drop_last(), now).push(all.last())
    }
}

/// `unexpired` drops entries and adds none.
pub(crate) proof fn lemma_unexpired_len(all: Seq<ProposalView>, now: u64)
    ensures
        unexpired(all, now).len() <= all.len(),
    decreases all.len(),
{
    if all.len() > 0 {
        lemma_unexpired_len(all.drop_last(), now);
    }
}

/// Removes from the collection called `collection_id` every proposal whose
/// time has run out by `now`, whatever its status, and says how many went;
/// a count above the largest 32-bit number is reported as that number.
pub fn cleanup_expired_proposals(registry: &mut Registry, collection_id: &str, now: u64) -> (r:
    ClanopediaResult<u32>)
    ensures
        match old(registry)@.collection(collection_id@) {
            None => failure(r) == Some(ErrorKind::NotFound) && final(registry)@ == old(registry)@,
            Some(c) => {
                let kept = unexpired(c.proposals, now);
                &&& r matches Ok(count)
                &&& count == if c.proposals.len() - kept.len() > u32::MAX {
                    u32::MAX as int
                } else {
                    c.proposals.len() - kept.len()
                }
                &&& final(registry)@ == old(registry)@.replace(
                    collection_id@,
                    CollectionView { proposals: kept, ..c },
                )
            },
        },
{
    let ci = match registry.find(collection_id) {
        Some(ci) => ci,
        None => {
            return Err(collection_not_found(collection_id));
        },
    };
    let ghost before = registry@;
    let ghost c = before.collections[ci as int];
    proof {
        lemma_position(before.ids(), collection_id@);
    }
    let all = &registry.collections[ci].proposals;
    let total = all.len();
    let mut kept: Vec<Proposal> = Vec::new();
    let mut i: usize = 0;
    while i < all.len()
        invariant
            i <= all.len(),
            all.deep_view() == c.proposals,
            kept.deep_view() == unexpired(c.proposals.take(i as int), now),
        decreases all.len() - i,
    {
        proof {
            assert(c.proposals.take(i + 1).drop_last() =~= c.proposals.take(i as int));
        }
        let ghost previous = kept.deep_view();
        if !(all[i].expires_at < now) {
            kept.push(all[i].clone());
            assert(kept.deep_view() =~= previous.push(c.proposals[i as int]));
        }
        i += 1;
    }
    proof {
        assert(c.proposals.take(total as int) =~= c.proposals);
        lemma_unexpired_len(c.proposals, now);
    }
    let removed = total - kept.len();
    registry.collections[ci].proposals = kept;
    proof {
        assert(registry@.collections =~= before.collections.update(
            ci as int,
            CollectionView { proposals: unexpired(c.proposals, now), ..c },
        ));
    }
    if removed > u32::MAX as usize {
        Ok(u32::MAX)
    } else {
        Ok(removed as u32)
    }
}

/// What linking an external reference to a proposal comes to: the error, or
/// the proposal as it is stored with the reference.
///
/// In this order: the collection must exist; the caller must administer it;
/// the proposal must exist; it must not have reached a final status.
pub open spec fn link_outcome(
    reg: RegistryView,
    collection_id: Seq<char>,
    proposal_id: Seq<char>,
    sns_proposal_id: u64,
    caller: Principal,
) -> Result<ProposalView, ErrorKind> {
    match reg.collection(collection_id) {
        None => Err(ErrorKind::NotFound),
        Some(c) => if !c.is_admin(caller) {
            Err(ErrorKind::NotAuthorized)
        } else {
            match c.proposal(proposal_id) {
                None => Err(ErrorKind::NotFound),
                Some(p) => if p.status.is_terminal() {
                    Err(ErrorKind::InvalidProposalState)
                } else {
                    Ok(ProposalView { sns_proposal_id: Some(sns_proposal_id), ..p })
                },
            }
        },
    }
}

/// Records under which reference the external decision body knows a proposal.
pub fn link_sns_proposal_id(
    registry: &mut Registry,
    collection_id: &str,
    proposal_id: &str,
    sns_proposal_id: u64,
    caller: Principal,
) -> (r: ClanopediaResult<()>)
    ensures
        match link_outcome(old(registry)@, collection_id@, proposal_id@, sns_proposal_id, caller) {
            Ok(linked) => r is Ok && final(registry)@ == old(registry)@.put_proposal(
                collection_id@,
                linked,
            ),
            Err(kind) => failure(r) == Some(kind) && final(registry)@ == old(registry)@,
        },
{
    let ci = match registry.find(collection_id) {
        Some(ci) => ci,
        None => {
            return Err(collection_not_found(collection_id));
        },
    };
    proof {
        lemma_position(registry@.ids(), collection_id@);
    }
    if !registry.collections[ci].is_admin(caller) {
        return Err(ClanopediaError::NotAuthorized);
    }
    let pi = match registry.collections[ci].find_proposal(proposal_id) {
        Some(pi) => pi,
        None => {
            return Err(
                ClanopediaError::NotFound(crate::text::concat3("Proposal ", proposal_id, " not found")),
            );
        },
    };
    proof {
        lemma_position(registry.collections[ci as int]@.proposal_ids(), proposal_id@);
    }
    if registry.collections[ci].proposals[pi].status.terminal() {
        return Err(
            ClanopediaError::InvalidProposalState(
                String::from_str("A proposal in a final status cannot be changed"),
            ),
        );
    }
    let mut linked = registry.collections[ci].proposals[pi].clone();
    linked.sns_proposal_id = Some(sns_proposal_id);
    store_at(registry, ci, pi, linked);
    Ok(())
}

/// What taking over the decision of the external body comes to.
pub enum SyncOutcome {
    /// Nothing is written; the error, if any, is reported.
    Unchanged(Option<ErrorKind>),
    /// The proposal had run out of time: it is stored as expired, and that is reported.
    Lapsed(ProposalView),
    /// The proposal is stored as approved.
    Approved(ProposalView),
}

/// What taking over the decision of the external body comes to at time `now`.
///
/// The proposal must exist. Only an active proposal is touched: one whose
/// time has run out is stored as expired; one that waits for the external
/// body, on evidence that says yes, is approved. Evidence of another kind
/// than the one the proposal waits for is an error.
pub open spec fn sync_outcome(
    reg: RegistryView,
    collection_id: Seq<char>,
    proposal_id: Seq<char>,
    evidence: ThresholdEvidence,
    now: u64,
) -> SyncOutcome {
    match (reg.collection(collection_id), reg.proposal(collection_id, proposal_id)) {
        (Some(c), Some(p)) => if p.status != ProposalStatus::Active {
            SyncOutcome::Unchanged(None)
        } else if p.expires_at < now {
            SyncOutcome::Lapsed(ProposalView { status: ProposalStatus::Expired, ..p })
        } else if evidence_needed(c, p) is Decision {
            match evidence {
                ThresholdEvidence::Decision(status) => if is_affirmative(status) {
                    SyncOutcome::Approved(
                        ProposalView { status: ProposalStatus::Approved, threshold_met: true, ..p },
                    )
                } else {
                    SyncOutcome::Unchanged(None)
                },
                _ => SyncOutcome::Unchanged(Some(ErrorKind::InvalidArgument)),
            }
        } else {
            SyncOutcome::Unchanged(None)
        },
        _ => SyncOutcome::Unchanged(Some(ErrorKind::NotFound)),
    }
}

impl SyncOutcome {
    pub open spec fn error(self) -> Option<ErrorKind> {
        match self {
            SyncOutcome::Unchanged(e) => e,
            SyncOutcome::Lapsed(_) => Some(ErrorKind::ProposalExpired),
            SyncOutcome::Approved(_) => None,
        }
    }

    pub open spec fn registry(self, reg: RegistryView, collection_id: Seq<char>) -> RegistryView {
        match self {
            SyncOutcome::Unchanged(_) => reg,
            SyncOutcome::Lapsed(p) => reg.put_proposal(collection_id, p),
            SyncOutcome::Approved(p) => reg.put_proposal(collection_id, p),
        }
    }
}

/// Takes over the decision of the external body on a proposal, at time `now`.
pub fn sync_sns_proposal_status_and_update(
    registry: &mut Registry,
    collection_id: &str,
    proposal_id: &str,
    evidence: ThresholdEvidence,
    now: u64,
) -> (r: ClanopediaResult<()>)
    ensures
        failure(r) == sync_outcome(old(registry)@, collection_id@, proposal_id@, evidence, now).error(),
        final(registry)@ == sync_outcome(
            old(registry)@,
            collection_id@,
            proposal_id@,
            evidence,
            now,
        ).registry(old(registry)@, collection_id@),
{
    let (ci, pi) = match locate(registry, collection_id, proposal_id) {
        Ok(place) => place,
        Err(e) => {
            return Err(e);
        },
    };
    proof {
        lemma_position(registry@.ids(), collection_id@);
        lemma_position(registry.collections[ci as int]@.proposal_ids(), proposal_id@);
    }
    let collection = &registry.collections[ci];
    let current = &collection.proposals[pi];
    if current.status != ProposalStatus::Active {
        return Ok(());
    }
    if current.expires_at < now {
        let mut lapsed = current.clone();
        lapsed.status = ProposalStatus::Expired;
        store_at(registry, ci, pi, lapsed);
        return Err(ClanopediaError::ProposalExpired);
    }
    match required_evidence(collection, current) {
        EvidenceRequest::Decision { .. } => match evidence {
            ThresholdEvidence::Decision(status) => {
                if matches!(status, SnsProposalStatus::Adopted | SnsProposalStatus::Executed) {
                    let mut approved = current.clone();
                    approved.status = ProposalStatus::Approved;
                    approved.threshold_met = true;
                    store_at(registry, ci, pi, approved);
                }
                Ok(())
            },
            _ => Err(
                ClanopediaError::InvalidArgument(
                    String::from_str("The external status of the proposal is needed"),
                ),
            ),
        },
        _ => Ok(()),
    }
}

/// What the document service said when it was asked to delete a collection.
#[derive(Clone, Copy, Debug, PartialEq, Eq, Structural)]
pub enum RemoteDeletion {
    /// It has not been asked yet.
    NotAsked,
    /// It has deleted its side.
    Deleted,
    /// It could not be reached or reported an error.
    Failed,
}

/// What deleting a collection asks its caller to do.
#[derive(Debug)]
pub enum DeletionStep {
    /// Have the document service delete its side, and call again with its answer.
    CallRemote { collection_ref: String },
    /// Stop: the deletion has ended with this result.
    Done(ClanopediaResult<()>),
}

pub enum DeletionStepView {
    CallRemote { collection_ref: Seq<char> },
    Done(Option<ErrorKind>),
}

impl View for DeletionStep {
    type V = DeletionStepView;

    open spec fn view(&self) -> DeletionStepView {
        match self {
            DeletionStep::CallRemote { collection_ref } => DeletionStepView::CallRemote {
                collection_ref: collection_ref@,
            },
            DeletionStep::Done(r) => DeletionStepView::Done(failure(*r)),
        }
    }
}

/// Some proposal of `proposals` is still active or approved.
pub open spec fn has_open(proposals: Seq<ProposalView>) -> bool {
    exists|i: int| 0 <= i < proposals.len() && !(#[trigger] proposals[i]).status.is_terminal()
}

/// Whether some proposal of `proposals` is still active or approved.
pub fn any_open(proposals: &Vec<Proposal>) -> (r: bool)
    ensures
        r == has_open(proposals.deep_view()),
{
    let mut i: usize = 0;
    while i < proposals.len()
        invariant
            i <= proposals.len(),
            forall|j: int| 0 <= j < i ==> (#[trigger] proposals.deep_view()[j]).status.is_terminal(),
        decreases proposals.len() - i,
    {
        if !proposals[i].status.terminal() {
            assert(!proposals.deep_view()[i as int].status.is_terminal());
            return true;
        }
        i += 1;
    }
    false
}

/// What a call of `delete_collection` comes to: the collection must exist,
/// the caller must administer it, and none of its proposals may be active or
/// approved; then the document service is asked first, and the collection is
/// removed once it has deleted its side.
pub open spec fn deletion_step(
    reg: RegistryView,
    collection_id: Seq<char>,
    caller: Principal,
    remote: RemoteDeletion,
) -> (RegistryView, DeletionStepView) {
    match reg.collection(collection_id) {
        None => (reg, DeletionStepView::Done(Some(ErrorKind::NotFound))),
        Some(c) => if !c.is_admin(caller) {
            (reg, DeletionStepView::Done(Some(ErrorKind::Unauthorized)))
        } else if has_open(c.proposals) {
            (reg, DeletionStepView::Done(Some(ErrorKind::InvalidOperation)))
        } else {
            match remote {
                RemoteDeletion::NotAsked => (
                    reg,
                    DeletionStepView::CallRemote { collection_ref: c.blueband_collection_id },
                ),
                RemoteDeletion::Failed => (reg, DeletionStepView::Done(Some(ErrorKind::BluebandError))),
                RemoteDeletion::Deleted => (reg.remove(collection_id), DeletionStepView::Done(None)),
            }
        },
    }
}

/// Deletes the collection called `collection_id` on behalf of `caller`, in
/// two calls: the first says what to ask of the document service, the second
/// takes its answer (`failure_text` is what it said where it failed).
pub fn delete_collection(
    registry: &mut Registry,
    collection_id: &str,
    caller: Principal,
    remote: RemoteDeletion,
    failure_text: &str,
) -> (r: DeletionStep)
    ensures
        final(registry)@ == deletion_step(old(registry)@, collection_id@, caller, remote).0,
        r@ == deletion_step(old(registry)@, collection_id@, caller, remote).1,
        r matches DeletionStep::Done(Err(e)) ==> (e.spec_kind() == ErrorKind::BluebandError
            ==> e.spec_message() == failure_text@),
{
    let ci = match registry.find(collection_id) {
        Some(ci) => ci,
        None => {
            return DeletionStep::Done(Err(collection_not_found(collection_id)));
        },
    };
    proof {
        lemma_position(registry@.ids(), collection_id@);
    }
    if !registry.collections[ci].is_admin(caller) {
        return DeletionStep::Done(
            Err(ClanopediaError::Unauthorized(String::from_str("Only admins can delete collections"))),
        );
    }
    if any_open(&registry.collections[ci].proposals) {
        return DeletionStep::Done(
            Err(
                ClanopediaError::InvalidOperation(
                    String::from_str("Cannot delete collection with active proposals"),
                ),
            ),
        );
    }
    match remote {
        RemoteDeletion::NotAsked => DeletionStep::CallRemote {
            collection_ref: registry.collections[ci].blueband_collection_id.clone(),
        },
        RemoteDeletion::Failed => DeletionStep::Done(
            Err(ClanopediaError::BluebandError(String::from_str(failure_text))),
        ),
        RemoteDeletion::Deleted => {
            let ghost before = registry@;
            registry.collections.remove(ci);
            assert(registry@.collections =~= before.collections.remove(ci as int));
            DeletionStep::Done(Ok(()))
        },
    }
}

/// Linking an external reference and taking over an external decision move
/// the proposal by at most one allowed step, never touch a proposal in a
/// final status, and leave every other proposal as it was.
pub proof fn lemma_link_and_sync_are_steps(
    reg: RegistryView,
    collection_id: Seq<char>,
    proposal_id: Seq<char>,
    sns_proposal_id: u64,
    caller: Principal,
    evidence: ThresholdEvidence,
    now: u64,
)
    ensures
        link_outcome(reg, collection_id, proposal_id, sns_proposal_id, caller) matches Ok(linked)
            ==> registry_step(reg, reg.put_proposal(collection_id, linked)),
        registry_step(
            reg,
            sync_outcome(reg, collection_id, proposal_id, evidence, now).registry(reg, collection_id),
        ),
{
    lemma_position(reg.ids(), collection_id);
    match reg.collection(collection_id) {
        Some(c) => {
            lemma_position(c.proposal_ids(), proposal_id);
            match link_outcome(reg, collection_id, proposal_id, sns_proposal_id, caller) {
                Ok(linked) => {
                    lemma_put_is_step(reg, collection_id, linked);
                },
                Err(_) => {},
            }
            match sync_outcome(reg, collection_id, proposal_id, evidence, now) {
                SyncOutcome::Lapsed(p) => {
                    lemma_put_is_step(reg, collection_id, p);
                },
                SyncOutcome::Approved(p) => {
                    lemma_put_is_step(reg, collection_id, p);
                },
                SyncOutcome::Unchanged(_) => {},
            }
        },
        None => {},
    }
}

/// Linking an external reference and taking over an external decision keep
/// the records well formed.
pub proof fn lemma_link_and_sync_keep_well_formed(
    reg: RegistryView,
    collection_id: Seq<char>,
    proposal_id: Seq<char>,
    sns_proposal_id: u64,
    caller: Principal,
    evidence: ThresholdEvidence,
    now: u64,
)
    requires
        reg.wf(),
    ensures
        link_outcome(reg, collection_id, proposal_id, sns_proposal_id, caller) matches Ok(linked)
            ==> reg.put_proposal(collection_id, linked).wf(),
        sync_outcome(reg, collection_id, proposal_id, evidence, now).registry(
            reg,
            collection_id,
        ).wf(),
{
    lemma_position(reg.ids(), collection_id);
    match reg.collection(collection_id) {
        Some(c) => {
            lemma_position(c.proposal_ids(), proposal_id);
            match c.proposal_position(proposal_id) {
                Some(j) => {
                    let i = reg.position(collection_id).unwrap();
                    assert(reg.collections[i].wf());
                    assert(c.proposals[j].wf());
                    match link_outcome(reg, collection_id, proposal_id, sns_proposal_id, caller) {
                        Ok(linked) => {
                            lemma_registry_put_proposal_wf(reg, collection_id, linked);
                        },
                        Err(_) => {},
                    }
                    match sync_outcome(reg, collection_id, proposal_id, evidence, now) {
                        SyncOutcome::Lapsed(p) => {
                            lemma_registry_put_proposal_wf(reg, collection_id, p);
                        },
                        SyncOutcome::Approved(p) => {
                            lemma_registry_put_proposal_wf(reg, collection_id, p);
                        },
                        SyncOutcome::Unchanged(_) => {},
                    }
                },
                None => {},
            }
        },
        None => {},
    }
}

/// Each proposal that `unexpired` keeps stood in the list before, and those
/// that it keeps stand in the order in which they stood.
pub(crate) proof fn lemma_unexpired_from(all: Seq<ProposalView>, now: u64, k: int) -> (j: int)
    requires
        0 <= k < unexpired(all, now).len(),
    ensures
        0 <= j < all.len(),
        all[j] == unexpired(all, now)[k],
        k <= j,
        forall|k2: int|
            k < k2 < unexpired(all, now).len() ==> exists|j2: int|
                j < j2 < all.len() && all[j2] == #[trigger] unexpired(all, now)[k2],
    decreases all.len(),
{
    let kept = unexpired(all, now);
    let shorter = all.drop_last();
    if all.last().expires_at < now {
        let j = lemma_unexpired_from(shorter, now, k);
        assert forall|k2: int| k < k2 < kept.len() implies exists|j2: int|
            j < j2 < all.len() && all[j2] == #[trigger] kept[k2] by {
            let j2 = choose|j2: int|
                j < j2 < shorter.len() && shorter[j2] == unexpired(shorter, now)[k2];
            assert(all[j2] == kept[k2]);
        }
        j
    } else if k == kept.len() - 1 {
        lemma_unexpired_len(shorter, now);
        all.len() - 1
    } else {
        let j = lemma_unexpired_from(shorter, now, k);
        assert forall|k2: int| k < k2 < kept.len() implies exists|j2: int|
            j < j2 < all.len() && all[j2] == #[trigger] kept[k2] by {
            if k2 == kept.len() - 1 {
                assert(all[all.len() - 1] == kept[k2]);
            } else {
                let j2 = choose|j2: int|
                    j < j2 < shorter.len() && shorter[j2] == unexpired(shorter, now)[k2];
                assert(all[j2] == kept[k2]);
            }
        }
        j
    }
}

/// Removing the proposals whose time has run out keeps the records well
/// formed, and leaves every proposal that stays exactly as it was.
pub proof fn lemma_cleanup_is_step(reg: RegistryView, collection_id: Seq<char>, now: u64)
    requires
        reg.wf(),
        reg.collection(collection_id) is Some,
    ensures
        ({
            let c = reg.collection(collection_id).unwrap();
            let after = reg.replace(
                collection_id,
                CollectionView { proposals: unexpired(c.proposals, now), ..c },
            );
            after.wf() && registry_step(reg, after)
        }),
{
    let c = reg.collection(collection_id).unwrap();
    let kept = unexpired(c.proposals, now);
    let cleaned = CollectionView { proposals: kept, ..c };
    let after = reg.replace(collection_id, cleaned);
    lemma_position(reg.ids(), collection_id);
    let i = reg.position(collection_id).unwrap();
    assert(reg.collections[i].wf());
    assert(after.ids() =~= reg.ids());
    assert(cleaned.wf()) by {
        assert forall|a: int, b: int|
            0 <= a < kept.len() && 0 <= b < kept.len() && a != b implies cleaned.proposal_ids()[a]
            != cleaned.proposal_ids()[b] by {
            let lo = if a < b { a } else { b };
            let hi = if a < b { b } else { a };
            let j = lemma_unexpired_from(c.proposals, now, lo);
            let j2 = choose|j2: int| j < j2 < c.proposals.len() && c.proposals[j2] == kept[hi];
            assert(c.proposal_ids()[j] == kept[lo].id);
            assert(c.proposal_ids()[j2] == kept[hi].id);
        }
        assert forall|k: int| 0 <= k < kept.len() implies (#[trigger] kept[k]).wf() by {
            let j = lemma_unexpired_from(c.proposals, now, k);
            assert(c.proposals[j].wf());
        }
    }
    assert forall|k: int| 0 <= k < after.collections.len() implies (
    #[trigger] after.collections[k]).wf() by {
        if k != i {
            assert(after.collections[k] == reg.collections[k]);
        }
    }
    assert forall|a: Seq<char>, b: Seq<char>|
        (#[trigger] reg.proposal(a, b)) is Some && after.proposal(a, b) is Some implies proposal_step(
        reg.proposal(a, b).unwrap(),
        after.proposal(a, b).unwrap(),
    ) by {
        crate::storage::lemma_replace_lookup(reg, collection_id, cleaned, a);
        if a == collection_id {
            lemma_position(c.proposal_ids(), b);
            lemma_position(cleaned.proposal_ids(), b);
            let k = cleaned.proposal_position(b).unwrap();
            let j = lemma_unexpired_from(c.proposals, now, k);
            assert(c.proposal_ids()[j] == b);
            crate::keys::lemma_position_distinct(c.proposal_ids(), b, j);
        }
    }
}

} // verus!
