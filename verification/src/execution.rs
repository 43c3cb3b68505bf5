//! Carrying out an approved proposal, one step at a time.
//!
//! Executing a proposal needs answers from other services and asks other
//! services to act. Each call of [`execute_proposal`] takes the answer to the
//! previous request, reads the records again, and says what to do next: ask
//! for something, have a service act, or stop with a result. Nothing is asked
//! of a service that acts before every check on the records has passed.

use vstd::prelude::*;

use crate::cycles::{
    can_execute_embed_proposal, check_cycles_status, embedding_cost, estimate_embedding_cost,
    resources_suffice, status_for,
};
use crate::external::sns_integration::SnsProposalStatus;
use crate::governance::{locate, store_at};
use crate::keys::lemma_position;
use crate::lifecycle::{lemma_put_is_step, proposal_step, registry_step};
use crate::operations::{
    execute_proposal_operation, local_operation, remove_from, without_admin,
};
use crate::storage::{Registry, RegistryView};
use crate::text::{concat2, decimal, decimal_text};
use crate::threshold::{
    check_threshold, evidence_needed, required_evidence, threshold_verdict, EvidenceRequest,
    ThresholdEvidence,
};
use crate::types::{
    failure, ClanopediaError, ClanopediaResult, Collection, CollectionView, ErrorKind, Principal,
    Proposal, ProposalStatus, ProposalType, ProposalTypeView, ProposalView,
};

verus! {

/// What an execution is waiting for.
#[derive(Clone, Copy, Debug, PartialEq, Eq, Structural)]
pub enum ExecutionStage {
    /// Nothing has been done yet.
    NotStarted,
    /// The balance service was asked for the total supply.
    AwaitingTotalSupply,
    /// The external decision body was asked for its status of the proposal.
    AwaitingDecision,
    /// The document service was asked for its resource balance.
    AwaitingRemoteBalance,
    /// The document service was asked to embed the document number `done`;
    /// those before it are embedded.
    Embedding { done: usize },
    /// The document service was asked to delete its side of the collection.
    DeletingRemote,
    /// The execution has ended.
    Finished,
}

/// Where an execution stands between two steps.
#[derive(Clone, Copy, Debug, PartialEq, Eq, Structural)]
pub struct ExecutionProgress {
    pub stage: ExecutionStage,
    /// What has been learned for the threshold.
    pub evidence: ThresholdEvidence,
    /// The resource balance of the document service, once it is known.
    pub remote_balance: Option<u64>,
}

/// The answer of a service to the request made by the previous step.
#[derive(Clone, Copy, Debug, PartialEq, Eq, Structural)]
pub enum ServiceReply {
    /// No request was made: this is the first step.
    Start,
    TotalSupply(u128),
    Decision(SnsProposalStatus),
    RemoteBalance(u64),
    /// The document was embedded.
    Embedded,
    /// The document service deleted its side of the collection.
    RemoteDeleted,
    /// The service could not be reached or reported an error.
    Failed,
}

/// What a step reads from its surroundings.
#[derive(Clone, Copy, Debug, PartialEq, Eq, Structural)]
pub struct ExecutionContext {
    /// The time, in nanoseconds.
    pub now: u64,
    /// The resource balance of this service.
    pub local_balance: u64,
}

/// What a step asks its caller to do.
#[derive(Debug)]
pub enum ExecutionAction {
    /// Ask the balance service for the total supply of `token`, and step again.
    QueryTotalSupply { token: Principal },
    /// Ask `service` for its status of the proposal `reference`, and step again.
    QueryDecision { service: Principal, reference: u64 },
    /// Ask the document service for its resource balance, and step again.
    QueryRemoteBalance,
    /// Have the document service embed a document, and step again.
    EmbedDocument { collection_ref: String, document_id: String },
    /// Have the document service delete its side of the collection, and step again.
    DeleteRemoteCollection { collection_ref: String },
    /// Stop: the execution has ended with this result.
    Done(ClanopediaResult<()>),
}

pub enum ExecutionActionView {
    QueryTotalSupply { token: Principal },
    QueryDecision { service: Principal, reference: u64 },
    QueryRemoteBalance,
    EmbedDocument { collection_ref: Seq<char>, document_id: Seq<char> },
    DeleteRemoteCollection { collection_ref: Seq<char> },
    Done(Option<ErrorKind>),
}

impl View for ExecutionAction {
    type V = ExecutionActionView;

    open spec fn view(&self) -> ExecutionActionView {
        match self {
            ExecutionAction::QueryTotalSupply { token } => ExecutionActionView::QueryTotalSupply {
                token: *token,
            },
            ExecutionAction::QueryDecision { service, reference } => ExecutionActionView::QueryDecision {
                service: *service,
                reference: *reference,
            },
            ExecutionAction::QueryRemoteBalance => ExecutionActionView::QueryRemoteBalance,
            ExecutionAction::EmbedDocument {
                collection_ref,
                document_id,
            } => ExecutionActionView::EmbedDocument {
                collection_ref: collection_ref@,
                document_id: document_id@,
            },
            ExecutionAction::DeleteRemoteCollection {
                collection_ref,
            } => ExecutionActionView::DeleteRemoteCollection { collection_ref: collection_ref@ },
            ExecutionAction::Done(r) => ExecutionActionView::Done(failure(*r)),
        }
    }
}

impl ExecutionActionView {
    /// The action has a service change something.
    pub open spec fn is_side_effecting(self) -> bool {
        self is EmbedDocument || self is DeleteRemoteCollection
    }
}

impl ExecutionProgress {
    /// The progress of an execution that has not begun.
    pub fn new() -> (p: ExecutionProgress)
        ensures
            p == Self::fresh(),
    {
        ExecutionProgress {
            stage: ExecutionStage::NotStarted,
            evidence: ThresholdEvidence::Absent,
            remote_balance: None,
        }
    }

    pub open spec fn fresh() -> ExecutionProgress {
        ExecutionProgress {
            stage: ExecutionStage::NotStarted,
            evidence: ThresholdEvidence::Absent,
            remote_balance: None,
        }
    }

    pub open spec fn finished() -> ExecutionProgress {
        ExecutionProgress {
            stage: ExecutionStage::Finished,
            evidence: ThresholdEvidence::Absent,
            remote_balance: None,
        }
    }
}

/// How far the work on the services has come when a step begins.
#[derive(Clone, Copy, Debug, PartialEq, Eq, Structural)]
pub enum Standing {
    /// No service has been asked to act.
    Fresh,
    /// The first `done` documents are embedded.
    Embedded { done: usize },
    /// The document service has deleted its side of the collection.
    RemoteDeleted,
}

/// What a reply makes of the progress.
#[derive(Clone, Copy, Debug, PartialEq, Eq, Structural)]
pub enum Absorbed {
    /// The reply answers the request: the step goes on from here.
    Continue { standing: Standing, evidence: ThresholdEvidence, remote_balance: Option<u64> },
    /// The step ends with this error and writes nothing.
    Stop(ErrorKind),
    /// A service that was asked to act has failed.
    DispatchFailed,
}

/// Takes the reply to the request that the stage stands for. A reply that
/// answers no request of the stage is a misuse.
pub open spec fn absorb(progress: ExecutionProgress, reply: ServiceReply) -> Absorbed {
    match (progress.stage, reply) {
        (ExecutionStage::NotStarted, ServiceReply::Start) => Absorbed::Continue {
            standing: Standing::Fresh,
            evidence: ThresholdEvidence::Absent,
            remote_balance: None,
        },
        (ExecutionStage::AwaitingTotalSupply, ServiceReply::TotalSupply(supply)) => Absorbed::Continue {
            standing: Standing::Fresh,
            evidence: ThresholdEvidence::TotalSupply(supply),
            remote_balance: progress.remote_balance,
        },
        (ExecutionStage::AwaitingTotalSupply, ServiceReply::Failed) => Absorbed::Stop(
            ErrorKind::ExternalCallError,
        ),
        (ExecutionStage::AwaitingDecision, ServiceReply::Decision(status)) => Absorbed::Continue {
            standing: Standing::Fresh,
            evidence: ThresholdEvidence::Decision(status),
            remote_balance: progress.remote_balance,
        },
        (ExecutionStage::AwaitingDecision, ServiceReply::Failed) => Absorbed::Stop(ErrorKind::SnsError),
        (ExecutionStage::AwaitingRemoteBalance, ServiceReply::RemoteBalance(balance)) => Absorbed::Continue {
            standing: Standing::Fresh,
            evidence: progress.evidence,
            remote_balance: Some(balance),
        },
        (ExecutionStage::AwaitingRemoteBalance, ServiceReply::Failed) => Absorbed::Stop(
            ErrorKind::ExternalCallError,
        ),
        (ExecutionStage::Embedding { done }, ServiceReply::Embedded) => if done < usize::MAX {
            Absorbed::Continue {
                standing: Standing::Embedded { done: (done + 1) as usize },
                evidence: progress.evidence,
                remote_balance: progress.remote_balance,
            }
        } else {
            Absorbed::Stop(ErrorKind::InvalidOperation)
        },
        (ExecutionStage::Embedding { done }, ServiceReply::Failed) => Absorbed::DispatchFailed,
        (ExecutionStage::DeletingRemote, ServiceReply::RemoteDeleted) => Absorbed::Continue {
            standing: Standing::RemoteDeleted,
            evidence: progress.evidence,
            remote_balance: progress.remote_balance,
        },
        (ExecutionStage::DeletingRemote, ServiceReply::Failed) => Absorbed::DispatchFailed,
        _ => Absorbed::Stop(ErrorKind::InvalidOperation),
    }
}

/// What the state of a proposal allows.
#[derive(Clone, Copy, Debug, PartialEq, Eq, Structural)]
pub enum Validation {
    /// Execution is refused and nothing is written.
    Stop(ErrorKind),
    /// The proposal has run out of time: it is stored as expired.
    Lapse,
    /// The proposal is approved, in time and not executed.
    Go,
}

/// Whether `executor` may execute `p` in `c` at time `now`.
///
/// In this order: the executor must administer the collection; a proposal
/// that is executed or rejected is refused as being in the wrong state; one
/// that is expired is refused as expired; one whose time has run out is
/// stored as expired and refused as expired; one that is still active is
/// refused as being in the wrong state. Once a service has been asked to act,
/// time running out no longer stops the execution.
pub open spec fn validation(
    c: CollectionView,
    p: ProposalView,
    executor: Principal,
    now: u64,
    started: bool,
) -> Validation {
    if !c.is_admin(executor) {
        Validation::Stop(ErrorKind::NotAuthorized)
    } else if p.status == ProposalStatus::Executed || p.executed {
        Validation::Stop(ErrorKind::InvalidProposalState)
    } else if p.status == ProposalStatus::Rejected {
        Validation::Stop(ErrorKind::InvalidProposalState)
    } else if p.status == ProposalStatus::Expired {
        Validation::Stop(ErrorKind::ProposalExpired)
    } else if !started && p.expires_at < now {
        Validation::Lapse
    } else if p.status == ProposalStatus::Active {
        Validation::Stop(ErrorKind::InvalidProposalState)
    } else {
        Validation::Go
    }
}

/// Some proposal other than `id` is still active or approved.
pub open spec fn has_other_open(proposals: Seq<ProposalView>, id: Seq<char>) -> bool {
    exists|i: int|
        0 <= i < proposals.len() && !(#[trigger] proposals[i]).status.is_terminal()
            && proposals[i].id != id
}

/// Why `p` cannot be carried out in `c` as `c` stands, if so.
///
/// - add-administrator: the administrator must not be one already;
/// - remove-administrator: the administrator must be one, and another must be left;
/// - change-threshold: at least 1 and at most the number of administrators;
/// - update-quorum: at most 100;
/// - delete-collection: no other proposal may be active or approved.
pub open spec fn precondition_failure(c: CollectionView, p: ProposalView) -> Option<ErrorKind> {
    match p.proposal_type {
        ProposalTypeView::AddAdmin { admin } => if c.admins.contains(admin) {
            Some(ErrorKind::AlreadyExists)
        } else {
            None
        },
        ProposalTypeView::RemoveAdmin { admin } => if !c.admins.contains(admin) {
            Some(ErrorKind::NotFound)
        } else if c.admins.len() <= 1 || without_admin(c.admins, admin).len() == 0 {
            Some(ErrorKind::InvalidInput)
        } else {
            None
        },
        ProposalTypeView::ChangeThreshold { new_threshold } => if new_threshold == 0
            || new_threshold > c.admins.len() {
            Some(ErrorKind::InvalidInput)
        } else {
            None
        },
        ProposalTypeView::UpdateQuorum { new_percentage } => if new_percentage > 100 {
            Some(ErrorKind::InvalidInput)
        } else {
            None
        },
        ProposalTypeView::DeleteCollection => if has_other_open(c.proposals, p.id) {
            Some(ErrorKind::InvalidOperation)
        } else {
            None
        },
        _ => None,
    }
}

/// Why the balances do not allow embedding `documents` documents, if so: the
/// cost cannot be estimated, or one of the balances is under its minimum or
/// under the estimated cost with its margin.
pub open spec fn preflight_failure(documents: nat, local_balance: u64, remote_balance: u64) -> Option<
    ErrorKind,
> {
    let total = embedding_cost(documents).2;
    if total > u64::MAX {
        Some(ErrorKind::InvalidInput)
    } else if !resources_suffice(status_for(local_balance, remote_balance), total as u64) {
        Some(ErrorKind::InsufficientCycles)
    } else {
        None
    }
}

/// The result of a step.
pub struct StepView {
    pub registry: RegistryView,
    pub progress: ExecutionProgress,
    pub action: ExecutionActionView,
}

/// The step that ends the execution with `error` and leaves the registry at `reg`.
pub open spec fn finish(reg: RegistryView, error: Option<ErrorKind>) -> StepView {
    StepView {
        registry: reg,
        progress: ExecutionProgress::finished(),
        action: ExecutionActionView::Done(error),
    }
}

/// The registry with the proposal stored as rejected, if it is there and approved.
pub open spec fn rejected(reg: RegistryView, collection_id: Seq<char>, proposal_id: Seq<char>) -> RegistryView {
    match reg.proposal(collection_id, proposal_id) {
        Some(p) => if p.status == ProposalStatus::Approved {
            reg.put_proposal(collection_id, ProposalView { status: ProposalStatus::Rejected, ..p })
        } else {
            reg
        },
        None => reg,
    }
}

/// The step that ends the execution with `error`: before any service was
/// asked to act, nothing is written; after that, the proposal is rejected.
pub open spec fn fail(
    reg: RegistryView,
    collection_id: Seq<char>,
    proposal_id: Seq<char>,
    started: bool,
    error: ErrorKind,
) -> StepView {
    if started {
        finish(rejected(reg, collection_id, proposal_id), Some(error))
    } else {
        finish(reg, Some(error))
    }
}

/// `p` as it is stored once it has been carried out by `executor` at time `now`.
pub open spec fn executed(p: ProposalView, executor: Principal, now: u64) -> ProposalView {
    ProposalView {
        status: ProposalStatus::Executed,
        executed: true,
        executed_at: Some(now),
        executed_by: Some(executor),
        ..p
    }
}

/// The request for what the threshold needs and `evidence` does not hold, if any.
pub open spec fn evidence_query(needed: EvidenceRequest, evidence: ThresholdEvidence) -> Option<
    (ExecutionStage, ExecutionActionView),
> {
    match needed {
        EvidenceRequest::TotalSupply { token } => if evidence is TotalSupply {
            None
        } else {
            Some(
                (
                    ExecutionStage::AwaitingTotalSupply,
                    ExecutionActionView::QueryTotalSupply { token },
                ),
            )
        },
        EvidenceRequest::Decision { service, reference } => if evidence is Decision {
            None
        } else {
            Some(
                (
                    ExecutionStage::AwaitingDecision,
                    ExecutionActionView::QueryDecision { service, reference },
                ),
            )
        },
        EvidenceRequest::Nothing => None,
    }
}

/// What is done for `p` once every check has passed.
///
/// - Embedding: the next document is handed to the document service; once
///   all are embedded the proposal is stored as executed.
/// - Deleting: the document service deletes its side first; then the
///   collection is removed, and its proposals with it, and the execution
///   ends in success.
/// - All others: the record of the collection is changed, and the proposal is
///   stored as executed; where the change is refused, the proposal is stored
///   as rejected.
pub open spec fn dispatch(
    reg: RegistryView,
    c: CollectionView,
    p: ProposalView,
    executor: Principal,
    standing: Standing,
    evidence: ThresholdEvidence,
    remote_balance: Option<u64>,
    now: u64,
) -> StepView {
    let documents = p.proposal_type.documents();
    if p.proposal_type.is_billable() {
        match standing {
            Standing::RemoteDeleted => fail(reg, c.id, p.id, true, ErrorKind::InvalidOperation),
            _ => {
                let done = match standing {
                    Standing::Embedded { done } => done,
                    _ => 0usize,
                };
                if done < documents.len() {
                    StepView {
                        registry: reg,
                        progress: ExecutionProgress {
                            stage: ExecutionStage::Embedding { done },
                            evidence,
                            remote_balance,
                        },
                        action: ExecutionActionView::EmbedDocument {
                            collection_ref: c.blueband_collection_id,
                            document_id: documents[done as int],
                        },
                    }
                } else {
                    finish(reg.put_proposal(c.id, executed(p, executor, now)), None)
                }
            },
        }
    } else if p.proposal_type is DeleteCollection {
        match standing {
            Standing::Fresh => StepView {
                registry: reg,
                progress: ExecutionProgress {
                    stage: ExecutionStage::DeletingRemote,
                    evidence,
                    remote_balance,
                },
                action: ExecutionActionView::DeleteRemoteCollection {
                    collection_ref: c.blueband_collection_id,
                },
            },
            Standing::RemoteDeleted => finish(reg.remove(c.id), None),
            Standing::Embedded { .. } => fail(reg, c.id, p.id, true, ErrorKind::InvalidOperation),
        }
    } else {
        match standing {
            Standing::Fresh => match local_operation(c, p.proposal_type, now) {
                Ok(changed) => finish(
                    reg.replace(c.id, changed).put_proposal(c.id, executed(p, executor, now)),
                    None,
                ),
                Err(kind) => fail(reg, c.id, p.id, true, kind),
            },
            _ => fail(reg, c.id, p.id, true, ErrorKind::InvalidOperation),
        }
    }
}

/// Every check on the records has passed for `p` in `c`: the executor
/// administers the collection, the proposal is approved, in time and not
/// executed, the threshold is met on the evidence at hand, and, before any
/// service was asked to act, the balances cover the cost and the preconditions
/// of the kind of proposal hold.
pub open spec fn checks_pass(
    c: CollectionView,
    p: ProposalView,
    executor: Principal,
    started: bool,
    evidence: ThresholdEvidence,
    remote_balance: Option<u64>,
    context: ExecutionContext,
) -> bool {
    &&& validation(c, p, executor, context.now, started) is Go
    &&& threshold_verdict(c, p, evidence) == Ok::<bool, ErrorKind>(true)
    &&& !started ==> {
        &&& p.proposal_type.is_billable() ==> remote_balance is Some && preflight_failure(
            p.proposal_type.documents().len(),
            context.local_balance,
            remote_balance.unwrap(),
        ) is None
        &&& precondition_failure(c, p) is None
    }
}

/// The step from where `standing` says, on the records as they are now.
pub open spec fn proceed(
    reg: RegistryView,
    collection_id: Seq<char>,
    proposal_id: Seq<char>,
    executor: Principal,
    standing: Standing,
    evidence: ThresholdEvidence,
    remote_balance: Option<u64>,
    context: ExecutionContext,
) -> StepView {
    let started = standing != Standing::Fresh;
    match (reg.collection(collection_id), reg.proposal(collection_id, proposal_id)) {
        (Some(c), Some(p)) => match validation(c, p, executor, context.now, started) {
            Validation::Stop(kind) => finish(reg, Some(kind)),
            Validation::Lapse => finish(
                reg.put_proposal(
                    collection_id,
                    ProposalView { status: ProposalStatus::Expired, ..p },
                ),
                Some(ErrorKind::ProposalExpired),
            ),
            Validation::Go => {
                if !started && evidence_query(evidence_needed(c, p), evidence) is Some {
                    let (stage, action) = evidence_query(evidence_needed(c, p), evidence).unwrap();
                    StepView {
                        registry: reg,
                        progress: ExecutionProgress { stage, evidence, remote_balance },
                        action,
                    }
                } else {
                    match threshold_verdict(c, p, evidence) {
                        Err(kind) => fail(reg, collection_id, proposal_id, started, kind),
                        Ok(false) => fail(
                            reg,
                            collection_id,
                            proposal_id,
                            started,
                            ErrorKind::ThresholdNotMet,
                        ),
                        Ok(true) => {
                            if !started && p.proposal_type.is_billable() && remote_balance is None {
                                StepView {
                                    registry: reg,
                                    progress: ExecutionProgress {
                                        stage: ExecutionStage::AwaitingRemoteBalance,
                                        evidence,
                                        remote_balance,
                                    },
                                    action: ExecutionActionView::QueryRemoteBalance,
                                }
                            } else if !started && p.proposal_type.is_billable() && preflight_failure(
                                p.proposal_type.documents().len(),
                                context.local_balance,
                                remote_balance.unwrap(),
                            ) is Some {
                                finish(
                                    reg,
                                    preflight_failure(
                                        p.proposal_type.documents().len(),
                                        context.local_balance,
                                        remote_balance.unwrap(),
                                    ),
                                )
                            } else if !started && precondition_failure(c, p) is Some {
                                finish(reg, precondition_failure(c, p))
                            } else {
                                dispatch(
                                    reg,
                                    c,
                                    p,
                                    executor,
                                    standing,
                                    evidence,
                                    remote_balance,
                                    context.now,
                                )
                            }
                        },
                    }
                }
            },
        },
        _ => finish(reg, Some(ErrorKind::NotFound)),
    }
}

/// One step of the execution of the proposal called `proposal_id` by `executor`.
pub open spec fn execution_step(
    reg: RegistryView,
    collection_id: Seq<char>,
    proposal_id: Seq<char>,
    executor: Principal,
    progress: ExecutionProgress,
    reply: ServiceReply,
    context: ExecutionContext,
) -> StepView {
    match absorb(progress, reply) {
        Absorbed::Stop(kind) => finish(reg, Some(kind)),
        Absorbed::DispatchFailed => finish(
            rejected(reg, collection_id, proposal_id),
            Some(ErrorKind::BluebandError),
        ),
        Absorbed::Continue { standing, evidence, remote_balance } => proceed(
            reg,
            collection_id,
            proposal_id,
            executor,
            standing,
            evidence,
            remote_balance,
            context,
        ),
    }
}

/// The proposal called `proposal_id` is kept at place `pi` of the collection
/// called `collection_id`, which is kept at place `ci`.
pub open spec fn located(
    reg: RegistryView,
    collection_id: Seq<char>,
    proposal_id: Seq<char>,
    ci: int,
    pi: int,
) -> bool {
    &&& reg.position(collection_id) == Some(ci)
    &&& 0 <= ci < reg.collections.len()
    &&& reg.collections[ci].proposal_position(proposal_id) == Some(pi)
    &&& 0 <= pi < reg.collections[ci].proposals.len()
}

/// What being located says of the lookups.
pub(crate) proof fn lemma_located(
    reg: RegistryView,
    collection_id: Seq<char>,
    proposal_id: Seq<char>,
    ci: int,
    pi: int,
)
    requires
        located(reg, collection_id, proposal_id, ci, pi),
    ensures
        reg.collection(collection_id) == Some(reg.collections[ci]),
        reg.collections[ci].id == collection_id,
        reg.proposal(collection_id, proposal_id) == Some(reg.collections[ci].proposals[pi]),
        reg.collections[ci].proposals[pi].id == proposal_id,
{
    lemma_position(reg.ids(), collection_id);
    lemma_position(reg.collections[ci].proposal_ids(), proposal_id);
}

/// Takes the reply to the request that the stage stands for.
pub(crate) fn take_reply(progress: ExecutionProgress, reply: ServiceReply) -> (a: Absorbed)
    ensures
        a == absorb(progress, reply),
{
    match (progress.stage, reply) {
        (ExecutionStage::NotStarted, ServiceReply::Start) => Absorbed::Continue {
            standing: Standing::Fresh,
            evidence: ThresholdEvidence::Absent,
            remote_balance: None,
        },
        (ExecutionStage::AwaitingTotalSupply, ServiceReply::TotalSupply(supply)) => Absorbed::Continue {
            standing: Standing::Fresh,
            evidence: ThresholdEvidence::TotalSupply(supply),
            remote_balance: progress.remote_balance,
        },
        (ExecutionStage::AwaitingTotalSupply, ServiceReply::Failed) => Absorbed::Stop(
            ErrorKind::ExternalCallError,
        ),
        (ExecutionStage::AwaitingDecision, ServiceReply::Decision(status)) => Absorbed::Continue {
            standing: Standing::Fresh,
            evidence: ThresholdEvidence::Decision(status),
            remote_balance: progress.remote_balance,
        },
        (ExecutionStage::AwaitingDecision, ServiceReply::Failed) => Absorbed::Stop(ErrorKind::SnsError),
        (ExecutionStage::AwaitingRemoteBalance, ServiceReply::RemoteBalance(balance)) => Absorbed::Continue {
            standing: Standing::Fresh,
            evidence: progress.evidence,
            remote_balance: Some(balance),
        },
        (ExecutionStage::AwaitingRemoteBalance, ServiceReply::Failed) => Absorbed::Stop(
            ErrorKind::ExternalCallError,
        ),
        (ExecutionStage::Embedding { done }, ServiceReply::Embedded) => if done < usize::MAX {
            Absorbed::Continue {
                standing: Standing::Embedded { done: done + 1 },
                evidence: progress.evidence,
                remote_balance: progress.remote_balance,
            }
        } else {
            Absorbed::Stop(ErrorKind::InvalidOperation)
        },
        (ExecutionStage::Embedding { done }, ServiceReply::Failed) => Absorbed::DispatchFailed,
        (ExecutionStage::DeletingRemote, ServiceReply::RemoteDeleted) => Absorbed::Continue {
            standing: Standing::RemoteDeleted,
            evidence: progress.evidence,
            remote_balance: progress.remote_balance,
        },
        (ExecutionStage::DeletingRemote, ServiceReply::Failed) => Absorbed::DispatchFailed,
        _ => Absorbed::Stop(ErrorKind::InvalidOperation),
    }
}

/// Whether `executor` may execute `proposal` at time `now`.
pub fn validate(
    collection: &Collection,
    proposal: &Proposal,
    executor: Principal,
    now: u64,
    started: bool,
) -> (v: Validation)
    ensures
        v == validation(collection@, proposal@, executor, now, started),
{
    if !collection.is_admin(executor) {
        Validation::Stop(ErrorKind::NotAuthorized)
    } else if proposal.status == ProposalStatus::Executed || proposal.executed {
        Validation::Stop(ErrorKind::InvalidProposalState)
    } else if proposal.status == ProposalStatus::Rejected {
        Validation::Stop(ErrorKind::InvalidProposalState)
    } else if proposal.status == ProposalStatus::Expired {
        Validation::Stop(ErrorKind::ProposalExpired)
    } else if !started && proposal.expires_at < now {
        Validation::Lapse
    } else if proposal.status == ProposalStatus::Active {
        Validation::Stop(ErrorKind::InvalidProposalState)
    } else {
        Validation::Go
    }
}

/// Whether some proposal other than `id` is still active or approved.
pub fn other_open_proposal(proposals: &Vec<Proposal>, id: &str) -> (r: bool)
    ensures
        r == has_other_open(proposals.deep_view(), id@),
{
    let mut i: usize = 0;
    while i < proposals.len()
        invariant
            i <= proposals.len(),
            forall|j: int|
                0 <= j < i ==> (#[trigger] proposals.deep_view()[j]).status.is_terminal()
                    || proposals.deep_view()[j].id == id@,
        decreases proposals.len() - i,
    {
        let open = !proposals[i].status.terminal();
        if open && !crate::text::same_text(proposals[i].id.as_str(), id) {
            assert(!proposals.deep_view()[i as int].status.is_terminal());
            return true;
        }
        i += 1;
    }
    false
}

/// What is said where `p` cannot be carried out in `c` as `c` stands.
pub open spec fn precondition_text(c: CollectionView, p: ProposalView) -> Seq<char> {
    match p.proposal_type {
        ProposalTypeView::AddAdmin { admin } => "Admin already exists"@,
        ProposalTypeView::RemoveAdmin { admin } => if !c.admins.contains(admin) {
            "Admin not found"@
        } else {
            "Cannot remove the last admin"@
        },
        ProposalTypeView::ChangeThreshold { new_threshold } => "Invalid threshold: must be between 1 and "@
            + decimal(c.admins.len()),
        ProposalTypeView::UpdateQuorum { new_percentage } => "Quorum percentage cannot exceed 100"@,
        _ => "Cannot delete collection with other active proposals"@,
    }
}

/// Checks that `proposal` can be carried out in `collection` as it stands.
pub fn check_preconditions(collection: &Collection, proposal: &Proposal) -> (r: ClanopediaResult<()>)
    ensures
        failure(r) == precondition_failure(collection@, proposal@),
        r matches Err(e) ==> e.spec_message() == precondition_text(collection@, proposal@),
{
    match &proposal.proposal_type {
        ProposalType::AddAdmin { admin } => {
            if collection.is_admin(*admin) {
                return Err(ClanopediaError::AlreadyExists(String::from_str("Admin already exists")));
            }
        },
        ProposalType::RemoveAdmin { admin } => {
            if !collection.is_admin(*admin) {
                return Err(ClanopediaError::NotFound(String::from_str("Admin not found")));
            }
            if collection.admins.len() <= 1 || remove_from(&collection.admins, *admin).len() == 0 {
                return Err(
                    ClanopediaError::InvalidInput(String::from_str("Cannot remove the last admin")),
                );
            }
        },
        ProposalType::ChangeThreshold { new_threshold } => {
            if *new_threshold == 0 || *new_threshold as u128 > collection.admins.len() as u128 {
                let most = decimal_text(collection.admins.len() as u128);
                return Err(
                    ClanopediaError::InvalidInput(
                        concat2("Invalid threshold: must be between 1 and ", most.as_str()),
                    ),
                );
            }
        },
        ProposalType::UpdateQuorum { new_percentage } => {
            if *new_percentage > 100 {
                return Err(
                    ClanopediaError::InvalidInput(
                        String::from_str("Quorum percentage cannot exceed 100"),
                    ),
                );
            }
        },
        ProposalType::DeleteCollection => {
            if other_open_proposal(&collection.proposals, proposal.id.as_str()) {
                return Err(
                    ClanopediaError::InvalidOperation(
                        String::from_str("Cannot delete collection with other active proposals"),
                    ),
                );
            }
        },
        _ => {},
    }
    Ok(())
}

/// Checks that the balances allow embedding `documents` documents.
pub fn preflight(documents: usize, local_balance: u64, remote_balance: u64) -> (r: ClanopediaResult<
    (),
>)
    ensures
        failure(r) == preflight_failure(documents as nat, local_balance, remote_balance),
{
    let cost = match estimate_embedding_cost(documents) {
        Ok(cost) => cost,
        Err(e) => {
            return Err(e);
        },
    };
    let status = match check_cycles_status(local_balance, remote_balance) {
        Ok(status) => status,
        Err(e) => {
            return Err(e);
        },
    };
    let (enough, message) = can_execute_embed_proposal(&status, &cost);
    if !enough {
        return Err(ClanopediaError::InsufficientCycles(message));
    }
    Ok(())
}

/// Stores the proposal at the given place with the status `status`.
pub(crate) fn mark(registry: &mut Registry, ci: usize, pi: usize, status: ProposalStatus)
    requires
        ci < old(registry).collections.len(),
        pi < old(registry).collections[ci as int].proposals.len(),
        located(
            old(registry)@,
            old(registry).collections[ci as int]@.id,
            old(registry).collections[ci as int].proposals[pi as int]@.id,
            ci as int,
            pi as int,
        ),
    ensures
        final(registry)@ == old(registry)@.put_proposal(
            old(registry).collections[ci as int]@.id,
            ProposalView { status, ..old(registry).collections[ci as int].proposals[pi as int]@ },
        ),
{
    let mut changed = registry.collections[ci].proposals[pi].clone();
    changed.status = status;
    store_at(registry, ci, pi, changed);
}

/// Stores the proposal as rejected, if it is there and approved.
pub(crate) fn reject(registry: &mut Registry, collection_id: &str, proposal_id: &str)
    ensures
        final(registry)@ == rejected(old(registry)@, collection_id@, proposal_id@),
{
    match locate(registry, collection_id, proposal_id) {
        Ok((ci, pi)) => {
            proof {
                lemma_located(registry@, collection_id@, proposal_id@, ci as int, pi as int);
            }
            if registry.collections[ci].proposals[pi].status == ProposalStatus::Approved {
                mark(registry, ci, pi, ProposalStatus::Rejected);
            }
        },
        Err(_) => {},
    }
}

/// The result of a step that ends the execution.
pub(crate) fn done(result: ClanopediaResult<()>) -> (r: (ExecutionProgress, ExecutionAction))
    ensures
        r.0 == ExecutionProgress::finished(),
        r.1@ == ExecutionActionView::Done(failure(result)),
        r.1 == ExecutionAction::Done(result),
{
    (
        ExecutionProgress {
            stage: ExecutionStage::Finished,
            evidence: ThresholdEvidence::Absent,
            remote_balance: None,
        },
        ExecutionAction::Done(result),
    )
}

/// Ends the execution with `error`: before any service was asked to act,
/// nothing is written; after that, the proposal is stored as rejected.
pub(crate) fn fail_with(
    registry: &mut Registry,
    collection_id: &str,
    proposal_id: &str,
    started: bool,
    error: ClanopediaError,
) -> (r: (ExecutionProgress, ExecutionAction))
    ensures
        ({
            let step = fail(
                old(registry)@,
                collection_id@,
                proposal_id@,
                started,
                error.spec_kind(),
            );
            &&& final(registry)@ == step.registry
            &&& r.0 == step.progress
            &&& r.1@ == step.action
        }),
        r.1 == ExecutionAction::Done(Err(error)),
{
    if started {
        reject(registry, collection_id, proposal_id);
    }
    done(Err(error))
}

/// The documents that a proposal asks to embed; none for the other kinds.
pub fn documents_of(proposal_type: &ProposalType) -> (r: Option<&Vec<String>>)
    ensures
        r is Some <==> proposal_type@.is_billable(),
        r matches Some(list) ==> list.deep_view() == proposal_type@.documents(),
{
    match proposal_type {
        ProposalType::EmbedDocument { documents } => Some(documents),
        ProposalType::BatchEmbed { document_ids } => Some(document_ids),
        _ => None,
    }
}

/// Carrying out an operation on the record of a collection leaves its id and
/// its proposals as they were.
pub(crate) proof fn lemma_local_operation_keeps(c: CollectionView, operation: ProposalTypeView, now: u64)
    ensures
        local_operation(c, operation, now) matches Ok(changed) ==> changed.id == c.id
            && changed.proposals == c.proposals,
{
}

/// Asks for what the threshold needs and `evidence` does not hold.
pub fn query_evidence(needed: EvidenceRequest, evidence: ThresholdEvidence) -> (r: Option<
    (ExecutionStage, ExecutionAction),
>)
    ensures
        match r {
            Some((stage, action)) => evidence_query(needed, evidence) == Some((stage, action@)),
            None => evidence_query(needed, evidence) is None,
        },
{
    match needed {
        EvidenceRequest::TotalSupply { token } => match evidence {
            ThresholdEvidence::TotalSupply(_) => None,
            _ => Some(
                (ExecutionStage::AwaitingTotalSupply, ExecutionAction::QueryTotalSupply { token }),
            ),
        },
        EvidenceRequest::Decision { service, reference } => match evidence {
            ThresholdEvidence::Decision(_) => None,
            _ => Some(
                (
                    ExecutionStage::AwaitingDecision,
                    ExecutionAction::QueryDecision { service, reference },
                ),
            ),
        },
        EvidenceRequest::Nothing => None,
    }
}

/// Does for the proposal at the given place what is done once every check has passed.
fn carry_out(
    registry: &mut Registry,
    collection_id: &str,
    proposal_id: &str,
    ci: usize,
    pi: usize,
    executor: Principal,
    standing: Standing,
    evidence: ThresholdEvidence,
    remote_balance: Option<u64>,
    now: u64,
) -> (r: (ExecutionProgress, ExecutionAction))
    requires
        ci < old(registry).collections.len(),
        pi < old(registry).collections[ci as int].proposals.len(),
        located(old(registry)@, collection_id@, proposal_id@, ci as int, pi as int),
        old(registry).collections[ci as int].proposals[pi as int]@.status == ProposalStatus::Approved,
    ensures
        ({
            let step = dispatch(
                old(registry)@,
                old(registry).collections[ci as int]@,
                old(registry).collections[ci as int].proposals[pi as int]@,
                executor,
                standing,
                evidence,
                remote_balance,
                now,
            );
            &&& final(registry)@ == step.registry
            &&& r.0 == step.progress
            &&& r.1@ == step.action
        }),
{
    let ghost before = registry@;
    let ghost c = registry.collections[ci as int]@;
    let ghost p = registry.collections[ci as int].proposals[pi as int]@;
    proof {
        lemma_located(before, collection_id@, proposal_id@, ci as int, pi as int);
    }
    let kind = registry.collections[ci].proposals[pi].proposal_type.clone();
    match documents_of(&kind) {
        Some(documents) => {
            let done = match standing {
                Standing::RemoteDeleted => {
                    return fail_with(
                        registry,
                        collection_id,
                        proposal_id,
                        true,
                        ClanopediaError::InvalidOperation(
                            String::from_str("The reply does not belong to this proposal"),
                        ),
                    );
                },
                Standing::Embedded { done } => done,
                Standing::Fresh => 0,
            };
            if done < documents.len() {
                let collection_ref = registry.collections[ci].blueband_collection_id.clone();
                let document_id = documents[done].clone();
                assert(documents.deep_view()[done as int] == documents[done as int]@);
                (
                    ExecutionProgress {
                        stage: ExecutionStage::Embedding { done },
                        evidence,
                        remote_balance,
                    },
                    ExecutionAction::EmbedDocument { collection_ref, document_id },
                )
            } else {
                let mut finished = registry.collections[ci].proposals[pi].clone();
                finished.status = ProposalStatus::Executed;
                finished.executed = true;
                finished.executed_at = Some(now);
                finished.executed_by = Some(executor);
                store_at(registry, ci, pi, finished);
                done_ok()
            }
        },
        None => match kind {
            ProposalType::DeleteCollection => match standing {
                Standing::Fresh => {
                    let collection_ref = registry.collections[ci].blueband_collection_id.clone();
                    (
                        ExecutionProgress {
                            stage: ExecutionStage::DeletingRemote,
                            evidence,
                            remote_balance,
                        },
                        ExecutionAction::DeleteRemoteCollection { collection_ref },
                    )
                },
                Standing::RemoteDeleted => {
                    registry.collections.remove(ci);
                    assert(registry@.collections =~= before.collections.remove(ci as int));
                    done_ok()
                },
                Standing::Embedded { .. } => fail_with(
                    registry,
                    collection_id,
                    proposal_id,
                    true,
                    ClanopediaError::InvalidOperation(
                        String::from_str("The reply does not belong to this proposal"),
                    ),
                ),
            },
            _ => match standing {
                Standing::Fresh => {
                    proof {
                        lemma_local_operation_keeps(c, kind@, now);
                    }
                    match execute_proposal_operation(registry, &kind, collection_id, now) {
                        Ok(_) => {
                            proof {
                                let changed = local_operation(c, kind@, now)->Ok_0;
                                crate::storage::lemma_replace_lookup(
                                    before,
                                    collection_id@,
                                    changed,
                                    collection_id@,
                                );
                                assert(registry@.collections[ci as int] == changed);
                            }
                            let mut finished = registry.collections[ci].proposals[pi].clone();
                            finished.status = ProposalStatus::Executed;
                            finished.executed = true;
                            finished.executed_at = Some(now);
                            finished.executed_by = Some(executor);
                            store_at(registry, ci, pi, finished);
                            done_ok()
                        },
                        Err(e) => fail_with(registry, collection_id, proposal_id, true, e),
                    }
                },
                _ => fail_with(
                    registry,
                    collection_id,
                    proposal_id,
                    true,
                    ClanopediaError::InvalidOperation(
                        String::from_str("The reply does not belong to this proposal"),
                    ),
                ),
            },
        },
    }
}

/// The result of a step that ends the execution with success.
pub(crate) fn done_ok() -> (r: (ExecutionProgress, ExecutionAction))
    ensures
        r.0 == ExecutionProgress::finished(),
        r.1@ == ExecutionActionView::Done(None),
{
    done(Ok(()))
}

/// The step from where `standing` says ends at the preconditions of the kind
/// of proposal: every check before them has passed, and one of them fails.
pub open spec fn stops_at_preconditions(
    reg: RegistryView,
    collection_id: Seq<char>,
    proposal_id: Seq<char>,
    executor: Principal,
    standing: Standing,
    evidence: ThresholdEvidence,
    remote_balance: Option<u64>,
    context: ExecutionContext,
) -> bool {
    match (reg.collection(collection_id), reg.proposal(collection_id, proposal_id)) {
        (Some(c), Some(p)) => {
            &&& standing == Standing::Fresh
            &&& validation(c, p, executor, context.now, false) is Go
            &&& evidence_query(evidence_needed(c, p), evidence) is None
            &&& threshold_verdict(c, p, evidence) == Ok::<bool, ErrorKind>(true)
            &&& p.proposal_type.is_billable() ==> remote_balance is Some && preflight_failure(
                p.proposal_type.documents().len(),
                context.local_balance,
                remote_balance.unwrap(),
            ) is None
            &&& precondition_failure(c, p) is Some
        },
        _ => false,
    }
}

/// The step from where `standing` says, on the records as they are now.
fn go_on(
    registry: &mut Registry,
    collection_id: &str,
    proposal_id: &str,
    executor: Principal,
    standing: Standing,
    evidence: ThresholdEvidence,
    remote_balance: Option<u64>,
    context: ExecutionContext,
) -> (r: (ExecutionProgress, ExecutionAction))
    ensures
        ({
            let step = proceed(
                old(registry)@,
                collection_id@,
                proposal_id@,
                executor,
                standing,
                evidence,
                remote_balance,
                context,
            );
            &&& final(registry)@ == step.registry
            &&& r.0 == step.progress
            &&& r.1@ == step.action
        }),
        stops_at_preconditions(
            old(registry)@,
            collection_id@,
            proposal_id@,
            executor,
            standing,
            evidence,
            remote_balance,
            context,
        ) ==> (r.1 matches ExecutionAction::Done(Err(e)) && e.spec_message() == precondition_text(
            old(registry)@.collection(collection_id@).unwrap(),
            old(registry)@.proposal(collection_id@, proposal_id@).unwrap(),
        )),
{
    let started = standing != Standing::Fresh;
    let (ci, pi) = match locate(registry, collection_id, proposal_id) {
        Ok(place) => place,
        Err(e) => {
            return done(Err(e));
        },
    };
    proof {
        lemma_located(registry@, collection_id@, proposal_id@, ci as int, pi as int);
    }
    let collection = &registry.collections[ci];
    let proposal = &collection.proposals[pi];
    match validate(collection, proposal, executor, context.now, started) {
        Validation::Stop(kind) => {
            let e = match kind {
                ErrorKind::NotAuthorized => ClanopediaError::NotAuthorized,
                ErrorKind::ProposalExpired => ClanopediaError::ProposalExpired,
                _ => ClanopediaError::InvalidProposalState(
                    String::from_str("Proposal must be approved and not yet executed"),
                ),
            };
            return done(Err(e));
        },
        Validation::Lapse => {
            mark(registry, ci, pi, ProposalStatus::Expired);
            return done(Err(ClanopediaError::ProposalExpired));
        },
        Validation::Go => {},
    }
    if !started {
        match query_evidence(required_evidence(collection, proposal), evidence) {
            Some((stage, action)) => {
                return (ExecutionProgress { stage, evidence, remote_balance }, action);
            },
            None => {},
        }
    }
    match check_threshold(collection, proposal, evidence) {
        Err(e) => {
            return fail_with(registry, collection_id, proposal_id, started, e);
        },
        Ok(met) => {
            if !met {
                return fail_with(
                    registry,
                    collection_id,
                    proposal_id,
                    started,
                    ClanopediaError::ThresholdNotMet,
                );
            }
        },
    }
    if !started {
        match documents_of(&proposal.proposal_type) {
            Some(documents) => {
                let remote = match remote_balance {
                    Some(remote) => remote,
                    None => {
                        return (
                            ExecutionProgress {
                                stage: ExecutionStage::AwaitingRemoteBalance,
                                evidence,
                                remote_balance,
                            },
                            ExecutionAction::QueryRemoteBalance,
                        );
                    },
                };
                match preflight(documents.len(), context.local_balance, remote) {
                    Err(e) => {
                        return done(Err(e));
                    },
                    Ok(_) => {},
                }
            },
            None => {},
        }
        match check_preconditions(collection, proposal) {
            Err(e) => {
                return done(Err(e));
            },
            Ok(_) => {},
        }
    }
    carry_out(
        registry,
        collection_id,
        proposal_id,
        ci,
        pi,
        executor,
        standing,
        evidence,
        remote_balance,
        context.now,
    )
}

/// One step of the execution of the proposal called `proposal_id` by `executor`.
///
/// `progress` is what the previous step returned (or
/// [`ExecutionProgress::new`] for the first step), `reply` the answer to the
/// request that it made, and `failure_text` what the service said where the
/// reply is a failure. The step reads the records as they are now: it trusts
/// nothing that an earlier step has read. Where the step ends at the
/// preconditions of the kind of proposal, the error says which one failed.
pub fn execute_proposal(
    registry: &mut Registry,
    collection_id: &str,
    proposal_id: &str,
    executor: Principal,
    progress: ExecutionProgress,
    reply: ServiceReply,
    failure_text: &str,
    context: ExecutionContext,
) -> (r: (ExecutionProgress, ExecutionAction))
    ensures
        ({
            let step = execution_step(
                old(registry)@,
                collection_id@,
                proposal_id@,
                executor,
                progress,
                reply,
                context,
            );
            &&& final(registry)@ == step.registry
            &&& r.0 == step.progress
            &&& r.1@ == step.action
        }),
        reply is Failed && absorb(progress, reply) !is Continue ==> (r.1 matches ExecutionAction::Done(
            Err(e),
        ) && (e.spec_kind() != ErrorKind::InvalidOperation ==> e.spec_message() == failure_text@)),
        (absorb(progress, reply) matches Absorbed::Continue { standing, evidence, remote_balance }
            && stops_at_preconditions(
            old(registry)@,
            collection_id@,
            proposal_id@,
            executor,
            standing,
            evidence,
            remote_balance,
            context,
        )) ==> (r.1 matches ExecutionAction::Done(Err(e)) && e.spec_message() == precondition_text(
            old(registry)@.collection(collection_id@).unwrap(),
            old(registry)@.proposal(collection_id@, proposal_id@).unwrap(),
        )),
{
    match take_reply(progress, reply) {
        Absorbed::Stop(kind) => {
            let e = match kind {
                ErrorKind::ExternalCallError => ClanopediaError::ExternalCallError(
                    String::from_str(failure_text),
                ),
                ErrorKind::SnsError => ClanopediaError::SnsError(String::from_str(failure_text)),
                _ => ClanopediaError::InvalidOperation(
                    String::from_str("The reply answers no request of this execution"),
                ),
            };
            done(Err(e))
        },
        Absorbed::DispatchFailed => {
            reject(registry, collection_id, proposal_id);
            done(Err(ClanopediaError::BluebandError(String::from_str(failure_text))))
        },
        Absorbed::Continue { standing, evidence, remote_balance } => go_on(
            registry,
            collection_id,
            proposal_id,
            executor,
            standing,
            evidence,
            remote_balance,
            context,
        ),
    }
}

/// Whatever a step of an execution does, each proposal takes at most one
/// allowed step, and a proposal in a final status stays exactly as it is.
pub proof fn lemma_execution_is_step(
    reg: RegistryView,
    collection_id: Seq<char>,
    proposal_id: Seq<char>,
    executor: Principal,
    progress: ExecutionProgress,
    reply: ServiceReply,
    context: ExecutionContext,
)
    requires
        reg.wf(),
    ensures
        registry_step(
            reg,
            execution_step(
                reg,
                collection_id,
                proposal_id,
                executor,
                progress,
                reply,
                context,
            ).registry,
        ),
{
    let step = execution_step(reg, collection_id, proposal_id, executor, progress, reply, context);
    lemma_rejected_is_step(reg, collection_id, proposal_id);
    match (reg.collection(collection_id), reg.proposal(collection_id, proposal_id)) {
        (Some(c), Some(p)) => {
            lemma_position(reg.ids(), collection_id);
            lemma_position(c.proposal_ids(), proposal_id);
            if p.status == ProposalStatus::Active || p.status == ProposalStatus::Approved {
                lemma_put_is_step(
                    reg,
                    collection_id,
                    ProposalView { status: ProposalStatus::Expired, ..p },
                );
            }
            if p.status == ProposalStatus::Approved {
                lemma_put_is_step(reg, collection_id, executed(p, executor, context.now));
                match local_operation(c, p.proposal_type, context.now) {
                    Ok(changed) => {
                        let mid = reg.replace(collection_id, changed);
                        let q = executed(p, executor, context.now);
                        let after = mid.put_proposal(collection_id, q);
                        assert forall|a: Seq<char>, b: Seq<char>|
                            (#[trigger] reg.proposal(a, b)) is Some && after.proposal(a, b)
                                is Some implies proposal_step(
                            reg.proposal(a, b).unwrap(),
                            after.proposal(a, b).unwrap(),
                        ) by {
                            crate::storage::lemma_replace_lookup(reg, collection_id, changed, a);
                            crate::storage::lemma_registry_put_proposal(
                                mid,
                                collection_id,
                                q,
                                a,
                                b,
                            );
                            lemma_position(reg.ids(), a);
                            if reg.collection(a) is Some {
                                lemma_position(reg.collection(a).unwrap().proposal_ids(), b);
                            }
                        }
                    },
                    Err(_) => {},
                }
            }
            let gone = reg.remove(collection_id);
            assert forall|a: Seq<char>, b: Seq<char>|
                (#[trigger] reg.proposal(a, b)) is Some && gone.proposal(a, b) is Some implies proposal_step(
                reg.proposal(a, b).unwrap(),
                gone.proposal(a, b).unwrap(),
            ) by {
                crate::storage::lemma_remove_lookup(reg, collection_id, a);
                lemma_position(reg.ids(), a);
                if reg.collection(a) is Some {
                    lemma_position(reg.collection(a).unwrap().proposal_ids(), b);
                }
            }
        },
        _ => {},
    }
}

/// How a step of the execution of an approved proposal leaves the proposal,
/// unless the proposal asks for deleting its collection. While the step asks
/// for something, nothing is written. The proposal is never stored as active.
/// The step ends in success exactly where the proposal is stored as executed,
/// and then it names the executor and the time of the step; otherwise it is
/// not marked as executed and names no executor and no time of execution.
pub proof fn lemma_execution_outcome(
    reg: RegistryView,
    collection_id: Seq<char>,
    proposal_id: Seq<char>,
    executor: Principal,
    progress: ExecutionProgress,
    reply: ServiceReply,
    context: ExecutionContext,
)
    requires
        reg.wf(),
        reg.proposal(collection_id, proposal_id) matches Some(p) && p.status
            == ProposalStatus::Approved && !(p.proposal_type is DeleteCollection),
    ensures
        ({
            let step = execution_step(
                reg,
                collection_id,
                proposal_id,
                executor,
                progress,
                reply,
                context,
            );
            &&& !(step.action is Done) ==> step.registry == reg
            &&& step.registry.proposal(collection_id, proposal_id) matches Some(q) && {
                &&& q.status != ProposalStatus::Active
                &&& step.action == ExecutionActionView::Done(None) <==> q.status
                    == ProposalStatus::Executed
                &&& q.status == ProposalStatus::Executed ==> q.executed && q.executed_by == Some(
                    executor,
                ) && q.executed_at == Some(context.now)
                &&& q.status != ProposalStatus::Executed ==> !q.executed && q.executed_by is None
                    && q.executed_at is None
            }
        }),
{
    lemma_position(reg.ids(), collection_id);
    let c = reg.collection(collection_id).unwrap();
    lemma_position(c.proposal_ids(), proposal_id);
    let p = reg.proposal(collection_id, proposal_id).unwrap();
    let i = reg.position(collection_id).unwrap();
    assert(c.wf());
    assert(p.wf());
    let lapsed = ProposalView { status: ProposalStatus::Expired, ..p };
    let refused = ProposalView { status: ProposalStatus::Rejected, ..p };
    let carried = executed(p, executor, context.now);
    crate::storage::lemma_registry_put_proposal(reg, collection_id, lapsed, collection_id, proposal_id);
    crate::storage::lemma_registry_put_proposal(reg, collection_id, refused, collection_id, proposal_id);
    crate::storage::lemma_registry_put_proposal(reg, collection_id, carried, collection_id, proposal_id);
    match local_operation(c, p.proposal_type, context.now) {
        Ok(changed) => {
            lemma_local_operation_keeps(c, p.proposal_type, context.now);
            let mid = reg.replace(collection_id, changed);
            crate::storage::lemma_replace_lookup(reg, collection_id, changed, collection_id);
            lemma_position(mid.ids(), collection_id);
            crate::storage::lemma_registry_put_proposal(
                mid,
                collection_id,
                carried,
                collection_id,
                proposal_id,
            );
        },
        Err(_) => {},
    }
}

/// Storing a proposal as rejected is a step.
pub(crate) proof fn lemma_rejected_is_step(reg: RegistryView, collection_id: Seq<char>, proposal_id: Seq<char>)
    ensures
        registry_step(reg, rejected(reg, collection_id, proposal_id)),
{
    match reg.proposal(collection_id, proposal_id) {
        Some(p) => {
            lemma_position(reg.ids(), collection_id);
            lemma_position(reg.collection(collection_id).unwrap().proposal_ids(), proposal_id);
            if p.status == ProposalStatus::Approved {
                lemma_put_is_step(
                    reg,
                    collection_id,
                    ProposalView { status: ProposalStatus::Rejected, ..p },
                );
            }
        },
        None => {},
    }
}

/// A step asks a service to act only when every check on the records has
/// passed in that same step, and such a step writes nothing.
pub proof fn lemma_side_effects_only_after_checks(
    reg: RegistryView,
    collection_id: Seq<char>,
    proposal_id: Seq<char>,
    executor: Principal,
    progress: ExecutionProgress,
    reply: ServiceReply,
    context: ExecutionContext,
)
    ensures
        ({
            let step = execution_step(
                reg,
                collection_id,
                proposal_id,
                executor,
                progress,
                reply,
                context,
            );
            step.action.is_side_effecting() ==> {
                &&& absorb(progress, reply) matches Absorbed::Continue {
                    standing,
                    evidence,
                    remote_balance,
                }
                &&& reg.collection(collection_id) matches Some(c)
                &&& reg.proposal(collection_id, proposal_id) matches Some(p)
                &&& checks_pass(
                    c,
                    p,
                    executor,
                    standing != Standing::Fresh,
                    evidence,
                    remote_balance,
                    context,
                )
                &&& step.registry == reg
            }
        }),
{
}

/// Where a check on the records fails, a step leaves every record as it is,
/// but for the status of the proposal itself, which it may store as expired
/// or as rejected.
pub proof fn lemma_failed_checks_write_nothing(
    reg: RegistryView,
    collection_id: Seq<char>,
    proposal_id: Seq<char>,
    executor: Principal,
    progress: ExecutionProgress,
    reply: ServiceReply,
    context: ExecutionContext,
)
    ensures
        ({
            let step = execution_step(
                reg,
                collection_id,
                proposal_id,
                executor,
                progress,
                reply,
                context,
            );
            let checked = {
                &&& absorb(progress, reply) matches Absorbed::Continue {
                    standing,
                    evidence,
                    remote_balance,
                }
                &&& reg.collection(collection_id) matches Some(c)
                &&& reg.proposal(collection_id, proposal_id) matches Some(p)
                &&& checks_pass(
                    c,
                    p,
                    executor,
                    standing != Standing::Fresh,
                    evidence,
                    remote_balance,
                    context,
                )
            };
            !checked ==> {
                ||| step.registry == reg
                ||| reg.proposal(collection_id, proposal_id) matches Some(p) && step.registry
                    == reg.put_proposal(
                    collection_id,
                    ProposalView { status: ProposalStatus::Expired, ..p },
                )
                ||| reg.proposal(collection_id, proposal_id) matches Some(p) && step.registry
                    == reg.put_proposal(
                    collection_id,
                    ProposalView { status: ProposalStatus::Rejected, ..p },
                )
            }
        }),
{
}

/// Once executing a proposal has reported it as expired, executing it again
/// reports it as expired again and writes nothing: the proposal stays stored
/// as expired, as the first report left it.
pub proof fn lemma_expiry_is_idempotent(
    reg: RegistryView,
    collection_id: Seq<char>,
    proposal_id: Seq<char>,
    executor: Principal,
    first: ExecutionContext,
    second: ExecutionContext,
)
    requires
        execution_step(
            reg,
            collection_id,
            proposal_id,
            executor,
            ExecutionProgress::fresh(),
            ServiceReply::Start,
            first,
        ).action == ExecutionActionView::Done(Some(ErrorKind::ProposalExpired)),
    ensures
        ({
            let once = execution_step(
                reg,
                collection_id,
                proposal_id,
                executor,
                ExecutionProgress::fresh(),
                ServiceReply::Start,
                first,
            );
            let twice = execution_step(
                once.registry,
                collection_id,
                proposal_id,
                executor,
                ExecutionProgress::fresh(),
                ServiceReply::Start,
                second,
            );
            &&& twice.action == ExecutionActionView::Done(Some(ErrorKind::ProposalExpired))
            &&& twice.registry == once.registry
            &&& once.registry.proposal(collection_id, proposal_id) matches Some(p) && p.status
                == ProposalStatus::Expired
        }),
{
    let once = execution_step(
        reg,
        collection_id,
        proposal_id,
        executor,
        ExecutionProgress::fresh(),
        ServiceReply::Start,
        first,
    );
    lemma_position(reg.ids(), collection_id);
    let c = reg.collection(collection_id).unwrap();
    lemma_position(c.proposal_ids(), proposal_id);
    let p = reg.proposal(collection_id, proposal_id).unwrap();
    if validation(c, p, executor, first.now, false) is Lapse {
        let lapsed = ProposalView { status: ProposalStatus::Expired, ..p };
        crate::storage::lemma_registry_put_proposal(
            reg,
            collection_id,
            lapsed,
            collection_id,
            proposal_id,
        );
        crate::storage::lemma_put_proposal_lookup(c, lapsed, proposal_id);
        crate::storage::lemma_replace_lookup(
            reg,
            collection_id,
            c.put_proposal(lapsed),
            collection_id,
        );
    }
}

/// A step of an execution keeps the records well formed: no proposal gets a
/// second entry for a principal, and a proposal is marked as executed only
/// together with the status Executed.
pub proof fn lemma_execution_keeps_well_formed(
    reg: RegistryView,
    collection_id: Seq<char>,
    proposal_id: Seq<char>,
    executor: Principal,
    progress: ExecutionProgress,
    reply: ServiceReply,
    context: ExecutionContext,
)
    requires
        reg.wf(),
    ensures
        execution_step(
            reg,
            collection_id,
            proposal_id,
            executor,
            progress,
            reply,
            context,
        ).registry.wf(),
{
    match (reg.collection(collection_id), reg.proposal(collection_id, proposal_id)) {
        (Some(c), Some(p)) => {
            lemma_position(reg.ids(), collection_id);
            lemma_position(c.proposal_ids(), proposal_id);
            let i = reg.position(collection_id).unwrap();
            let j = c.proposal_position(proposal_id).unwrap();
            assert(reg.collections[i].wf());
            assert(c.proposals[j].wf());
            if !p.executed {
                crate::storage::lemma_registry_put_proposal_wf(
                    reg,
                    collection_id,
                    ProposalView { status: ProposalStatus::Expired, ..p },
                );
                crate::storage::lemma_registry_put_proposal_wf(
                    reg,
                    collection_id,
                    ProposalView { status: ProposalStatus::Rejected, ..p },
                );
                crate::storage::lemma_registry_put_proposal_wf(
                    reg,
                    collection_id,
                    executed(p, executor, context.now),
                );
                match local_operation(c, p.proposal_type, context.now) {
                    Ok(changed) => {
                        let mid = reg.replace(collection_id, changed);
                        assert(mid.ids() =~= reg.ids());
                        assert(changed.wf());
                        assert forall|k: int| 0 <= k < mid.collections.len() implies (
                        #[trigger] mid.collections[k]).wf() by {
                            if k != i {
                                assert(mid.collections[k] == reg.collections[k]);
                            }
                        }
                        crate::storage::lemma_registry_put_proposal_wf(
                            mid,
                            collection_id,
                            executed(p, executor, context.now),
                        );
                    },
                    Err(_) => {},
                }
            }
            let gone = reg.remove(collection_id);
            assert(gone.ids() =~= reg.ids().remove(i));
            assert(crate::keys::distinct(gone.ids())) by {
                assert forall|a: int, b: int|
                    0 <= a < gone.ids().len() && 0 <= b < gone.ids().len() && a
                        != b implies gone.ids()[a] != gone.ids()[b] by {
                    let a0 = if a < i { a } else { a + 1 };
                    let b0 = if b < i { b } else { b + 1 };
                    assert(gone.ids()[a] == reg.ids()[a0]);
                    assert(gone.ids()[b] == reg.ids()[b0]);
                }
            }
            assert forall|k: int| 0 <= k < gone.collections.len() implies (
            #[trigger] gone.collections[k]).wf() by {
                let k0 = if k < i { k } else { k + 1 };
                assert(gone.collections[k] == reg.collections[k0]);
            }
        },
        _ => {},
    }
}

} // verus!
