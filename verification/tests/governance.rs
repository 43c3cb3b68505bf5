use clanopedia_backend::execution::{
    execute_proposal, ExecutionAction, ExecutionContext, ExecutionProgress, ExecutionStage,
    ServiceReply,
};
use clanopedia_backend::governance::{
    can_execute_directly, cleanup_expired_proposals, create_proposal, create_proposal_with,
    delete_collection, get_proposal, get_proposal_status, get_proposals, link_sns_proposal_id,
    list_active_proposals, sync_sns_proposal_status_and_update, vote_needs, vote_on_proposal,
    DeletionStep, RemoteDeletion, VoteEvidence, VoteNeeds,
};
use clanopedia_backend::execution::check_preconditions;
use clanopedia_backend::service::{add_documents_step, AddReply, AddStep};
use clanopedia_backend::extractor::types::DocumentAction;
use clanopedia_backend::external::sns_integration::SnsProposalStatus;
use clanopedia_backend::storage::{create_collection, get_collection, Registry};
use clanopedia_backend::threshold::ThresholdEvidence;
use clanopedia_backend::types::{
    CollectionConfig, ErrorKind, GovernanceModel, Principal, ProposalStatus, ProposalType, Vote,
    PROPOSAL_DURATION_NANOS,
};

const COLLECTION: &str = "col_1";

fn principal(tag: u8) -> Principal {
    Principal::from_slice(&[tag, 7, 7]).unwrap()
}

fn config(model: GovernanceModel, admins: &[Principal], threshold: u32, quorum: u32) -> CollectionConfig {
    CollectionConfig {
        name: "Library".to_string(),
        description: "Shared notes".to_string(),
        admins: admins.iter().map(|p| p.to_text()).collect(),
        threshold,
        governance_token: if model == GovernanceModel::TokenBased {
            Some(principal(200).to_text())
        } else {
            None
        },
        sns_governance_canister: if model == GovernanceModel::SnsIntegrated {
            Some(principal(201).to_text())
        } else {
            None
        },
        governance_model: model,
        quorum_threshold: quorum,
        is_permissionless: false,
    }
}

fn registry_with(model: GovernanceModel, admins: &[Principal], threshold: u32, quorum: u32) -> Registry {
    let mut registry = Registry::new();
    let id = COLLECTION.to_string();
    create_collection(&mut registry, &id, config(model, admins, threshold, quorum), admins[0], 1_000)
        .unwrap();
    registry
}

fn no_evidence() -> VoteEvidence {
    VoteEvidence { balance: None, threshold: ThresholdEvidence::Absent }
}

fn propose(registry: &mut Registry, kind: ProposalType, now: u64) -> String {
    create_proposal_with(registry, COLLECTION, kind, principal(1), "change".to_string(), now, 77).unwrap()
}

fn status(registry: &Registry, id: &str) -> ProposalStatus {
    get_proposal_status(registry, COLLECTION, id.to_string()).unwrap()
}

fn context(now: u64) -> ExecutionContext {
    ExecutionContext { now, local_balance: 1_000_000_000 }
}

/// Runs an execution to its end against a document service that fails on the
/// calls whose number (from 1) is in `failing`; returns the result and the
/// requests made of the document service.
fn run(
    registry: &mut Registry,
    id: &str,
    executor: Principal,
    now: u64,
    failing: &[usize],
) -> (Result<(), ErrorKind>, Vec<String>) {
    let mut progress = ExecutionProgress::new();
    let mut reply = ServiceReply::Start;
    let mut calls: Vec<String> = Vec::new();
    for _ in 0..100 {
        let (next, action) =
            execute_proposal(registry, COLLECTION, id, executor, progress, reply, "service down", context(now));
        progress = next;
        match action {
            ExecutionAction::Done(result) => {
                assert_eq!(progress.stage, ExecutionStage::Finished);
                return (result.map_err(|e| e.kind()), calls);
            }
            ExecutionAction::QueryTotalSupply { .. } => reply = ServiceReply::TotalSupply(1_000),
            ExecutionAction::QueryDecision { .. } => {
                reply = ServiceReply::Decision(SnsProposalStatus::Adopted)
            }
            ExecutionAction::QueryRemoteBalance => reply = ServiceReply::RemoteBalance(1_000_000_000),
            ExecutionAction::EmbedDocument { collection_ref: _, document_id } => {
                calls.push(format!("embed {}", document_id));
                reply = if failing.contains(&calls.len()) {
                    ServiceReply::Failed
                } else {
                    ServiceReply::Embedded
                };
            }
            ExecutionAction::DeleteRemoteCollection { collection_ref: _ } => {
                calls.push("delete".to_string());
                reply = if failing.contains(&calls.len()) {
                    ServiceReply::Failed
                } else {
                    ServiceReply::RemoteDeleted
                };
            }
        }
    }
    panic!("the execution did not end");
}

#[test]
fn proposal_id_is_made_of_collection_time_and_random_number() {
    let mut registry = registry_with(GovernanceModel::Multisig, &[principal(1)], 1, 0);
    let id = create_proposal_with(
        &mut registry,
        COLLECTION,
        ProposalType::DeleteCollection,
        principal(1),
        "drop".to_string(),
        1_234_567_890,
        0xABCD,
    )
    .unwrap();
    assert_eq!(id, "prop_col_1_7890_abcd");
    let short = create_proposal_with(
        &mut registry,
        COLLECTION,
        ProposalType::DeleteCollection,
        principal(1),
        "drop".to_string(),
        42,
        0xFFFF,
    )
    .unwrap();
    assert_eq!(short, "prop_col_1_42_0000");
}

#[test]
fn created_proposal_is_active_and_expires_after_seven_days() {
    let mut registry = registry_with(GovernanceModel::Multisig, &[principal(1), principal(2)], 2, 0);
    let id = propose(&mut registry, ProposalType::UpdateQuorum { new_percentage: 10 }, 5_000);
    let proposal = get_proposal(&registry, COLLECTION, &id).unwrap();
    assert_eq!(proposal.status, ProposalStatus::Active);
    assert_eq!(proposal.created_at, 5_000);
    assert_eq!(proposal.expires_at, 5_000 + PROPOSAL_DURATION_NANOS);
    assert_eq!(PROPOSAL_DURATION_NANOS, 7 * 24 * 60 * 60 * 1_000_000_000);
    assert_eq!(proposal.threshold, 2);
    assert!(!proposal.threshold_met);
    assert!(!proposal.executed);
    assert!(proposal.votes.is_empty());
    assert_eq!(proposal.collection_id, COLLECTION);
}

#[test]
fn creation_near_the_end_of_time_saturates_the_expiry() {
    let mut registry = registry_with(GovernanceModel::Multisig, &[principal(1)], 1, 0);
    let id = propose(&mut registry, ProposalType::DeleteCollection, u64::MAX - 5);
    assert_eq!(get_proposal(&registry, COLLECTION, &id).unwrap().expires_at, u64::MAX);
}

#[test]
fn creating_the_same_id_twice_is_refused() {
    let mut registry = registry_with(GovernanceModel::Multisig, &[principal(1)], 1, 0);
    propose(&mut registry, ProposalType::DeleteCollection, 9);
    let again = create_proposal_with(
        &mut registry,
        COLLECTION,
        ProposalType::DeleteCollection,
        principal(1),
        "again".to_string(),
        9,
        77,
    );
    assert_eq!(again.unwrap_err().kind(), ErrorKind::AlreadyExists);
    assert_eq!(get_proposals(&registry, COLLECTION).unwrap().len(), 1);
}

#[test]
fn creation_in_a_missing_collection_is_refused() {
    let mut registry = Registry::new();
    let r = create_proposal(
        &mut registry,
        "nowhere",
        ProposalType::DeleteCollection,
        principal(1),
        "x".to_string(),
        1,
    );
    assert_eq!(r.unwrap_err().kind(), ErrorKind::NotFound);
}

#[test]
fn creation_with_a_drawn_number_gives_a_fresh_id() {
    let mut registry = registry_with(GovernanceModel::Multisig, &[principal(1)], 1, 0);
    let id = create_proposal(
        &mut registry,
        COLLECTION,
        ProposalType::DeleteCollection,
        principal(1),
        "x".to_string(),
        1_111,
    )
    .unwrap();
    assert!(id.starts_with("prop_col_1_1111_"));
    assert_eq!(id.len(), "prop_col_1_1111_".len() + 4);
    assert_eq!(status(&registry, &id), ProposalStatus::Active);
}

#[test]
fn permissionless_collection_approves_on_creation() {
    let mut registry = registry_with(GovernanceModel::Permissionless, &[principal(1)], 0, 0);
    let id = propose(&mut registry, ProposalType::UpdateQuorum { new_percentage: 10 }, 5);
    let proposal = get_proposal(&registry, COLLECTION, &id).unwrap();
    assert_eq!(proposal.status, ProposalStatus::Approved);
    assert!(proposal.threshold_met);
    let vote = vote_on_proposal(&mut registry, COLLECTION, &id, principal(1), Vote::Yes, 6, no_evidence());
    assert_eq!(vote.unwrap_err().kind(), ErrorKind::InvalidProposalState);
}

#[test]
fn second_distinct_yes_vote_approves_under_a_threshold_of_two() {
    let admins = [principal(1), principal(2), principal(3)];
    let mut registry = registry_with(GovernanceModel::Multisig, &admins, 2, 0);
    let id = propose(&mut registry, ProposalType::UpdateQuorum { new_percentage: 10 }, 5);
    vote_on_proposal(&mut registry, COLLECTION, &id, admins[0], Vote::Yes, 6, no_evidence()).unwrap();
    assert_eq!(status(&registry, &id), ProposalStatus::Active);
    vote_on_proposal(&mut registry, COLLECTION, &id, admins[1], Vote::No, 7, no_evidence()).unwrap();
    assert_eq!(status(&registry, &id), ProposalStatus::Active);
    assert!(!get_proposal(&registry, COLLECTION, &id).unwrap().threshold_met);
    vote_on_proposal(&mut registry, COLLECTION, &id, admins[2], Vote::Yes, 8, no_evidence()).unwrap();
    assert_eq!(status(&registry, &id), ProposalStatus::Approved);
    assert!(get_proposal(&registry, COLLECTION, &id).unwrap().threshold_met);
}

#[test]
fn second_vote_of_a_principal_is_refused_and_changes_nothing() {
    let admins = [principal(1), principal(2), principal(3)];
    let mut registry = registry_with(GovernanceModel::Multisig, &admins, 3, 0);
    let id = propose(&mut registry, ProposalType::UpdateQuorum { new_percentage: 10 }, 5);
    vote_on_proposal(&mut registry, COLLECTION, &id, admins[0], Vote::No, 6, no_evidence()).unwrap();
    let again = vote_on_proposal(&mut registry, COLLECTION, &id, admins[0], Vote::Yes, 7, no_evidence());
    assert_eq!(again.unwrap_err().kind(), ErrorKind::InvalidOperation);
    let proposal = get_proposal(&registry, COLLECTION, &id).unwrap();
    assert_eq!(proposal.votes, vec![(admins[0], Vote::No)]);
    assert_eq!(proposal.status, ProposalStatus::Active);
}

#[test]
fn only_administrators_vote_under_administrator_governance() {
    let mut registry = registry_with(GovernanceModel::Multisig, &[principal(1)], 1, 0);
    let id = propose(&mut registry, ProposalType::UpdateQuorum { new_percentage: 10 }, 5);
    let r = vote_on_proposal(&mut registry, COLLECTION, &id, principal(9), Vote::Yes, 6, no_evidence());
    assert_eq!(r.unwrap_err().kind(), ErrorKind::NotAuthorized);
    assert!(get_proposal(&registry, COLLECTION, &id).unwrap().votes.is_empty());
}

#[test]
fn vote_on_a_missing_proposal_is_not_found() {
    let mut registry = registry_with(GovernanceModel::Multisig, &[principal(1)], 1, 0);
    let r = vote_on_proposal(&mut registry, COLLECTION, "prop_x", principal(1), Vote::Yes, 6, no_evidence());
    assert_eq!(r.unwrap_err().kind(), ErrorKind::NotFound);
    let r = vote_on_proposal(&mut registry, "col_x", "prop_x", principal(1), Vote::Yes, 6, no_evidence());
    assert_eq!(r.unwrap_err().kind(), ErrorKind::NotFound);
}

#[test]
fn vote_after_the_deadline_marks_the_proposal_expired() {
    let mut registry = registry_with(GovernanceModel::Multisig, &[principal(1)], 1, 0);
    let id = propose(&mut registry, ProposalType::UpdateQuorum { new_percentage: 10 }, 5);
    let late = 5 + PROPOSAL_DURATION_NANOS + 1;
    let r = vote_on_proposal(&mut registry, COLLECTION, &id, principal(1), Vote::Yes, late, no_evidence());
    assert_eq!(r.unwrap_err().kind(), ErrorKind::ProposalExpired);
    assert_eq!(status(&registry, &id), ProposalStatus::Expired);
    let r = vote_on_proposal(&mut registry, COLLECTION, &id, principal(1), Vote::Yes, late, no_evidence());
    assert_eq!(r.unwrap_err().kind(), ErrorKind::InvalidProposalState);
    assert_eq!(status(&registry, &id), ProposalStatus::Expired);
}

#[test]
fn vote_at_the_deadline_still_counts() {
    let mut registry = registry_with(GovernanceModel::Multisig, &[principal(1)], 1, 0);
    let id = propose(&mut registry, ProposalType::UpdateQuorum { new_percentage: 10 }, 5);
    let deadline = 5 + PROPOSAL_DURATION_NANOS;
    vote_on_proposal(&mut registry, COLLECTION, &id, principal(1), Vote::Yes, deadline, no_evidence())
        .unwrap();
    assert_eq!(status(&registry, &id), ProposalStatus::Approved);
}

#[test]
fn token_weighted_vote_records_the_balance_and_decides_by_share() {
    let mut registry = registry_with(GovernanceModel::TokenBased, &[principal(1)], 0, 51);
    let id = propose(&mut registry, ProposalType::UpdateQuorum { new_percentage: 10 }, 5);
    let holder = |balance: u128| VoteEvidence {
        balance: Some(balance),
        threshold: ThresholdEvidence::TotalSupply(1_000),
    };
    vote_on_proposal(&mut registry, COLLECTION, &id, principal(10), Vote::Yes, 6, holder(509)).unwrap();
    assert_eq!(status(&registry, &id), ProposalStatus::Active);
    vote_on_proposal(&mut registry, COLLECTION, &id, principal(11), Vote::No, 6, holder(400)).unwrap();
    assert_eq!(status(&registry, &id), ProposalStatus::Active);
    vote_on_proposal(&mut registry, COLLECTION, &id, principal(12), Vote::Yes, 6, holder(1)).unwrap();
    assert_eq!(status(&registry, &id), ProposalStatus::Approved);
    let proposal = get_proposal(&registry, COLLECTION, &id).unwrap();
    assert_eq!(
        proposal.token_votes,
        vec![(principal(10), 509), (principal(11), 400), (principal(12), 1)]
    );
}

#[test]
fn token_weighted_vote_needs_a_balance() {
    let mut registry = registry_with(GovernanceModel::TokenBased, &[principal(1)], 0, 51);
    let id = propose(&mut registry, ProposalType::UpdateQuorum { new_percentage: 10 }, 5);
    let broke = VoteEvidence { balance: Some(0), threshold: ThresholdEvidence::TotalSupply(1_000) };
    let r = vote_on_proposal(&mut registry, COLLECTION, &id, principal(10), Vote::Yes, 6, broke);
    assert_eq!(r.unwrap_err().kind(), ErrorKind::NotAuthorized);
    let r = vote_on_proposal(&mut registry, COLLECTION, &id, principal(10), Vote::Yes, 6, no_evidence());
    assert_eq!(r.unwrap_err().kind(), ErrorKind::InvalidArgument);
    let unknown_supply = VoteEvidence { balance: Some(5), threshold: ThresholdEvidence::Absent };
    let r = vote_on_proposal(&mut registry, COLLECTION, &id, principal(10), Vote::Yes, 6, unknown_supply);
    assert_eq!(r.unwrap_err().kind(), ErrorKind::InvalidArgument);
    assert!(get_proposal(&registry, COLLECTION, &id).unwrap().votes.is_empty());
}

#[test]
fn nobody_votes_under_external_governance() {
    let mut registry = registry_with(GovernanceModel::SnsIntegrated, &[principal(1)], 0, 0);
    let id = propose(&mut registry, ProposalType::UpdateQuorum { new_percentage: 10 }, 5);
    let r = vote_on_proposal(&mut registry, COLLECTION, &id, principal(1), Vote::Yes, 6, no_evidence());
    assert_eq!(r.unwrap_err().kind(), ErrorKind::InvalidOperation);
}

fn approved(registry: &mut Registry, kind: ProposalType) -> String {
    let id = propose(registry, kind, 5);
    vote_on_proposal(registry, COLLECTION, &id, principal(1), Vote::Yes, 6, no_evidence()).unwrap();
    assert_eq!(status(registry, &id), ProposalStatus::Approved);
    id
}

#[test]
fn executing_an_administrative_change_applies_it_and_commits() {
    let mut registry = registry_with(GovernanceModel::Multisig, &[principal(1)], 1, 0);
    let id = approved(&mut registry, ProposalType::AddAdmin { admin: principal(2) });
    let (result, calls) = run(&mut registry, &id, principal(1), 50, &[]);
    assert_eq!(result, Ok(()));
    assert!(calls.is_empty());
    let proposal = get_proposal(&registry, COLLECTION, &id).unwrap();
    assert_eq!(proposal.status, ProposalStatus::Executed);
    assert!(proposal.executed);
    assert_eq!(proposal.executed_at, Some(50));
    assert_eq!(proposal.executed_by, Some(principal(1)));
    let collection = get_collection(&registry, &COLLECTION.to_string()).unwrap();
    assert_eq!(collection.admins, vec![principal(1), principal(2)]);
    let (again, _) = run(&mut registry, &id, principal(1), 51, &[]);
    assert_eq!(again, Err(ErrorKind::InvalidProposalState));
    assert_eq!(get_collection(&registry, &COLLECTION.to_string()).unwrap().admins.len(), 2);
}

#[test]
fn removing_the_last_administrator_fails_on_its_precondition() {
    let mut registry = registry_with(GovernanceModel::Multisig, &[principal(1)], 1, 0);
    let id = approved(&mut registry, ProposalType::RemoveAdmin { admin: principal(1) });
    let (result, calls) = run(&mut registry, &id, principal(1), 50, &[]);
    assert_eq!(result, Err(ErrorKind::InvalidInput));
    assert!(calls.is_empty());
    assert_eq!(status(&registry, &id), ProposalStatus::Approved);
    assert_eq!(get_collection(&registry, &COLLECTION.to_string()).unwrap().admins, vec![principal(1)]);
}

#[test]
fn batch_embedding_stops_at_the_first_failure_and_rejects() {
    let mut registry = registry_with(GovernanceModel::Multisig, &[principal(1)], 1, 0);
    let documents = vec!["doc_a".to_string(), "doc_b".to_string(), "doc_c".to_string()];
    let id = approved(&mut registry, ProposalType::BatchEmbed { document_ids: documents });
    let (result, calls) = run(&mut registry, &id, principal(1), 50, &[2]);
    assert_eq!(result, Err(ErrorKind::BluebandError));
    assert_eq!(calls, vec!["embed doc_a".to_string(), "embed doc_b".to_string()]);
    assert_eq!(status(&registry, &id), ProposalStatus::Rejected);
    let (again, more) = run(&mut registry, &id, principal(1), 51, &[]);
    assert_eq!(again, Err(ErrorKind::InvalidProposalState));
    assert!(more.is_empty());
}

#[test]
fn batch_embedding_embeds_every_document_in_order() {
    let mut registry = registry_with(GovernanceModel::Multisig, &[principal(1)], 1, 0);
    let documents = vec!["doc_a".to_string(), "doc_b".to_string()];
    let id = approved(&mut registry, ProposalType::EmbedDocument { documents });
    let (result, calls) = run(&mut registry, &id, principal(1), 50, &[]);
    assert_eq!(result, Ok(()));
    assert_eq!(calls, vec!["embed doc_a".to_string(), "embed doc_b".to_string()]);
    assert_eq!(status(&registry, &id), ProposalStatus::Executed);
}

#[test]
fn failure_text_of_the_service_is_handed_on() {
    let mut registry = registry_with(GovernanceModel::Multisig, &[principal(1)], 1, 0);
    let id = approved(&mut registry, ProposalType::BatchEmbed { document_ids: vec!["d".to_string()] });
    let start = ExecutionProgress::new();
    let (p, a) = execute_proposal(&mut registry, COLLECTION, &id, principal(1), start, ServiceReply::Start, "", context(9));
    assert!(matches!(a, ExecutionAction::QueryRemoteBalance));
    let (p, a) = execute_proposal(&mut registry, COLLECTION, &id, principal(1), p, ServiceReply::RemoteBalance(u64::MAX), "", context(9));
    match a {
        ExecutionAction::EmbedDocument { collection_ref, document_id } => {
            assert_eq!(collection_ref, "");
            assert_eq!(document_id, "d");
        }
        other => panic!("unexpected {:?}", other),
    }
    let (_, a) = execute_proposal(&mut registry, COLLECTION, &id, principal(1), p, ServiceReply::Failed, "quota exceeded", context(9));
    match a {
        ExecutionAction::Done(Err(e)) => {
            assert_eq!(e.kind(), ErrorKind::BluebandError);
            assert_eq!(e.to_string(), "Blueband error: quota exceeded");
        }
        other => panic!("unexpected {:?}", other),
    }
}

#[test]
fn execution_checks_come_before_any_call_to_a_service() {
    let admins = [principal(1), principal(2)];
    let mut registry = registry_with(GovernanceModel::Multisig, &admins, 2, 0);
    let documents = vec!["doc_a".to_string()];
    let id = propose(&mut registry, ProposalType::BatchEmbed { document_ids: documents }, 5);
    let (not_approved, calls) = run(&mut registry, &id, admins[0], 50, &[]);
    assert_eq!(not_approved, Err(ErrorKind::InvalidProposalState));
    assert!(calls.is_empty());
    vote_on_proposal(&mut registry, COLLECTION, &id, admins[0], Vote::Yes, 6, no_evidence()).unwrap();
    vote_on_proposal(&mut registry, COLLECTION, &id, admins[1], Vote::Yes, 6, no_evidence()).unwrap();
    let (stranger, calls) = run(&mut registry, &id, principal(9), 50, &[]);
    assert_eq!(stranger, Err(ErrorKind::NotAuthorized));
    assert!(calls.is_empty());
    let (missing, calls) = run(&mut registry, "prop_x", admins[0], 50, &[]);
    assert_eq!(missing, Err(ErrorKind::NotFound));
    assert!(calls.is_empty());
    assert_eq!(status(&registry, &id), ProposalStatus::Approved);
}

#[test]
fn execution_without_resources_makes_no_call() {
    let mut registry = registry_with(GovernanceModel::Multisig, &[principal(1)], 1, 0);
    let id = approved(&mut registry, ProposalType::BatchEmbed { document_ids: vec!["d".to_string()] });
    let poor = ExecutionContext { now: 9, local_balance: 49_999_999 };
    let (p, a) = execute_proposal(&mut registry, COLLECTION, &id, principal(1), ExecutionProgress::new(), ServiceReply::Start, "", poor);
    assert!(matches!(a, ExecutionAction::QueryRemoteBalance));
    let (_, a) = execute_proposal(&mut registry, COLLECTION, &id, principal(1), p, ServiceReply::RemoteBalance(u64::MAX), "", poor);
    match a {
        ExecutionAction::Done(Err(e)) => assert_eq!(e.kind(), ErrorKind::InsufficientCycles),
        other => panic!("unexpected {:?}", other),
    }
    assert_eq!(status(&registry, &id), ProposalStatus::Approved);
    let rich = ExecutionContext { now: 9, local_balance: 50_000_000 };
    let (p, _) = execute_proposal(&mut registry, COLLECTION, &id, principal(1), ExecutionProgress::new(), ServiceReply::Start, "", rich);
    let (_, a) = execute_proposal(&mut registry, COLLECTION, &id, principal(1), p, ServiceReply::RemoteBalance(10_999_999), "", rich);
    match a {
        ExecutionAction::Done(Err(e)) => assert_eq!(e.kind(), ErrorKind::InsufficientCycles),
        other => panic!("unexpected {:?}", other),
    }
    let (p, _) = execute_proposal(&mut registry, COLLECTION, &id, principal(1), ExecutionProgress::new(), ServiceReply::Start, "", rich);
    let (_, a) = execute_proposal(&mut registry, COLLECTION, &id, principal(1), p, ServiceReply::RemoteBalance(11_000_000), "", rich);
    assert!(matches!(a, ExecutionAction::EmbedDocument { .. }));
}

#[test]
fn executing_an_expired_proposal_reports_expiry_every_time() {
    let mut registry = registry_with(GovernanceModel::Multisig, &[principal(1)], 1, 0);
    let id = approved(&mut registry, ProposalType::AddAdmin { admin: principal(2) });
    let late = 5 + PROPOSAL_DURATION_NANOS + 1;
    let (first, calls) = run(&mut registry, &id, principal(1), late, &[]);
    assert_eq!(first, Err(ErrorKind::ProposalExpired));
    assert!(calls.is_empty());
    let after_first = get_proposal(&registry, COLLECTION, &id).unwrap();
    assert_eq!(after_first.status, ProposalStatus::Expired);
    let (second, _) = run(&mut registry, &id, principal(1), late + 10, &[]);
    assert_eq!(second, Err(ErrorKind::ProposalExpired));
    let after_second = get_proposal(&registry, COLLECTION, &id).unwrap();
    assert_eq!(after_second.status, ProposalStatus::Expired);
    assert_eq!(after_second.expires_at, after_first.expires_at);
    assert_eq!(after_second.executed_at, None);
    assert_eq!(get_collection(&registry, &COLLECTION.to_string()).unwrap().admins.len(), 1);
}

#[test]
fn execution_asks_for_the_total_supply_under_token_governance() {
    let mut registry = registry_with(GovernanceModel::TokenBased, &[principal(1)], 0, 50);
    let id = propose(&mut registry, ProposalType::UpdateQuorum { new_percentage: 10 }, 5);
    let holder = VoteEvidence { balance: Some(600), threshold: ThresholdEvidence::TotalSupply(1_000) };
    vote_on_proposal(&mut registry, COLLECTION, &id, principal(10), Vote::Yes, 6, holder).unwrap();
    assert_eq!(status(&registry, &id), ProposalStatus::Approved);
    let (p, a) = execute_proposal(&mut registry, COLLECTION, &id, principal(1), ExecutionProgress::new(), ServiceReply::Start, "", context(9));
    match a {
        ExecutionAction::QueryTotalSupply { token } => assert_eq!(token, principal(200)),
        other => panic!("unexpected {:?}", other),
    }
    assert_eq!(p.stage, ExecutionStage::AwaitingTotalSupply);
    let mut grown = registry_with(GovernanceModel::TokenBased, &[principal(1)], 0, 50);
    let id2 = propose(&mut grown, ProposalType::UpdateQuorum { new_percentage: 10 }, 5);
    vote_on_proposal(&mut grown, COLLECTION, &id2, principal(10), Vote::Yes, 6, holder).unwrap();
    let (q, _) = execute_proposal(&mut grown, COLLECTION, &id2, principal(1), ExecutionProgress::new(), ServiceReply::Start, "", context(9));
    let (_, a) = execute_proposal(&mut grown, COLLECTION, &id2, principal(1), q, ServiceReply::TotalSupply(1_201), "", context(9));
    match a {
        ExecutionAction::Done(Err(e)) => assert_eq!(e.kind(), ErrorKind::ThresholdNotMet),
        other => panic!("unexpected {:?}", other),
    }
    assert_eq!(status(&grown, &id2), ProposalStatus::Approved);
    let (_, a) = execute_proposal(&mut registry, COLLECTION, &id, principal(1), p, ServiceReply::TotalSupply(1_200), "", context(9));
    assert!(matches!(a, ExecutionAction::Done(Ok(()))));
    assert_eq!(get_collection(&registry, &COLLECTION.to_string()).unwrap().quorum_threshold, 10);
}

#[test]
fn a_reply_that_answers_no_request_is_refused() {
    let mut registry = registry_with(GovernanceModel::Multisig, &[principal(1)], 1, 0);
    let id = approved(&mut registry, ProposalType::AddAdmin { admin: principal(2) });
    let (_, a) = execute_proposal(&mut registry, COLLECTION, &id, principal(1), ExecutionProgress::new(), ServiceReply::Embedded, "", context(9));
    match a {
        ExecutionAction::Done(Err(e)) => assert_eq!(e.kind(), ErrorKind::InvalidOperation),
        other => panic!("unexpected {:?}", other),
    }
    assert_eq!(status(&registry, &id), ProposalStatus::Approved);
}

#[test]
fn deleting_a_collection_by_proposal_asks_the_document_service_first() {
    let mut registry = registry_with(GovernanceModel::Multisig, &[principal(1)], 1, 0);
    let other = propose(&mut registry, ProposalType::UpdateQuorum { new_percentage: 10 }, 4);
    let id = create_proposal_with(&mut registry, COLLECTION, ProposalType::DeleteCollection, principal(1), "drop".to_string(), 5, 78).unwrap();
    vote_on_proposal(&mut registry, COLLECTION, &id, principal(1), Vote::Yes, 6, no_evidence()).unwrap();
    let (blocked, calls) = run(&mut registry, &id, principal(1), 50, &[]);
    assert_eq!(blocked, Err(ErrorKind::InvalidOperation));
    assert!(calls.is_empty());
    let late = 4 + PROPOSAL_DURATION_NANOS + 1;
    let r = vote_on_proposal(&mut registry, COLLECTION, &other, principal(1), Vote::Yes, late, no_evidence());
    assert_eq!(r.unwrap_err().kind(), ErrorKind::ProposalExpired);
    let (failed, calls) = run(&mut registry, &id, principal(1), 50, &[1]);
    assert_eq!(failed, Err(ErrorKind::BluebandError));
    assert_eq!(calls, vec!["delete".to_string()]);
    assert_eq!(status(&registry, &id), ProposalStatus::Rejected);
    assert!(get_collection(&registry, &COLLECTION.to_string()).is_ok());
}

#[test]
fn deleting_a_collection_by_proposal_removes_it() {
    let mut registry = registry_with(GovernanceModel::Multisig, &[principal(1)], 1, 0);
    let id = approved(&mut registry, ProposalType::DeleteCollection);
    let (result, calls) = run(&mut registry, &id, principal(1), 50, &[]);
    assert_eq!(calls, vec!["delete".to_string()]);
    assert_eq!(result, Ok(()));
    assert!(registry.collections.is_empty());
}

#[test]
fn deleting_a_collection_directly_takes_two_calls() {
    let mut registry = registry_with(GovernanceModel::Multisig, &[principal(1)], 1, 0);
    let stranger = delete_collection(&mut registry, COLLECTION, principal(9), RemoteDeletion::NotAsked, "");
    match stranger {
        DeletionStep::Done(Err(e)) => assert_eq!(e.kind(), ErrorKind::Unauthorized),
        other => panic!("unexpected {:?}", other),
    }
    let open = propose(&mut registry, ProposalType::UpdateQuorum { new_percentage: 10 }, 5);
    let busy = delete_collection(&mut registry, COLLECTION, principal(1), RemoteDeletion::NotAsked, "");
    match busy {
        DeletionStep::Done(Err(e)) => assert_eq!(e.kind(), ErrorKind::InvalidOperation),
        other => panic!("unexpected {:?}", other),
    }
    let late = 5 + PROPOSAL_DURATION_NANOS + 1;
    let r = vote_on_proposal(&mut registry, COLLECTION, &open, principal(1), Vote::Yes, late, no_evidence());
    assert_eq!(r.unwrap_err().kind(), ErrorKind::ProposalExpired);
    let first = delete_collection(&mut registry, COLLECTION, principal(1), RemoteDeletion::NotAsked, "");
    assert!(matches!(first, DeletionStep::CallRemote { .. }));
    assert_eq!(registry.collections.len(), 1);
    let failed = delete_collection(&mut registry, COLLECTION, principal(1), RemoteDeletion::Failed, "busy");
    match failed {
        DeletionStep::Done(Err(e)) => assert_eq!(e.to_string(), "Blueband error: busy"),
        other => panic!("unexpected {:?}", other),
    }
    assert_eq!(registry.collections.len(), 1);
    let second = delete_collection(&mut registry, COLLECTION, principal(1), RemoteDeletion::Deleted, "");
    assert!(matches!(second, DeletionStep::Done(Ok(()))));
    assert!(registry.collections.is_empty());
    let gone = delete_collection(&mut registry, COLLECTION, principal(1), RemoteDeletion::NotAsked, "");
    match gone {
        DeletionStep::Done(Err(e)) => assert_eq!(e.kind(), ErrorKind::NotFound),
        other => panic!("unexpected {:?}", other),
    }
}

#[test]
fn external_decision_is_taken_over_once_linked() {
    let mut registry = registry_with(GovernanceModel::SnsIntegrated, &[principal(1)], 0, 0);
    let id = propose(&mut registry, ProposalType::UpdateQuorum { new_percentage: 10 }, 5);
    let adopted = ThresholdEvidence::Decision(SnsProposalStatus::Adopted);
    sync_sns_proposal_status_and_update(&mut registry, COLLECTION, &id, adopted, 6).unwrap();
    assert_eq!(status(&registry, &id), ProposalStatus::Active);
    let stranger = link_sns_proposal_id(&mut registry, COLLECTION, &id, 42, principal(9));
    assert_eq!(stranger.unwrap_err().kind(), ErrorKind::NotAuthorized);
    link_sns_proposal_id(&mut registry, COLLECTION, &id, 42, principal(1)).unwrap();
    assert_eq!(get_proposal(&registry, COLLECTION, &id).unwrap().sns_proposal_id, Some(42));
    let open = ThresholdEvidence::Decision(SnsProposalStatus::Open);
    sync_sns_proposal_status_and_update(&mut registry, COLLECTION, &id, open, 6).unwrap();
    assert_eq!(status(&registry, &id), ProposalStatus::Active);
    let missing = sync_sns_proposal_status_and_update(&mut registry, COLLECTION, &id, ThresholdEvidence::Absent, 6);
    assert_eq!(missing.unwrap_err().kind(), ErrorKind::InvalidArgument);
    sync_sns_proposal_status_and_update(&mut registry, COLLECTION, &id, adopted, 6).unwrap();
    assert_eq!(status(&registry, &id), ProposalStatus::Approved);
    let (p, a) = execute_proposal(&mut registry, COLLECTION, &id, principal(1), ExecutionProgress::new(), ServiceReply::Start, "", context(9));
    match a {
        ExecutionAction::QueryDecision { service, reference } => {
            assert_eq!(service, principal(201));
            assert_eq!(reference, 42);
        }
        other => panic!("unexpected {:?}", other),
    }
    let (_, a) = execute_proposal(&mut registry, COLLECTION, &id, principal(1), p, ServiceReply::Failed, "unreachable", context(9));
    match a {
        ExecutionAction::Done(Err(e)) => assert_eq!(e.to_string(), "SNS error: unreachable"),
        other => panic!("unexpected {:?}", other),
    }
    let (result, _) = run(&mut registry, &id, principal(1), 50, &[]);
    assert_eq!(result, Ok(()));
    let relink = link_sns_proposal_id(&mut registry, COLLECTION, &id, 43, principal(1));
    assert_eq!(relink.unwrap_err().kind(), ErrorKind::InvalidProposalState);
}

#[test]
fn cleanup_removes_what_has_run_out_of_time() {
    let mut registry = registry_with(GovernanceModel::Multisig, &[principal(1)], 1, 0);
    let old = propose(&mut registry, ProposalType::UpdateQuorum { new_percentage: 10 }, 5);
    let new = create_proposal_with(&mut registry, COLLECTION, ProposalType::DeleteCollection, principal(1), "x".to_string(), 1_000, 1).unwrap();
    assert_eq!(list_active_proposals(&registry, COLLECTION).unwrap().len(), 2);
    let count = cleanup_expired_proposals(&mut registry, COLLECTION, 5 + PROPOSAL_DURATION_NANOS + 1).unwrap();
    assert_eq!(count, 1);
    assert_eq!(get_proposal(&registry, COLLECTION, &old).unwrap_err().kind(), ErrorKind::NotFound);
    assert_eq!(status(&registry, &new), ProposalStatus::Active);
    assert_eq!(cleanup_expired_proposals(&mut registry, COLLECTION, 0).unwrap(), 0);
    assert_eq!(cleanup_expired_proposals(&mut registry, "col_x", 0).unwrap_err().kind(), ErrorKind::NotFound);
}

#[test]
fn only_open_proposals_are_listed_as_active() {
    let mut registry = registry_with(GovernanceModel::Multisig, &[principal(1)], 1, 0);
    let done = approved(&mut registry, ProposalType::UpdateQuorum { new_percentage: 10 });
    run(&mut registry, &done, principal(1), 50, &[]).0.unwrap();
    let open = create_proposal_with(&mut registry, COLLECTION, ProposalType::DeleteCollection, principal(1), "x".to_string(), 1_000, 1).unwrap();
    let listed = list_active_proposals(&registry, COLLECTION).unwrap();
    assert_eq!(listed.len(), 1);
    assert_eq!(listed[0].id, open);
    assert_eq!(get_proposals(&registry, COLLECTION).unwrap().len(), 2);
    assert_eq!(can_execute_directly(&registry, &COLLECTION.to_string()).unwrap(), false);
}

#[test]
fn preconditions_of_each_kind_are_checked_before_anything_changes() {
    let admins = [principal(1), principal(2)];
    let mut registry = registry_with(GovernanceModel::Multisig, &admins, 1, 0);
    let cases = vec![
        (ProposalType::AddAdmin { admin: principal(2) }, ErrorKind::AlreadyExists),
        (ProposalType::RemoveAdmin { admin: principal(9) }, ErrorKind::NotFound),
        (ProposalType::ChangeThreshold { new_threshold: 0 }, ErrorKind::InvalidInput),
        (ProposalType::ChangeThreshold { new_threshold: 3 }, ErrorKind::InvalidInput),
        (ProposalType::UpdateQuorum { new_percentage: 101 }, ErrorKind::InvalidInput),
    ];
    for (n, (kind, expected)) in cases.into_iter().enumerate() {
        let id = create_proposal_with(&mut registry, COLLECTION, kind, principal(1), "x".to_string(), 5, n as u32).unwrap();
        vote_on_proposal(&mut registry, COLLECTION, &id, principal(1), Vote::Yes, 6, no_evidence()).unwrap();
        let (result, calls) = run(&mut registry, &id, principal(1), 50, &[]);
        assert_eq!(result, Err(expected));
        assert!(calls.is_empty());
        assert_eq!(status(&registry, &id), ProposalStatus::Approved);
    }
    let collection = get_collection(&registry, &COLLECTION.to_string()).unwrap();
    assert_eq!(collection.admins, admins.to_vec());
    assert_eq!((collection.threshold, collection.quorum_threshold), (1, 0));
}

#[test]
fn a_change_that_is_refused_while_it_is_made_rejects_the_proposal() {
    let mut registry = registry_with(GovernanceModel::Multisig, &[principal(1)], 1, 0);
    let mut config = config(GovernanceModel::Multisig, &[principal(1)], 1, 0);
    config.governance_token = Some("nonsense".to_string());
    let id = approved(&mut registry, ProposalType::UpdateCollection { config });
    let (result, calls) = run(&mut registry, &id, principal(1), 50, &[]);
    assert_eq!(result, Err(ErrorKind::InvalidInput));
    assert!(calls.is_empty());
    assert_eq!(status(&registry, &id), ProposalStatus::Rejected);
    assert_eq!(get_collection(&registry, &COLLECTION.to_string()).unwrap().name, "Library");
    let mut renamed = self::config(GovernanceModel::Multisig, &[principal(1), principal(2)], 2, 10);
    renamed.name = "Renamed".to_string();
    let id = create_proposal_with(&mut registry, COLLECTION, ProposalType::UpdateCollection { config: renamed }, principal(1), "x".to_string(), 5, 3).unwrap();
    vote_on_proposal(&mut registry, COLLECTION, &id, principal(1), Vote::Yes, 6, no_evidence()).unwrap();
    assert_eq!(run(&mut registry, &id, principal(1), 50, &[]).0, Ok(()));
    let after = get_collection(&registry, &COLLECTION.to_string()).unwrap();
    assert_eq!((after.name.as_str(), after.threshold, after.updated_at), ("Renamed", 2, 50));
    assert_eq!(after.admins, vec![principal(1), principal(2)]);
    assert_eq!(status(&registry, &id), ProposalStatus::Executed);
    let model = create_proposal_with(&mut registry, COLLECTION, ProposalType::ChangeGovernanceModel { model: GovernanceModel::Permissionless }, principal(1), "x".to_string(), 5, 4).unwrap();
    vote_on_proposal(&mut registry, COLLECTION, &model, principal(1), Vote::Yes, 6, no_evidence()).unwrap();
    assert_eq!(status(&registry, &model), ProposalStatus::Active);
    vote_on_proposal(&mut registry, COLLECTION, &model, principal(2), Vote::Yes, 6, no_evidence()).unwrap();
    assert_eq!(run(&mut registry, &model, principal(2), 50, &[]).0, Ok(()));
    assert_eq!(get_collection(&registry, &COLLECTION.to_string()).unwrap().governance_model, GovernanceModel::Permissionless);
}

#[test]
fn a_balance_service_that_fails_ends_the_execution_without_a_trace() {
    let mut registry = registry_with(GovernanceModel::TokenBased, &[principal(1)], 0, 50);
    let id = propose(&mut registry, ProposalType::UpdateQuorum { new_percentage: 10 }, 5);
    let holder = VoteEvidence { balance: Some(600), threshold: ThresholdEvidence::TotalSupply(1_000) };
    vote_on_proposal(&mut registry, COLLECTION, &id, principal(10), Vote::Yes, 6, holder).unwrap();
    let (p, _) = execute_proposal(&mut registry, COLLECTION, &id, principal(1), ExecutionProgress::new(), ServiceReply::Start, "", context(9));
    let (end, a) = execute_proposal(&mut registry, COLLECTION, &id, principal(1), p, ServiceReply::Failed, "ledger down", context(9));
    match a {
        ExecutionAction::Done(Err(e)) => assert_eq!(e.to_string(), "External call error: ledger down"),
        other => panic!("unexpected {:?}", other),
    }
    assert_eq!(end.stage, ExecutionStage::Finished);
    assert_eq!(status(&registry, &id), ProposalStatus::Approved);
    let (_, a) = execute_proposal(&mut registry, COLLECTION, &id, principal(1), end, ServiceReply::Start, "", context(9));
    match a {
        ExecutionAction::Done(Err(e)) => assert_eq!(e.kind(), ErrorKind::InvalidOperation),
        other => panic!("unexpected {:?}", other),
    }
}

#[test]
fn an_active_proposal_whose_time_has_run_out_expires_on_execution() {
    let admins = [principal(1), principal(2)];
    let mut registry = registry_with(GovernanceModel::Multisig, &admins, 2, 0);
    let id = propose(&mut registry, ProposalType::UpdateQuorum { new_percentage: 10 }, 5);
    let late = 5 + PROPOSAL_DURATION_NANOS + 1;
    let (stranger, _) = run(&mut registry, &id, principal(9), late, &[]);
    assert_eq!(stranger, Err(ErrorKind::NotAuthorized));
    assert_eq!(status(&registry, &id), ProposalStatus::Active);
    let (result, _) = run(&mut registry, &id, admins[0], late, &[]);
    assert_eq!(result, Err(ErrorKind::ProposalExpired));
    assert_eq!(status(&registry, &id), ProposalStatus::Expired);
}

/// Runs the adding of `wanted` documents to its end against a document service
/// that fails on the call whose number (from 1) is `failing`; returns the
/// result and the indices that were asked for.
fn add_all(
    registry: &mut Registry,
    caller: Principal,
    wanted: usize,
    failing: Option<usize>,
) -> (AddStep, Vec<usize>, Vec<String>) {
    let mut added = vec!["left over".to_string()];
    let mut reply = AddReply::Start;
    let mut asked = Vec::new();
    for _ in 0..100 {
        match add_documents_step(registry, COLLECTION, caller, wanted, &mut added, reply, 12_345_678, 77) {
            AddStep::AddDocument { index, collection_ref } => {
                assert_eq!(collection_ref, "");
                asked.push(index);
                reply = if failing == Some(asked.len()) {
                    AddReply::Failed("disk full".to_string())
                } else {
                    AddReply::Added(format!("doc_{}", index))
                };
            }
            done => return (done, asked, added),
        }
    }
    panic!("the adding did not end");
}

#[test]
fn added_documents_end_in_a_proposal_to_embed_them() {
    let mut registry = registry_with(GovernanceModel::Multisig, &[principal(1)], 1, 0);
    let (step, asked, added) = add_all(&mut registry, principal(1), 3, None);
    assert_eq!(asked, vec![0, 1, 2]);
    assert_eq!(added, vec!["doc_0".to_string(), "doc_1".to_string(), "doc_2".to_string()]);
    let told = match step {
        AddStep::Done(Ok(told)) => told,
        other => panic!("{:?}", other),
    };
    assert_eq!(told.document_ids, added);
    assert_eq!(told.action, DocumentAction::ProposalCreated);
    let id = told.proposal_id.unwrap();
    assert_eq!(id, "prop_col_1_5678_004d");
    assert_eq!(
        told.message,
        "Successfully added 3 documents. Proposal prop_col_1_5678_004d created for multisig governance approval"
    );
    let stored = get_proposal(&registry, COLLECTION, &id).unwrap();
    assert!(matches!(&stored.proposal_type, ProposalType::BatchEmbed { document_ids } if *document_ids == added));
    assert_eq!(stored.status, ProposalStatus::Active);
    assert_eq!(stored.creator, principal(1));
    assert_eq!(
        stored.description,
        "Embed 3 extracted documents into the collection. Documents: [doc_0, doc_1, doc_2]"
    );
    assert!(!stored.executed);
    let (again, _, _) = add_all(&mut registry, principal(1), 1, None);
    assert!(matches!(again, AddStep::Done(Err(ref e)) if e.kind() == ErrorKind::AlreadyExists));
    assert_eq!(get_proposals(&registry, COLLECTION).unwrap().len(), 1);
}

#[test]
fn adding_documents_stops_at_the_first_failure() {
    let mut registry = registry_with(GovernanceModel::Multisig, &[principal(1)], 1, 0);
    let (step, asked, added) = add_all(&mut registry, principal(1), 3, Some(2));
    assert_eq!(asked, vec![0, 1]);
    assert_eq!(added, vec!["doc_0".to_string()]);
    match step {
        AddStep::Done(Err(e)) => assert_eq!(e.to_string(), "Blueband error: disk full"),
        other => panic!("{:?}", other),
    }
    assert!(get_proposals(&registry, COLLECTION).unwrap().is_empty());
}

#[test]
fn adding_documents_is_for_administrators_with_documents() {
    let mut registry = registry_with(GovernanceModel::Multisig, &[principal(1)], 1, 0);
    let (stranger, asked, _) = add_all(&mut registry, principal(9), 2, None);
    assert!(matches!(stranger, AddStep::Done(Err(ref e)) if e.kind() == ErrorKind::NotAuthorized));
    assert!(asked.is_empty());
    let (empty, asked, _) = add_all(&mut registry, principal(1), 0, None);
    assert!(matches!(empty, AddStep::Done(Err(ref e)) if e.to_string() == "Invalid input: No documents to add"));
    assert!(asked.is_empty());
    let mut nothing = Registry::new();
    let (missing, asked, _) = add_all(&mut nothing, principal(1), 2, None);
    assert!(matches!(missing, AddStep::Done(Err(ref e)) if e.kind() == ErrorKind::NotFound));
    assert!(asked.is_empty());
    assert!(get_proposals(&registry, COLLECTION).unwrap().is_empty());
    let mut added = vec!["doc_0".to_string()];
    registry.collections[0].admins.clear();
    let lost = add_documents_step(&mut registry, COLLECTION, principal(1), 2, &mut added, AddReply::Added("doc_1".to_string()), 1, 1);
    assert!(matches!(lost, AddStep::Done(Err(ref e)) if e.kind() == ErrorKind::NotAuthorized));
    assert_eq!(added, vec!["doc_0".to_string()]);
}

#[test]
fn only_an_open_proposal_under_token_weight_needs_the_balance() {
    let mut registry = registry_with(GovernanceModel::TokenBased, &[principal(1)], 51, 51);
    let id = propose(&mut registry, ProposalType::UpdateQuorum { new_percentage: 10 }, 5);
    assert!(matches!(vote_needs(&registry, COLLECTION, &id, 6), VoteNeeds::Balance { token } if token == principal(200)));
    assert!(matches!(vote_needs(&registry, COLLECTION, &id, 5 + PROPOSAL_DURATION_NANOS), VoteNeeds::Balance { .. }));
    assert!(matches!(vote_needs(&registry, COLLECTION, &id, 5 + PROPOSAL_DURATION_NANOS + 1), VoteNeeds::Nothing));
    assert!(matches!(vote_needs(&registry, COLLECTION, "prop_none", 6), VoteNeeds::Nothing));
    assert!(matches!(vote_needs(&registry, "col_none", &id, 6), VoteNeeds::Nothing));
    let evidence = VoteEvidence { balance: Some(600), threshold: ThresholdEvidence::TotalSupply(1_000) };
    vote_on_proposal(&mut registry, COLLECTION, &id, principal(3), Vote::Yes, 6, evidence).unwrap();
    assert_eq!(status(&registry, &id), ProposalStatus::Approved);
    assert!(matches!(vote_needs(&registry, COLLECTION, &id, 7), VoteNeeds::Nothing));
    let closed = vote_on_proposal(&mut registry, COLLECTION, &id, principal(4), Vote::Yes, 7, no_evidence());
    assert_eq!(closed.unwrap_err().kind(), ErrorKind::InvalidProposalState);
    let mut by_count = registry_with(GovernanceModel::Multisig, &[principal(1), principal(2)], 2, 0);
    let other = propose(&mut by_count, ProposalType::UpdateQuorum { new_percentage: 10 }, 5);
    assert!(matches!(vote_needs(&by_count, COLLECTION, &other, 6), VoteNeeds::Nothing));
}

#[test]
fn creating_a_proposal_in_a_missing_collection_reports_it_as_not_found() {
    let mut registry = registry_with(GovernanceModel::Multisig, &[principal(1)], 1, 0);
    let missing = create_proposal(&mut registry, "col_none", ProposalType::DeleteCollection, principal(1), "d".to_string(), 5);
    assert_eq!(missing.unwrap_err().to_string(), "Not found: Collection col_none not found");
    assert!(get_proposals(&registry, COLLECTION).unwrap().is_empty());
    let id = create_proposal(&mut registry, COLLECTION, ProposalType::DeleteCollection, principal(1), "d".to_string(), 5).unwrap();
    assert!(id.starts_with("prop_col_1_5_"));
    assert_eq!(get_proposal(&registry, COLLECTION, &id).unwrap().status, ProposalStatus::Active);
}

#[test]
fn failed_preconditions_say_which_one_failed() {
    let admins = [principal(1), principal(2)];
    let mut registry = registry_with(GovernanceModel::Multisig, &admins, 1, 0);
    let cases = vec![
        (ProposalType::AddAdmin { admin: principal(2) }, "Already exists: Admin already exists"),
        (ProposalType::RemoveAdmin { admin: principal(9) }, "Not found: Admin not found"),
        (ProposalType::ChangeThreshold { new_threshold: 0 }, "Invalid input: Invalid threshold: must be between 1 and 2"),
        (ProposalType::ChangeThreshold { new_threshold: 3 }, "Invalid input: Invalid threshold: must be between 1 and 2"),
        (ProposalType::UpdateQuorum { new_percentage: 101 }, "Invalid input: Quorum percentage cannot exceed 100"),
    ];
    for (n, (kind, expected)) in cases.into_iter().enumerate() {
        let id = create_proposal_with(&mut registry, COLLECTION, kind, principal(1), "x".to_string(), 5, n as u32).unwrap();
        vote_on_proposal(&mut registry, COLLECTION, &id, principal(1), Vote::Yes, 6, no_evidence()).unwrap();
        let collection = get_collection(&registry, &COLLECTION.to_string()).unwrap();
        let proposal = get_proposal(&registry, COLLECTION, &id).unwrap();
        assert_eq!(check_preconditions(&collection, &proposal).unwrap_err().to_string(), expected);
        let (_, action) = execute_proposal(
            &mut registry,
            COLLECTION,
            &id,
            principal(1),
            ExecutionProgress::new(),
            ServiceReply::Start,
            "",
            context(50),
        );
        assert!(matches!(action, ExecutionAction::Done(Err(ref e)) if e.to_string() == expected));
    }
    let mut alone = registry_with(GovernanceModel::Multisig, &[principal(1)], 1, 0);
    let id = approved(&mut alone, ProposalType::RemoveAdmin { admin: principal(1) });
    let (_, action) = execute_proposal(
        &mut alone,
        COLLECTION,
        &id,
        principal(1),
        ExecutionProgress::new(),
        ServiceReply::Start,
        "",
        context(50),
    );
    assert!(matches!(action, ExecutionAction::Done(Err(ref e)) if e.to_string() == "Invalid input: Cannot remove the last admin"));
    let stored = get_proposal(&alone, COLLECTION, &id).unwrap();
    assert_eq!((stored.status, stored.executed, stored.executed_by, stored.executed_at), (ProposalStatus::Approved, false, None, None));
}

#[test]
fn an_executed_proposal_names_its_executor_and_the_time() {
    let mut registry = registry_with(GovernanceModel::Multisig, &[principal(1)], 1, 0);
    let id = approved(&mut registry, ProposalType::UpdateQuorum { new_percentage: 40 });
    let (result, _) = run(&mut registry, &id, principal(1), 50, &[]);
    assert_eq!(result, Ok(()));
    let stored = get_proposal(&registry, COLLECTION, &id).unwrap();
    assert_eq!(
        (stored.status, stored.executed, stored.executed_by, stored.executed_at),
        (ProposalStatus::Executed, true, Some(principal(1)), Some(50))
    );
}
