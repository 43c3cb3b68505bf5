//! The rules of the service's entry points: who may call them, and what
//! they put together before and after the work of the other modules.

use vstd::prelude::*;

use crate::extractor::types::{
    AddDocumentsResult, DocumentAction, ExtractionStatus,
};
use crate::extractor::{progress_of, without_progress, Extractor};
use crate::governance::{create_proposal_with, new_proposal, proposal_id_text};
use crate::identity::principal_text;

use crate::operations::{applied, execute_update_collection};
use crate::scan::joined;
use crate::storage::{
    collection_not_found, create_collection, create_collection_failure, created_collection,
    parse_optional_principal, parse_principals, parsed_optional, parsed_principals, Registry,
    RegistryView,
};
use crate::text::{
    chars_of, concat2, concat3, decimal, decimal_text, hex4, hex4_text, last_four,
    last_four_digits, text_of,
};
use crate::types::{
    clone_strings, failure, ClanopediaError, ClanopediaResult, CollectionConfig,
    CollectionConfigView, CollectionId, CollectionView, ErrorKind, GovernanceModel, Principal,
    ProposalType, ProposalTypeView,
};

verus! {

/// Whether `user` administers the collection called `collection_id`; nobody
/// administers a collection that is not there.
pub fn is_admin(registry: &Registry, collection_id: &str, user: Principal) -> (r: bool)
    ensures
        r == match registry@.collection(collection_id@) {
            Some(c) => c.is_admin(user),
            None => false,
        },
{
    match registry.find(collection_id) {
        Some(ci) => registry.collections[ci].is_admin(user),
        None => false,
    }
}

/// Lets `caller` pass where it administers the collection called `collection_id`.
pub fn authorize_admin(registry: &Registry, collection_id: &str, caller: Principal) -> (r:
    ClanopediaResult<()>)
    ensures
        failure(r) == match registry@.collection(collection_id@) {
            None => Some(ErrorKind::NotFound),
            Some(c) => if c.is_admin(caller) {
                None
            } else {
                Some(ErrorKind::NotAuthorized)
            },
        },
{
    match registry.find(collection_id) {
        None => Err(collection_not_found(collection_id)),
        Some(ci) => if registry.collections[ci].is_admin(caller) {
            Ok(())
        } else {
            Err(ClanopediaError::NotAuthorized)
        },
    }
}

/// The first eight characters of `s`; all of `s` where it has fewer.
pub open spec fn first_eight(s: Seq<char>) -> Seq<char> {
    if s.len() <= 8 {
        s
    } else {
        s.take(8)
    }
}

/// The id given to a collection created by `caller` at time `now` with the
/// random number `random_number`: the word "col", the first eight characters
/// of the caller's textual form, the last four digits of the time, and the
/// random number reduced modulo 65535 as four digits in base sixteen, joined
/// by underscores.
pub open spec fn collection_id_text(caller: Principal, now: u64, random_number: u32) -> Seq<char> {
    "col_"@ + first_eight(principal_text(caller@)) + "_"@ + last_four(decimal(now as nat)) + "_"@
        + hex4((random_number % 0xFFFF) as nat)
}

/// The id for a collection created by `caller` at time `now`.
pub fn new_collection_id(caller: &Principal, now: u64, random_number: u32) -> (id: String)
    ensures
        id@ == collection_id_text(*caller, now, random_number),
{
    let text = caller.to_text();
    let chars = chars_of(text.as_str());
    let n = if chars.len() <= 8 {
        chars.len()
    } else {
        8
    };
    let short = text_of(&chars, 0, n);
    proof {
        assert(chars@.subrange(0, n as int) =~= first_eight(chars@));
    }
    let tail = last_four_digits(now);
    let hex = hex4_text((random_number % 0xFFFF) as u16);
    let mut id = concat2("col_", short.as_str());
    id.append("_");
    id.append(tail.as_str());
    id.append("_");
    id.append(hex.as_str());
    id
}

/// The configuration that a collection is stored with when `caller` creates
/// it with `config`: where an administrator's text names no identity, or no
/// administrator is given, the caller alone administers the collection; the
/// governance token is written in the form in which identities are printed.
/// `None` where the governance token names no identity.
pub open spec fn prepared_config(config: CollectionConfigView, caller: Principal) -> Option<
    CollectionConfigView,
> {
    match parsed_optional(config.governance_token) {
        Err(_) => None,
        Ok(token) => Some(
            CollectionConfigView {
                admins: match parsed_principals(config.admins) {
                    Some(admins) => if admins.len() == 0 {
                        seq![caller_text(caller)]
                    } else {
                        config.admins
                    },
                    None => seq![caller_text(caller)],
                },
                governance_token: match token {
                    Some(t) => Some(caller_text(t)),
                    None => None,
                },
                ..config
            },
        ),
    }
}

/// The textual form of an identity.
pub open spec fn caller_text(p: Principal) -> Seq<char> {
    principal_text(p@)
}

/// Prepares the configuration that a collection is stored with.
pub fn prepare_config(config: CollectionConfig, caller: &Principal) -> (r: ClanopediaResult<
    CollectionConfig,
>)
    ensures
        match r {
            Ok(prepared) => prepared_config(config@, *caller) == Some(prepared@),
            Err(e) => prepared_config(config@, *caller) is None && e.spec_kind()
                == ErrorKind::InvalidInput,
        },
{
    let token = match parse_optional_principal(&config.governance_token) {
        Ok(token) => token,
        Err(_) => {
            return Err(
                ClanopediaError::InvalidInput(String::from_str("Invalid governance token principal")),
            );
        },
    };
    let use_caller = match parse_principals(&config.admins) {
        Some(admins) => admins.len() == 0,
        None => true,
    };
    let mut prepared = config;
    if use_caller {
        let mut only: Vec<String> = Vec::new();
        only.push(caller.to_text());
        assert(only.deep_view() =~= seq![caller_text(*caller)]);
        prepared.admins = only;
    }
    prepared.governance_token = match token {
        Some(t) => Some(t.to_text()),
        None => None,
    };
    Ok(prepared)
}

/// Reconfigures the collection called `collection_id` on behalf of `caller`,
/// who must administer it.
pub fn update_collection(
    registry: &mut Registry,
    collection_id: &str,
    config: &CollectionConfig,
    caller: Principal,
    now: u64,
) -> (r: ClanopediaResult<()>)
    ensures
        match old(registry)@.collection(collection_id@) {
            None => failure(r) == Some(ErrorKind::NotFound) && final(registry)@ == old(registry)@,
            Some(c) => if !c.is_admin(caller) {
                failure(r) == Some(ErrorKind::NotAuthorized) && final(registry)@ == old(registry)@
            } else {
                applied(
                    old(registry)@,
                    final(registry)@,
                    failure(r),
                    collection_id@,
                    |c: CollectionView| crate::operations::update_collection(c, config@, now),
                )
            },
        },
{
    match authorize_admin(registry, collection_id, caller) {
        Err(e) => {
            return Err(e);
        },
        Ok(_) => {},
    }
    execute_update_collection(registry, collection_id, config, now)
}

/// Forgets the record of an extraction on behalf of `caller`, who must
/// administer the collection; only the record of an extraction that is
/// complete or has failed can be forgotten.
pub fn cleanup_extraction_progress_endpoint(
    registry: &Registry,
    extractor: &mut Extractor,
    caller: Principal,
    collection_id: &str,
    url: &str,
) -> (r: ClanopediaResult<()>)
    ensures
        failure(r) == match registry@.collection(collection_id@) {
            None => Some(ErrorKind::NotFound),
            Some(c) => if !c.is_admin(caller) {
                Some(ErrorKind::NotAuthorized)
            } else {
                match progress_of(old(extractor)@, collection_id@, url@) {
                    None => Some(ErrorKind::InvalidInput),
                    Some(p) => if p.status.is_over() {
                        None
                    } else {
                        Some(ErrorKind::InvalidOperation)
                    },
                }
            },
        },
        r is Err ==> final(extractor)@ == old(extractor)@,
        r is Ok ==> final(extractor)@ == without_progress(old(extractor)@, collection_id@, url@),
{
    match authorize_admin(registry, collection_id, caller) {
        Err(e) => {
            return Err(e);
        },
        Ok(_) => {},
    }
    match extractor.get_progress(collection_id, url) {
        Some(progress) => match progress.status {
            ExtractionStatus::Completed | ExtractionStatus::Failed(_) => {
                extractor.remove_progress(collection_id, url);
                Ok(())
            },
            _ => Err(
                ClanopediaError::InvalidOperation(
                    String::from_str("Cannot cleanup active or paused extractions"),
                ),
            ),
        },
        None => Err(
            ClanopediaError::InvalidInput(
                String::from_str("No extraction found for this URL and collection"),
            ),
        ),
    }
}

/// The word for a rule of decision in messages.
pub fn governance_type(model: GovernanceModel) -> (word: &'static str)
    ensures
        word@ == match model {
            GovernanceModel::Permissionless => "permissionless"@,
            GovernanceModel::Multisig => "multisig"@,
            GovernanceModel::TokenBased => "token-based"@,
            GovernanceModel::SnsIntegrated => "SNS-integrated"@,
        },
{
    match model {
        GovernanceModel::Permissionless => "permissionless",
        GovernanceModel::Multisig => "multisig",
        GovernanceModel::TokenBased => "token-based",
        GovernanceModel::SnsIntegrated => "SNS-integrated",
    }
}

/// The first three of `ids`, with a comma and a blank between each two.
pub open spec fn first_three(ids: Seq<Seq<char>>) -> Seq<char> {
    if ids.len() == 0 {
        Seq::empty()
    } else if ids.len() == 1 {
        ids[0]
    } else if ids.len() == 2 {
        ids[0] + ", "@ + ids[1]
    } else {
        ids[0] + ", "@ + ids[1] + ", "@ + ids[2]
    }
}

/// The description of the proposal that embeds the documents `document_ids`.
pub fn embed_description(document_ids: &Vec<String>) -> (s: String)
    ensures
        s@ == "Embed "@ + decimal(document_ids.len() as nat)
            + " extracted documents into the collection. Documents: ["@ + first_three(
            document_ids.deep_view(),
        ) + "]"@,
{
    let count = decimal_text(document_ids.len() as u128);
    let mut s = concat3(
        "Embed ",
        count.as_str(),
        " extracted documents into the collection. Documents: [",
    );
    let ghost head = s@;
    let ghost ids = document_ids.deep_view();
    if document_ids.len() >= 1 {
        assert(ids[0] == document_ids[0]@);
        s.append(document_ids[0].as_str());
    }
    if document_ids.len() >= 2 {
        assert(ids[1] == document_ids[1]@);
        s.append(", ");
        s.append(document_ids[1].as_str());
    }
    if document_ids.len() >= 3 {
        assert(ids[2] == document_ids[2]@);
        s.append(", ");
        s.append(document_ids[2].as_str());
    }
    assert(s@ =~= head + first_three(ids));
    s.append("]");
    s
}

/// What is told to the caller who handed in documents for which a proposal
/// was created.
pub fn add_extracted_documents(
    document_ids: Vec<String>,
    proposal_id: String,
    model: GovernanceModel,
) -> (r: AddDocumentsResult)
    ensures
        r.document_ids == document_ids,
        r.proposal_id == Some(proposal_id),
        r.action == DocumentAction::ProposalCreated,
        r.message@ == "Successfully added "@ + decimal(document_ids.len() as nat)
            + " documents. Proposal "@ + proposal_id@ + " created for "@ + match model {
            GovernanceModel::Permissionless => "permissionless"@,
            GovernanceModel::Multisig => "multisig"@,
            GovernanceModel::TokenBased => "token-based"@,
            GovernanceModel::SnsIntegrated => "SNS-integrated"@,
        } + " governance approval"@,
{
    let count = decimal_text(document_ids.len() as u128);
    let mut message = concat3("Successfully added ", count.as_str(), " documents. Proposal ");
    message.append(proposal_id.as_str());
    message.append(" created for ");
    message.append(governance_type(model));
    message.append(" governance approval");
    AddDocumentsResult {
        document_ids,
        proposal_id: Some(proposal_id),
        action: DocumentAction::ProposalCreated,
        message,
    }
}

/// The answer to what the last step of adding documents asked for.
#[derive(Debug)]
pub enum AddReply {
    /// Nothing was asked yet: the adding begins.
    Start,
    /// The document service has taken the document and calls it by this id.
    Added(String),
    /// The document service has failed; the text says how.
    Failed(String),
}

pub enum AddReplyView {
    Start,
    Added(Seq<char>),
    Failed(Seq<char>),
}

impl View for AddReply {
    type V = AddReplyView;

    open spec fn view(&self) -> AddReplyView {
        match self {
            AddReply::Start => AddReplyView::Start,
            AddReply::Added(id) => AddReplyView::Added(id@),
            AddReply::Failed(why) => AddReplyView::Failed(why@),
        }
    }
}

/// What adding documents asks its caller to do.
#[derive(Debug)]
pub enum AddStep {
    /// Hand the document at `index` to the document service, for its
    /// collection `collection_ref`, and call again with its answer.
    AddDocument { index: usize, collection_ref: String },
    /// Stop: the adding has ended with this result.
    Done(ClanopediaResult<AddDocumentsResult>),
}

/// What is told of documents that were added.
pub struct AddedView {
    pub document_ids: Seq<Seq<char>>,
    pub proposal_id: Option<Seq<char>>,
    pub action: DocumentAction,
    pub message: Seq<char>,
}

pub enum AddStepView {
    AddDocument { index: usize, collection_ref: Seq<char> },
    Done(Result<AddedView, ErrorKind>),
}

impl View for AddStep {
    type V = AddStepView;

    open spec fn view(&self) -> AddStepView {
        match self {
            AddStep::AddDocument { index, collection_ref } => AddStepView::AddDocument {
                index: *index,
                collection_ref: collection_ref@,
            },
            AddStep::Done(Ok(told)) => AddStepView::Done(
                Ok(
                    AddedView {
                        document_ids: told.document_ids.deep_view(),
                        proposal_id: told.proposal_id.deep_view(),
                        action: told.action,
                        message: told.message@,
                    },
                ),
            ),
            AddStep::Done(Err(e)) => AddStepView::Done(Err(e.spec_kind())),
        }
    }
}

/// The description of the proposal that embeds the documents `ids`.
pub open spec fn embed_description_text(ids: Seq<Seq<char>>) -> Seq<char> {
    "Embed "@ + decimal(ids.len()) + " extracted documents into the collection. Documents: ["@
        + first_three(ids) + "]"@
}

/// What is told to the caller whose documents `ids` wait for the proposal
/// called `proposal_id`, under the rule of decision `model`.
pub open spec fn added_message(ids: Seq<Seq<char>>, proposal_id: Seq<char>, model: GovernanceModel) -> Seq<
    char,
> {
    "Successfully added "@ + decimal(ids.len()) + " documents. Proposal "@ + proposal_id
        + " created for "@ + match model {
        GovernanceModel::Permissionless => "permissionless"@,
        GovernanceModel::Multisig => "multisig"@,
        GovernanceModel::TokenBased => "token-based"@,
        GovernanceModel::SnsIntegrated => "SNS-integrated"@,
    } + " governance approval"@
}

/// How a step of adding documents leaves the registry and the list of the
/// ids given so far, and what it asks for.
pub struct AddOutcome {
    pub registry: RegistryView,
    pub added: Seq<Seq<char>>,
    pub step: AddStepView,
}

/// One step of adding `wanted` documents to the collection called
/// `collection_id` on behalf of `caller`, when the ids in `added` were given
/// so far and `reply` answers the last request.
///
/// Each step reads the records again. A missing collection, a caller who does
/// not administer it, and an empty list of documents end the adding and write
/// nothing. So does a failure of the document service: no further document is
/// handed over. The id of a document that was taken joins the list. While
/// documents are left, the next one is asked to be handed over. Once all are
/// taken, a proposal to embed exactly the documents of the list, in the order
/// in which they were taken, is created in the name of the caller; no
/// document is embedded on the way.
pub open spec fn add_documents_outcome(
    reg: RegistryView,
    collection_id: Seq<char>,
    caller: Principal,
    wanted: usize,
    added: Seq<Seq<char>>,
    reply: AddReplyView,
    now: u64,
    random_number: u32,
) -> AddOutcome {
    match reg.collection(collection_id) {
        None => AddOutcome {
            registry: reg,
            added,
            step: AddStepView::Done(Err(ErrorKind::NotFound)),
        },
        Some(c) => if !c.is_admin(caller) {
            AddOutcome { registry: reg, added, step: AddStepView::Done(Err(ErrorKind::NotAuthorized)) }
        } else if wanted == 0 {
            AddOutcome { registry: reg, added, step: AddStepView::Done(Err(ErrorKind::InvalidInput)) }
        } else if reply is Failed {
            AddOutcome { registry: reg, added, step: AddStepView::Done(Err(ErrorKind::BluebandError)) }
        } else {
            let ids = match reply {
                AddReplyView::Added(id) => added.push(id),
                _ => Seq::empty(),
            };
            let id = proposal_id_text(collection_id, now, random_number);
            if ids.len() < wanted {
                AddOutcome {
                    registry: reg,
                    added: ids,
                    step: AddStepView::AddDocument {
                        index: ids.len() as usize,
                        collection_ref: c.blueband_collection_id,
                    },
                }
            } else if c.proposal(id) is Some {
                AddOutcome {
                    registry: reg,
                    added: ids,
                    step: AddStepView::Done(Err(ErrorKind::AlreadyExists)),
                }
            } else {
                AddOutcome {
                    registry: reg.put_proposal(
                        collection_id,
                        new_proposal(
                            c,
                            id,
                            collection_id,
                            ProposalTypeView::BatchEmbed { document_ids: ids },
                            caller,
                            embed_description_text(ids),
                            now,
                        ),
                    ),
                    added: ids,
                    step: AddStepView::Done(
                        Ok(
                            AddedView {
                                document_ids: ids,
                                proposal_id: Some(id),
                                action: DocumentAction::ProposalCreated,
                                message: added_message(ids, id, c.governance_model),
                            },
                        ),
                    ),
                }
            }
        },
    }
}

/// One step of adding `wanted` documents to the collection called
/// `collection_id` on behalf of `caller`. `added` holds the ids that the
/// document service has given so far, `reply` its answer to the last request;
/// the proposal that is created at the end gets its id from `now` and
/// `random_number`. A failure is reported with the text of the document
/// service.
pub fn add_documents_step(
    registry: &mut Registry,
    collection_id: &str,
    caller: Principal,
    wanted: usize,
    added: &mut Vec<String>,
    reply: AddReply,
    now: u64,
    random_number: u32,
) -> (step: AddStep)
    ensures
        ({
            let outcome = add_documents_outcome(
                old(registry)@,
                collection_id@,
                caller,
                wanted,
                old(added).deep_view(),
                reply@,
                now,
                random_number,
            );
            &&& final(registry)@ == outcome.registry
            &&& final(added).deep_view() == outcome.added
            &&& step@ == outcome.step
        }),
        step matches AddStep::Done(Err(e)) ==> (e.spec_kind() == ErrorKind::BluebandError ==> (
        reply matches AddReply::Failed(why) && e.spec_message() == why@)),
{
    let ci = match registry.find(collection_id) {
        Some(ci) => ci,
        None => {
            return AddStep::Done(Err(collection_not_found(collection_id)));
        },
    };
    if !registry.collections[ci].is_admin(caller) {
        return AddStep::Done(Err(ClanopediaError::NotAuthorized));
    }
    if wanted == 0 {
        return AddStep::Done(
            Err(ClanopediaError::InvalidInput(String::from_str("No documents to add"))),
        );
    }
    let ghost before = added.deep_view();
    match reply {
        AddReply::Failed(why) => {
            return AddStep::Done(Err(ClanopediaError::BluebandError(why)));
        },
        AddReply::Added(id) => {
            added.push(id);
            assert(added.deep_view() =~= before.push(id@));
        },
        AddReply::Start => {
            added.clear();
            assert(added.deep_view() =~= Seq::<Seq<char>>::empty());
        },
    }
    if added.len() < wanted {
        let collection_ref = registry.collections[ci].blueband_collection_id.clone();
        return AddStep::AddDocument { index: added.len(), collection_ref };
    }
    let model = registry.collections[ci].governance_model;
    let description = embed_description(added);
    let document_ids = clone_strings(added);
    let told_ids = clone_strings(added);
    let proposal_type = ProposalType::BatchEmbed { document_ids };
    match create_proposal_with(
        registry,
        collection_id,
        proposal_type,
        caller,
        description,
        now,
        random_number,
    ) {
        Ok(proposal_id) => AddStep::Done(Ok(add_extracted_documents(told_ids, proposal_id, model))),
        Err(e) => AddStep::Done(Err(e)),
    }
}

/// Where adding documents ends in success, every document that was wanted was
/// taken by the document service, and the proposal that the caller is told of
/// is stored in the collection: it is in its first status, was created by the
/// caller, and asks for embedding exactly the documents that the caller is
/// told of.
pub proof fn lemma_added_documents_are_proposed(
    reg: RegistryView,
    collection_id: Seq<char>,
    caller: Principal,
    wanted: usize,
    added: Seq<Seq<char>>,
    reply: AddReplyView,
    now: u64,
    random_number: u32,
)
    requires
        add_documents_outcome(
            reg,
            collection_id,
            caller,
            wanted,
            added,
            reply,
            now,
            random_number,
        ).step matches AddStepView::Done(Ok(_)),
    ensures
        ({
            let outcome = add_documents_outcome(
                reg,
                collection_id,
                caller,
                wanted,
                added,
                reply,
                now,
                random_number,
            );
            let told = outcome.step->Done_0->Ok_0;
            &&& reg.collection(collection_id) matches Some(c) && c.is_admin(caller)
            &&& told.document_ids == outcome.added
            &&& told.document_ids.len() >= wanted > 0
            &&& told.action == DocumentAction::ProposalCreated
            &&& told.proposal_id matches Some(id) && outcome.registry.proposal(collection_id, id)
                matches Some(p) && {
                &&& p.proposal_type == (ProposalTypeView::BatchEmbed {
                    document_ids: told.document_ids,
                })
                &&& p.creator == caller
                &&& !p.executed
                &&& p.status == crate::types::ProposalStatus::Active || p.status
                    == crate::types::ProposalStatus::Approved
            }
        }),
{
    let c = reg.collection(collection_id).unwrap();
    let id = proposal_id_text(collection_id, now, random_number);
    let ids = match reply {
        AddReplyView::Added(one) => added.push(one),
        _ => Seq::empty(),
    };
    crate::keys::lemma_position(reg.ids(), collection_id);
    crate::storage::lemma_registry_put_proposal(
        reg,
        collection_id,
        new_proposal(
            c,
            id,
            collection_id,
            ProposalTypeView::BatchEmbed { document_ids: ids },
            caller,
            embed_description_text(ids),
            now,
        ),
        collection_id,
        id,
    );
}

/// The endings of the files that are taken.
pub fn get_supported_file_types() -> (types: Vec<String>)
    ensures
        types.deep_view() == seq!["txt"@, "md"@, "markdown"@, "pdf"@, "docx"@],
{
    let mut types: Vec<String> = Vec::new();
    types.push(String::from_str("txt"));
    types.push(String::from_str("md"));
    types.push(String::from_str("markdown"));
    types.push(String::from_str("pdf"));
    types.push(String::from_str("docx"));
    assert(types.deep_view() =~= seq!["txt"@, "md"@, "markdown"@, "pdf"@, "docx"@]);
    types
}

/// The kinds of addresses that are taken.
pub fn get_supported_url_types() -> (types: Vec<String>)
    ensures
        types.deep_view() == seq!["YouTube playlists"@, "GitHub markdown files"@],
{
    let mut types: Vec<String> = Vec::new();
    types.push(String::from_str("YouTube playlists"));
    types.push(String::from_str("GitHub markdown files"));
    assert(types.deep_view() =~= seq!["YouTube playlists"@, "GitHub markdown files"@]);
    types
}

/// The limits of extraction, in words.
pub fn get_extraction_limits() -> (limits: String)
    ensures
        limits@
            == "File size limit: 10 MB\nContent size limit: 10 MB\nYouTube playlist limit: 50 videos per batch\nGitHub file limit: 2 MB"@,
{
    String::from_str(
        "File size limit: 10 MB\nContent size limit: 10 MB\nYouTube playlist limit: 50 videos per batch\nGitHub file limit: 2 MB",
    )
}

/// Whether the collection leaves its decisions to the external decision body.
pub fn is_sns_integrated_endpoint(registry: &Registry, collection_id: &str) -> (r: ClanopediaResult<
    bool,
>)
    ensures
        match r {
            Ok(yes) => registry@.collection(collection_id@) matches Some(c) && yes
                == (c.governance_model == GovernanceModel::SnsIntegrated),
            Err(e) => registry@.collection(collection_id@) is None && e.spec_kind()
                == ErrorKind::NotFound,
        },
{
    match registry.find(collection_id) {
        Some(ci) => Ok(registry.collections[ci].governance_model == GovernanceModel::SnsIntegrated),
        None => Err(collection_not_found(collection_id)),
    }
}

/// The external decision body of the collection, where it leaves its decisions to one.
pub fn get_sns_governance_canister_endpoint(registry: &Registry, collection_id: &str) -> (r:
    ClanopediaResult<Option<Principal>>)
    ensures
        match r {
            Ok(service) => registry@.collection(collection_id@) matches Some(c) && service == if c.governance_model
                == GovernanceModel::SnsIntegrated {
                c.sns_governance_canister
            } else {
                None
            },
            Err(e) => registry@.collection(collection_id@) is None && e.spec_kind()
                == ErrorKind::NotFound,
        },
{
    match registry.find(collection_id) {
        Some(ci) => {
            let c = &registry.collections[ci];
            if c.governance_model == GovernanceModel::SnsIntegrated {
                Ok(c.sns_governance_canister)
            } else {
                Ok(None)
            }
        },
        None => Err(collection_not_found(collection_id)),
    }
}

/// Stores the collection that `caller` creates with `config` under
/// `collection_id`, once the document service has created its side under
/// the name `blueband_collection_id`.
pub fn create_collection_endpoint(
    registry: &mut Registry,
    collection_id: &CollectionId,
    config: CollectionConfig,
    caller: Principal,
    now: u64,
    blueband_collection_id: String,
) -> (r: ClanopediaResult<CollectionId>)
    ensures
        match prepared_config(config@, caller) {
            None => failure(r) == Some(ErrorKind::InvalidInput) && final(registry)@
                == old(registry)@,
            Some(prepared) => match create_collection_failure(
                old(registry)@,
                collection_id@,
                prepared,
            ) {
                Some(kind) => failure(r) == Some(kind) && final(registry)@ == old(registry)@,
                None => r matches Ok(id) && id@ == collection_id@ && final(registry)@
                    == old(registry)@.append(
                    CollectionView {
                        blueband_collection_id: blueband_collection_id@,
                        ..created_collection(collection_id@, prepared, caller, now)
                    },
                ),
            },
        },
{
    let prepared = match prepare_config(config, &caller) {
        Ok(prepared) => prepared,
        Err(e) => {
            return Err(e);
        },
    };
    let ghost view = prepared@;
    let ghost before = registry@;
    match create_collection(registry, collection_id, prepared, caller, now) {
        Err(e) => {
            return Err(e);
        },
        Ok(_) => {},
    }
    let ghost made = created_collection(collection_id@, view, caller, now);
    proof {
        assert(registry@.collections == before.collections.push(made));
        assert(registry@.collections.len() == registry.collections.len());
        assert(registry@.collections[before.collections.len() as int] == made);
    }
    let last = registry.collections.len() - 1;
    let ghost stored = registry@;
    registry.collections[last].blueband_collection_id = blueband_collection_id;
    proof {
        assert(registry@.collections =~= stored.collections.update(
            last as int,
            CollectionView { blueband_collection_id: blueband_collection_id@, ..made },
        ));
        assert(registry@.collections =~= before.collections.push(
            CollectionView { blueband_collection_id: blueband_collection_id@, ..made },
        ));
    }
    Ok(collection_id.clone())
}

} // verus!
