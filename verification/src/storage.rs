//! The registry of collections: plain storing, finding, replacing and removing.

use vstd::prelude::*;

use crate::identity::text_to_principal;
use crate::keys::{distinct, lemma_position, lemma_position_absent, lemma_position_found, position};
use crate::text::{concat3, same_text};
use crate::types::{
    ClanopediaError, ClanopediaResult, Collection, CollectionConfig,
    CollectionConfigView, CollectionId, CollectionView, ErrorKind, GovernanceModel, Principal,
    Proposal, ProposalView,
};

verus! {

/// Every collection, each under its own id, and the identity of the document service.
#[derive(Debug)]
pub struct Registry {
    pub collections: Vec<Collection>,
    pub blueband_canister: Option<Principal>,
}

pub struct RegistryView {
    pub collections: Seq<CollectionView>,
    pub blueband_canister: Option<Principal>,
}

impl View for Registry {
    type V = RegistryView;

    open spec fn view(&self) -> RegistryView {
        RegistryView {
            collections: self.collections.deep_view(),
            blueband_canister: self.blueband_canister,
        }
    }
}

impl RegistryView {
    /// The ids of the collections, in the order in which they are kept.
    pub open spec fn ids(self) -> Seq<Seq<char>> {
        self.collections.map_values(|c: CollectionView| c.id)
    }

    /// The place of the collection called `id`, if there is one.
    pub open spec fn position(self, id: Seq<char>) -> Option<int> {
        position(self.ids(), id)
    }

    pub open spec fn contains(self, id: Seq<char>) -> bool {
        self.position(id) is Some
    }

    /// The collection called `id`, if there is one.
    pub open spec fn collection(self, id: Seq<char>) -> Option<CollectionView> {
        match self.position(id) {
            Some(i) => Some(self.collections[i]),
            None => None,
        }
    }

    /// The proposal called `proposal_id` of the collection called `collection_id`.
    pub open spec fn proposal(self, collection_id: Seq<char>, proposal_id: Seq<char>) -> Option<
        ProposalView,
    > {
        match self.collection(collection_id) {
            Some(c) => c.proposal(proposal_id),
            None => None,
        }
    }

    /// The registry with `c` in the place of the collection called `id`;
    /// unchanged where there is none.
    pub open spec fn replace(self, id: Seq<char>, c: CollectionView) -> RegistryView {
        match self.position(id) {
            Some(i) => RegistryView { collections: self.collections.update(i, c), ..self },
            None => self,
        }
    }

    /// The registry with `c` behind the collections it holds.
    pub open spec fn append(self, c: CollectionView) -> RegistryView {
        RegistryView { collections: self.collections.push(c), ..self }
    }

    /// The registry without the collection called `id`.
    pub open spec fn remove(self, id: Seq<char>) -> RegistryView {
        match self.position(id) {
            Some(i) => RegistryView { collections: self.collections.remove(i), ..self },
            None => self,
        }
    }

    /// The registry with `p` stored in the collection called `collection_id`,
    /// in the place of the proposal of the same id or behind the others.
    pub open spec fn put_proposal(self, collection_id: Seq<char>, p: ProposalView) -> RegistryView {
        match self.collection(collection_id) {
            Some(c) => self.replace(collection_id, c.put_proposal(p)),
            None => self,
        }
    }

    /// No two collections share an id, and each collection is well formed.
    pub open spec fn wf(self) -> bool {
        &&& distinct(self.ids())
        &&& forall|i: int| 0 <= i < self.collections.len() ==> (#[trigger] self.collections[i]).wf()
    }
}

impl Registry {
    /// A registry that holds nothing.
    pub fn new() -> (r: Registry)
        ensures
            r@.collections == Seq::<CollectionView>::empty(),
            r@.blueband_canister is None,
            r@.wf(),
    {
        let r = Registry { collections: Vec::new(), blueband_canister: None };
        assert(r@.collections =~= Seq::<CollectionView>::empty());
        r
    }

    /// Where the collection called `id` is kept.
    pub fn find(&self, id: &str) -> (r: Option<usize>)
        ensures
            match r {
                Some(i) => self@.position(id@) == Some(i as int) && i < self.collections.len(),
                None => self@.position(id@) is None,
            },
    {
        let mut i: usize = 0;
        while i < self.collections.len()
            invariant
                i <= self.collections.len(),
                forall|j: int| 0 <= j < i ==> self@.ids()[j] != id@,
            decreases self.collections.len() - i,
        {
            if same_text(self.collections[i].id.as_str(), id) {
                proof {
                    assert(self@.ids()[i as int] == id@);
                    lemma_position_found(self@.ids(), id@, i as int);
                }
                return Some(i);
            }
            i += 1;
        }
        proof {
            lemma_position_absent(self@.ids(), id@);
        }
        None
    }
}

/// The error that says that no collection is called `collection_id`.
pub fn collection_not_found(collection_id: &str) -> (e: ClanopediaError)
    ensures
        e.spec_kind() == ErrorKind::NotFound,
        e.spec_message() == "Collection "@ + collection_id@ + " not found"@,
{
    ClanopediaError::NotFound(concat3("Collection ", collection_id, " not found"))
}

/// The identities that `texts` are the textual forms of, or `None` where one
/// of them is the textual form of none.
pub open spec fn parsed_principals(texts: Seq<Seq<char>>) -> Option<Seq<Principal>> {
    if forall|i: int| 0 <= i < texts.len() ==> text_to_principal(#[trigger] texts[i]) is Some {
        Some(Seq::new(texts.len(), |i: int| text_to_principal(texts[i]).unwrap()))
    } else {
        None
    }
}

/// The identity that an optional text stands for: `Ok(None)` for no text,
/// `Err` for a text that is the form of no identity.
pub open spec fn parsed_optional(text: Option<Seq<char>>) -> Result<Option<Principal>, ()> {
    match text {
        None => Ok(None),
        Some(t) => match text_to_principal(t) {
            Some(p) => Ok(Some(p)),
            None => Err(()),
        },
    }
}

/// Reads each of `texts` as an identity.
pub fn parse_principals(texts: &Vec<String>) -> (r: Option<Vec<Principal>>)
    ensures
        match r {
            Some(v) => parsed_principals(texts.deep_view()) == Some(v@),
            None => parsed_principals(texts.deep_view()) is None,
        },
{
    let mut out: Vec<Principal> = Vec::new();
    let mut i: usize = 0;
    while i < texts.len()
        invariant
            i <= texts.len(),
            out.len() == i,
            forall|j: int| 0 <= j < i ==> text_to_principal(#[trigger] texts.deep_view()[j]) == Some(out@[j]),
        decreases texts.len() - i,
    {
        match Principal::from_text(texts[i].as_str()) {
            Some(p) => {
                assert(texts.deep_view()[i as int] == texts[i as int]@);
                out.push(p);
            },
            None => {
                assert(texts.deep_view()[i as int] == texts[i as int]@);
                return None;
            },
        }
        i += 1;
    }
    assert(out@ =~= parsed_principals(texts.deep_view()).unwrap());
    Some(out)
}

/// Reads an optional text as an identity.
pub fn parse_optional_principal(text: &Option<String>) -> (r: Result<Option<Principal>, ()>)
    ensures
        r == parsed_optional(text.deep_view()),
{
    match text {
        None => Ok(None),
        Some(t) => match Principal::from_text(t.as_str()) {
            Some(p) => Ok(Some(p)),
            None => Err(()),
        },
    }
}

/// A configuration asks for something that no collection may have: a vote
/// count of zero to decide among administrators, or a quorum above 100 percent.
pub open spec fn config_is_malformed(config: CollectionConfigView) -> bool {
    ||| config.governance_model == GovernanceModel::Multisig && config.threshold == 0
    ||| config.quorum_threshold > 100
}

/// The collection that `create_collection` stores for a well-formed `config`.
pub open spec fn created_collection(
    id: Seq<char>,
    config: CollectionConfigView,
    creator: Principal,
    now: u64,
) -> CollectionView {
    CollectionView {
        id,
        name: config.name,
        description: config.description,
        creator,
        created_at: now,
        updated_at: now,
        admins: match parsed_principals(config.admins) {
            Some(admins) => if admins.len() == 0 {
                seq![creator]
            } else {
                admins
            },
            None => seq![creator],
        },
        threshold: config.threshold,
        governance_token: parsed_optional(config.governance_token).unwrap(),
        sns_governance_canister: parsed_optional(config.sns_governance_canister).unwrap(),
        governance_model: config.governance_model,
        quorum_threshold: config.quorum_threshold,
        is_permissionless: config.is_permissionless,
        blueband_collection_id: Seq::empty(),
        proposals: Seq::empty(),
        cycles_balance: 0,
        proposal_counter: 0,
    }
}

/// A collection is created with at least one administrator.
pub proof fn lemma_created_collection_has_an_administrator(
    id: Seq<char>,
    config: CollectionConfigView,
    creator: Principal,
    now: u64,
)
    ensures
        created_collection(id, config, creator, now).admins.len() > 0,
        created_collection(id, config, creator, now).proposals.len() == 0,
{
}

/// Why `create_collection` refuses, if it does.
pub open spec fn create_collection_failure(
    registry: RegistryView,
    id: Seq<char>,
    config: CollectionConfigView,
) -> Option<ErrorKind> {
    if registry.contains(id) {
        Some(ErrorKind::AlreadyExists)
    } else if config_is_malformed(config) {
        Some(ErrorKind::InvalidInput)
    } else if parsed_optional(config.governance_token) is Err {
        Some(ErrorKind::InvalidInput)
    } else if parsed_optional(config.sns_governance_canister) is Err {
        Some(ErrorKind::InvalidInput)
    } else {
        None
    }
}

/// Stores a new collection under `collection_id`, made from `config` at time
/// `now`. Where the configuration names no administrator, or one of the
/// administrators' texts names no identity, the creator alone administers the
/// collection.
pub fn create_collection(
    registry: &mut Registry,
    collection_id: &CollectionId,
    config: CollectionConfig,
    creator: Principal,
    now: u64,
) -> (r: ClanopediaResult<()>)
    ensures
        crate::types::failure(r) == create_collection_failure(old(registry)@, collection_id@, config@),
        r is Err ==> final(registry)@ == old(registry)@,
        r is Ok ==> final(registry)@ == old(registry)@.append(
            created_collection(collection_id@, config@, creator, now),
        ),
        old(registry)@.wf() ==> final(registry)@.wf(),
{
    if registry.find(collection_id.as_str()).is_some() {
        return Err(
            ClanopediaError::AlreadyExists(
                concat3("Collection ", collection_id.as_str(), " already exists"),
            ),
        );
    }
    if (matches!(config.governance_model, GovernanceModel::Multisig) && config.threshold == 0) {
        return Err(
            ClanopediaError::InvalidInput(
                String::from_str("Administrator voting needs a threshold of at least 1"),
            ),
        );
    }
    if config.quorum_threshold > 100 {
        return Err(
            ClanopediaError::InvalidInput(String::from_str("Quorum percentage cannot exceed 100")),
        );
    }
    let governance_token = match parse_optional_principal(&config.governance_token) {
        Ok(t) => t,
        Err(_) => {
            return Err(
                ClanopediaError::InvalidInput(String::from_str("Invalid governance token principal")),
            );
        },
    };
    let sns_governance_canister = match parse_optional_principal(&config.sns_governance_canister) {
        Ok(t) => t,
        Err(_) => {
            return Err(
                ClanopediaError::InvalidInput(
                    String::from_str("Invalid SNS governance canister principal"),
                ),
            );
        },
    };
    let named = match parse_principals(&config.admins) {
        Some(admins) => admins,
        None => Vec::new(),
    };
    let admins = if named.len() == 0 {
        let mut only: Vec<Principal> = Vec::new();
        only.push(creator);
        assert(only@ =~= seq![creator]);
        only
    } else {
        named
    };
    let ghost before = registry@;
    let ghost view = created_collection(collection_id@, config@, creator, now);
    let collection = Collection {
        id: collection_id.clone(),
        name: config.name,
        description: config.description,
        creator,
        created_at: now,
        updated_at: now,
        admins,
        threshold: config.threshold,
        governance_token,
        sns_governance_canister,
        governance_model: config.governance_model,
        quorum_threshold: config.quorum_threshold,
        is_permissionless: config.is_permissionless,
        blueband_collection_id: String::new(),
        proposals: Vec::new(),
        cycles_balance: 0,
        proposal_counter: 0,
    };
    proof {
        assert(collection@.proposals =~= Seq::<ProposalView>::empty());
        assert(collection@ == view);
    }
    registry.collections.push(collection);
    proof {
        assert(registry@.collections =~= before.collections.push(view));
        lemma_position(before.ids(), collection_id@);
        if before.wf() {
            assert(registry@.ids() =~= before.ids().push(collection_id@));
            assert(distinct(view.proposal_ids()));
        }
    }
    Ok(())
}

/// A copy of the collection called `collection_id`.
pub fn get_collection(registry: &Registry, collection_id: &CollectionId) -> (r: ClanopediaResult<
    Collection,
>)
    ensures
        match r {
            Ok(c) => registry@.collection(collection_id@) == Some(c@),
            Err(e) => registry@.collection(collection_id@) is None && e.spec_kind()
                == ErrorKind::NotFound,
        },
{
    match registry.find(collection_id.as_str()) {
        Some(i) => Ok(registry.collections[i].clone()),
        None => Err(collection_not_found(collection_id.as_str())),
    }
}

/// Why `update_collection` refuses, if it does.
pub open spec fn update_collection_failure(
    registry: RegistryView,
    id: Seq<char>,
    collection: CollectionView,
) -> Option<ErrorKind> {
    if !registry.contains(id) {
        Some(ErrorKind::NotFound)
    } else if collection.id != id {
        Some(ErrorKind::InvalidArgument)
    } else {
        None
    }
}

/// Puts `collection` in the place of the collection called `collection_id`.
/// The record must carry the id under which it is stored.
pub fn update_collection(
    registry: &mut Registry,
    collection_id: &CollectionId,
    collection: &Collection,
) -> (r: ClanopediaResult<()>)
    ensures
        crate::types::failure(r) == update_collection_failure(
            old(registry)@,
            collection_id@,
            collection@,
        ),
        r is Err ==> final(registry)@ == old(registry)@,
        r is Ok ==> final(registry)@ == old(registry)@.replace(collection_id@, collection@),
        old(registry)@.wf() && collection@.wf() ==> final(registry)@.wf(),
{
    let i = match registry.find(collection_id.as_str()) {
        Some(i) => i,
        None => {
            return Err(collection_not_found(collection_id.as_str()));
        },
    };
    if !same_text(collection.id.as_str(), collection_id.as_str()) {
        return Err(
            ClanopediaError::InvalidArgument(
                String::from_str("The record's id differs from the id it is stored under"),
            ),
        );
    }
    let ghost before = registry@;
    registry.collections[i] = collection.clone();
    proof {
        assert(registry@.collections =~= before.collections.update(i as int, collection@));
        assert(registry@.ids() =~= before.ids());
    }
    Ok(())
}

/// Removes the collection called `collection_id`, and its proposals with it.
pub fn delete_collection(registry: &mut Registry, collection_id: &CollectionId) -> (r:
    ClanopediaResult<()>)
    ensures
        r is Ok <==> old(registry)@.contains(collection_id@),
        r matches Err(e) ==> e.spec_kind() == ErrorKind::NotFound,
        final(registry)@ == old(registry)@.remove(collection_id@),
        old(registry)@.wf() ==> final(registry)@.wf() && !final(registry)@.contains(collection_id@),
{
    let i = match registry.find(collection_id.as_str()) {
        Some(i) => i,
        None => {
            return Err(collection_not_found(collection_id.as_str()));
        },
    };
    let ghost before = registry@;
    registry.collections.remove(i);
    proof {
        assert(registry@.collections =~= before.collections.remove(i as int));
        assert(registry@.ids() =~= before.ids().remove(i as int));
        if before.wf() {
            assert(distinct(registry@.ids())) by {
                assert forall|a: int, b: int|
                    0 <= a < registry@.ids().len() && 0 <= b < registry@.ids().len() && a
                        != b implies registry@.ids()[a] != registry@.ids()[b] by {
                    let a0 = if a < i { a } else { a + 1 };
                    let b0 = if b < i { b } else { b + 1 };
                    assert(registry@.ids()[a] == before.ids()[a0]);
                    assert(registry@.ids()[b] == before.ids()[b0]);
                }
            }
            assert forall|k: int| 0 <= k < registry@.collections.len() implies (
            #[trigger] registry@.collections[k]).wf() by {
                let k0 = if k < i { k } else { k + 1 };
                assert(registry@.collections[k] == before.collections[k0]);
            }
            assert forall|k: int| 0 <= k < registry@.ids().len() implies registry@.ids()[k]
                != collection_id@ by {
                let k0 = if k < i { k } else { k + 1 };
                assert(registry@.ids()[k] == before.ids()[k0]);
                assert(before.ids()[i as int] == collection_id@);
            }
            lemma_position_absent(registry@.ids(), collection_id@);
        }
    }
    Ok(())
}

/// A copy of every collection, in the order in which they are kept.
pub fn list_collections(registry: &Registry) -> (out: Vec<Collection>)
    ensures
        out.deep_view() == registry@.collections,
{
    let mut out: Vec<Collection> = Vec::new();
    let mut i: usize = 0;
    while i < registry.collections.len()
        invariant
            i <= registry.collections.len(),
            out.len() == i,
            forall|j: int| 0 <= j < i ==> out[j]@ == registry.collections[j]@,
        decreases registry.collections.len() - i,
    {
        out.push(registry.collections[i].clone());
        i += 1;
    }
    assert(out.deep_view() =~= registry@.collections);
    out
}

/// What `put_proposal` keeps of a well-formed collection.
pub(crate) proof fn lemma_put_proposal_wf(c: CollectionView, p: ProposalView)
    requires
        c.wf(),
        p.wf(),
    ensures
        c.put_proposal(p).wf(),
        c.put_proposal(p).proposal(p.id) == Some(p),
{
    let after = c.put_proposal(p);
    lemma_position(c.proposal_ids(), p.id);
    match c.proposal_position(p.id) {
        Some(i) => {
            assert(after.proposal_ids() =~= c.proposal_ids());
            assert forall|k: int| 0 <= k < after.proposals.len() implies (
            #[trigger] after.proposals[k]).wf() by {
                if k != i {
                    assert(after.proposals[k] == c.proposals[k]);
                }
            }
        },
        None => {
            assert(after.proposal_ids() =~= c.proposal_ids().push(p.id));
            assert forall|k: int| 0 <= k < after.proposals.len() implies (
            #[trigger] after.proposals[k]).wf() by {
                if k < c.proposals.len() {
                    assert(after.proposals[k] == c.proposals[k]);
                }
            }
            let last = c.proposals.len() as int;
            assert(crate::keys::first_at(after.proposal_ids(), p.id, last));
            lemma_position_found(after.proposal_ids(), p.id, last);
        },
    }
}

/// Stores `proposal` in `collection`, in the place of the proposal of the same
/// id or behind the others.
pub fn put_proposal(collection: &mut Collection, proposal: Proposal)
    ensures
        final(collection)@ == old(collection)@.put_proposal(proposal@),
{
    let ghost before = collection@;
    match collection.find_proposal(proposal.id.as_str()) {
        Some(i) => {
            collection.proposals[i] = proposal;
            assert(collection@.proposals =~= before.proposals.update(i as int, proposal@));
        },
        None => {
            collection.proposals.push(proposal);
            assert(collection@.proposals =~= before.proposals.push(proposal@));
        },
    }
}

/// Stores `proposal` in the collection called `collection_id`, whatever its status.
pub fn update_proposal_in_storage(
    registry: &mut Registry,
    collection_id: &CollectionId,
    proposal: &Proposal,
) -> (r: ClanopediaResult<()>)
    ensures
        r is Ok <==> old(registry)@.contains(collection_id@),
        r matches Err(e) ==> e.spec_kind() == ErrorKind::NotFound,
        final(registry)@ == old(registry)@.put_proposal(collection_id@, proposal@),
        old(registry)@.wf() && proposal@.wf() ==> final(registry)@.wf(),
{
    let i = match registry.find(collection_id.as_str()) {
        Some(i) => i,
        None => {
            return Err(collection_not_found(collection_id.as_str()));
        },
    };
    let ghost before = registry@;
    put_proposal(&mut registry.collections[i], proposal.clone());
    proof {
        let c = before.collections[i as int];
        assert(registry@.collections =~= before.collections.update(
            i as int,
            c.put_proposal(proposal@),
        ));
        assert(registry@.ids() =~= before.ids());
        if before.wf() && proposal@.wf() {
            lemma_put_proposal_wf(c, proposal@);
        }
    }
    Ok(())
}

/// Records which service holds the documents.
pub fn set_blueband_canister_id(registry: &mut Registry, canister_id: Principal)
    ensures
        final(registry)@ == (RegistryView {
            blueband_canister: Some(canister_id),
            ..old(registry)@
        }),
{
    registry.blueband_canister = Some(canister_id);
}

/// The service that holds the documents, once it has been recorded.
pub fn get_blueband_canister_id(registry: &Registry) -> (r: ClanopediaResult<Principal>)
    ensures
        match r {
            Ok(p) => registry@.blueband_canister == Some(p),
            Err(e) => registry@.blueband_canister is None && e.spec_kind()
                == ErrorKind::InvalidInput,
        },
{
    match registry.blueband_canister {
        Some(p) => Ok(p),
        None => Err(
            ClanopediaError::InvalidInput(String::from_str("Blueband canister not initialized")),
        ),
    }
}

/// Records which service holds the documents, once: a second call is refused
/// and changes nothing.
pub fn configure_blueband_canister(registry: &mut Registry, canister_id: Principal) -> (r:
    ClanopediaResult<()>)
    ensures
        r is Ok <==> old(registry)@.blueband_canister is None,
        r matches Err(e) ==> e.spec_kind() == ErrorKind::InvalidOperation && final(registry)@
            == old(registry)@,
        r is Ok ==> final(registry)@ == (RegistryView {
            blueband_canister: Some(canister_id),
            ..old(registry)@
        }),
{
    if registry.blueband_canister.is_some() {
        return Err(
            ClanopediaError::InvalidOperation(
                String::from_str("Blueband canister already configured"),
            ),
        );
    }
    set_blueband_canister_id(registry, canister_id);
    Ok(())
}

/// After `put_proposal`, the proposal that was put is found under its id, and
/// every other id leads where it led before.
pub(crate) proof fn lemma_put_proposal_lookup(c: CollectionView, p: ProposalView, id: Seq<char>)
    ensures
        c.put_proposal(p).proposal(id) == if id == p.id {
            Some(p)
        } else {
            c.proposal(id)
        },
        c.put_proposal(p).id == c.id,
{
    let after = c.put_proposal(p);
    lemma_position(c.proposal_ids(), p.id);
    lemma_position(c.proposal_ids(), id);
    match c.proposal_position(p.id) {
        Some(i) => {
            assert(after.proposal_ids() =~= c.proposal_ids());
        },
        None => {
            assert(after.proposal_ids() =~= c.proposal_ids().push(p.id));
            crate::keys::lemma_position_push(c.proposal_ids(), p.id, id);
        },
    }
}

/// After `replace` with a record of the same id, that record is found under
/// the id, and every other id leads where it led before.
pub(crate) proof fn lemma_replace_lookup(reg: RegistryView, id: Seq<char>, c: CollectionView, other: Seq<char>)
    requires
        c.id == id,
    ensures
        reg.replace(id, c).ids() == reg.ids(),
        reg.replace(id, c).collection(other) == if other == id && reg.contains(id) {
            Some(c)
        } else {
            reg.collection(other)
        },
{
    lemma_position(reg.ids(), id);
    lemma_position(reg.ids(), other);
    assert(reg.replace(id, c).ids() =~= reg.ids());
}

/// After a proposal was put into a collection of the registry, it is found
/// under its two ids, and every other pair of ids leads where it led before.
pub(crate) proof fn lemma_registry_put_proposal(
    reg: RegistryView,
    collection_id: Seq<char>,
    p: ProposalView,
    c: Seq<char>,
    id: Seq<char>,
)
    ensures
        reg.put_proposal(collection_id, p).ids() == reg.ids(),
        reg.put_proposal(collection_id, p).proposal(c, id) == if c == collection_id && id == p.id
            && reg.contains(collection_id) {
            Some(p)
        } else {
            reg.proposal(c, id)
        },
{
    lemma_position(reg.ids(), collection_id);
    match reg.collection(collection_id) {
        Some(old) => {
            assert(old.id == collection_id);
            lemma_put_proposal_lookup(old, p, id);
            lemma_replace_lookup(reg, collection_id, old.put_proposal(p), c);
        },
        None => {},
    }
}

/// Putting a well-formed proposal into a well-formed registry leaves it well formed.
pub(crate) proof fn lemma_registry_put_proposal_wf(reg: RegistryView, collection_id: Seq<char>, p: ProposalView)
    requires
        reg.wf(),
        p.wf(),
    ensures
        reg.put_proposal(collection_id, p).wf(),
{
    lemma_position(reg.ids(), collection_id);
    match reg.collection(collection_id) {
        Some(old) => {
            let i = reg.position(collection_id).unwrap();
            let after = reg.put_proposal(collection_id, p);
            lemma_put_proposal_wf(old, p);
            lemma_put_proposal_lookup(old, p, p.id);
            assert(after.ids() =~= reg.ids());
            assert forall|k: int| 0 <= k < after.collections.len() implies (
            #[trigger] after.collections[k]).wf() by {
                if k != i {
                    assert(after.collections[k] == reg.collections[k]);
                }
            }
        },
        None => {},
    }
}

/// Among distinct ids, removing a collection leaves every other id where it led before.
pub(crate) proof fn lemma_remove_lookup(reg: RegistryView, id: Seq<char>, other: Seq<char>)
    requires
        distinct(reg.ids()),
    ensures
        reg.remove(id).collection(other) == if other == id {
            None
        } else {
            reg.collection(other)
        },
{
    lemma_position(reg.ids(), id);
    lemma_position(reg.ids(), other);
    match reg.position(id) {
        None => {},
        Some(i) => {
            let after = reg.remove(id);
            assert(after.ids() =~= reg.ids().remove(i));
            assert forall|k: int| 0 <= k < after.ids().len() implies after.ids()[k] == reg.ids()[if k
                < i {
                k
            } else {
                k + 1
            }] by {}
            if other == id {
                lemma_position_absent(after.ids(), other);
            } else {
                match reg.position(other) {
                    None => {
                        lemma_position_absent(after.ids(), other);
                    },
                    Some(j) => {
                        let j2 = if j < i {
                            j
                        } else {
                            j - 1
                        };
                        assert(after.ids()[j2] == other);
                        assert(distinct(after.ids())) by {
                            assert forall|a: int, b: int|
                                0 <= a < after.ids().len() && 0 <= b < after.ids().len() && a
                                    != b implies after.ids()[a] != after.ids()[b] by {
                                let a0 = if a < i { a } else { a + 1 };
                                let b0 = if b < i { b } else { b + 1 };
                                assert(after.ids()[a] == reg.ids()[a0]);
                                assert(after.ids()[b] == reg.ids()[b0]);
                            }
                        }
                        crate::keys::lemma_position_distinct(after.ids(), other, j2);
                        assert(after.collections[j2] == reg.collections[j]);
                    },
                }
            }
        },
    }
}

} // verus!
