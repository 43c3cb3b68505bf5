//! The records that governance works on: identities, collections, proposals
//! and the errors that operations report.

use vstd::prelude::*;
use vstd::slice::slice_to_vec;

use crate::keys::{distinct, lemma_position_absent, lemma_position_found, position};
use crate::text::{concat2, debug_form, debug_text, same_text};

verus! {

pub type CollectionId = String;

pub type ProposalId = String;

pub type DocumentId = String;

pub type ClanopediaResult<T> = Result<T, ClanopediaError>;

/// How long a proposal stays open after it was created: seven days, in nanoseconds.
pub const PROPOSAL_DURATION_NANOS: u64 = 604_800_000_000_000;

/// The identity of a caller, an administrator or a collaborating service:
/// at most 29 bytes, kept in a fixed buffer whose unused tail is zero.
#[derive(Clone, Copy, Debug, Eq)]
pub struct Principal {
    pub len: u8,
    pub bytes: [u8; 29],
}

impl PartialEq for Principal {
    fn eq(&self, other: &Self) -> (r: bool) {
        if self.len != other.len {
            return false;
        }
        let mut i: usize = 0;
        while i < 29
            invariant
                i <= 29,
                forall|j: int| 0 <= j < i ==> self.bytes[j] == other.bytes[j],
            decreases 29 - i,
        {
            if self.bytes[i] != other.bytes[i] {
                return false;
            }
            i += 1;
        }
        assert(self.bytes =~= other.bytes);
        true
    }
}

impl vstd::std_specs::cmp::PartialEqSpecImpl for Principal {
    open spec fn obeys_eq_spec() -> bool {
        true
    }

    open spec fn eq_spec(&self, other: &Self) -> bool {
        *self == *other
    }
}

impl View for Principal {
    type V = Seq<u8>;

    /// The bytes that make up the identity: the first `len` of the buffer,
    /// and all 29 where `len` is out of range.
    open spec fn view(&self) -> Seq<u8> {
        self.bytes@.take(
            if self.len <= 29 {
                self.len as int
            } else {
                29
            },
        )
    }
}

impl Principal {
    /// The length is in range and nothing is stored behind it.
    pub open spec fn wf(&self) -> bool {
        &&& self.len <= 29
        &&& forall|i: int| self.len <= i < 29 ==> self.bytes[i] == 0
    }

    /// The identity that stands for "nobody": the single byte 4.
    pub fn anonymous() -> (p: Principal)
        ensures
            p.wf(),
            p@ == seq![4u8],
    {
        let mut bytes = [0u8; 29];
        bytes[0] = 4;
        let p = Principal { len: 1, bytes };
        assert(p@ =~= seq![4u8]);
        p
    }

    /// The identity made of `raw`, or `None` where `raw` is longer than 29 bytes.
    pub fn from_slice(raw: &[u8]) -> (r: Option<Principal>)
        ensures
            raw@.len() > 29 <==> r is None,
            r matches Some(p) ==> p.wf() && p@ == raw@,
    {
        if raw.len() > 29 {
            return None;
        }
        let mut bytes = [0u8; 29];
        let mut i: usize = 0;
        while i < raw.len()
            invariant
                i <= raw@.len() <= 29,
                forall|j: int| 0 <= j < i ==> bytes[j] == raw@[j],
                forall|j: int| i <= j < 29 ==> bytes[j] == 0,
            decreases raw@.len() - i,
        {
            bytes[i] = raw[i];
            i += 1;
        }
        let p = Principal { len: raw.len() as u8, bytes };
        assert(p@ =~= raw@);
        Some(p)
    }

    /// The bytes of the identity, in order.
    pub fn to_vec(&self) -> (out: Vec<u8>)
        ensures
            out@ == self@,
            out@.len() <= 29,
    {
        let mut out: Vec<u8> = Vec::new();
        let mut i: usize = 0;
        let n: usize = if self.len <= 29 {
            self.len as usize
        } else {
            29
        };
        while i < n
            invariant
                i <= n <= 29,
                out@ == self.bytes@.take(i as int),
            decreases n - i,
        {
            out.push(self.bytes[i]);
            assert(self.bytes@.take(i + 1) =~= self.bytes@.take(i as int).push(self.bytes[i as int]));
            i += 1;
        }
        out
    }
}

/// Two identities of valid shape are equal exactly when their bytes are.
pub proof fn lemma_principal_bytes_decide(a: Principal, b: Principal)
    requires
        a.wf(),
        b.wf(),
    ensures
        a == b <==> a@ == b@,
{
    if a@ == b@ {
        assert(a.len == b.len) by {
            assert(a@.len() == a.len);
            assert(b@.len() == b.len);
        }
        assert forall|i: int| 0 <= i < 29 implies a.bytes[i] == b.bytes[i] by {
            if i < a.len {
                assert(a@[i] == a.bytes[i]);
                assert(b@[i] == b.bytes[i]);
            }
        }
        assert(a.bytes =~= b.bytes);
    }
}

/// A position taken on a proposal.
#[derive(Clone, Copy, Debug, PartialEq, Eq, Structural)]
pub enum Vote {
    Yes,
    No,
    Abstain,
}

/// The rule by which a collection decides on its proposals.
#[derive(Clone, Copy, Debug, PartialEq, Eq, Structural)]
pub enum GovernanceModel {
    /// No vote is taken: every proposal is approved when it is created.
    Permissionless,
    /// Administrators vote; a count of Yes votes decides.
    Multisig,
    /// Token holders vote; the share of the total supply that said Yes decides.
    TokenBased,
    /// An external decision body decides.
    SnsIntegrated,
}

impl Default for GovernanceModel {
    fn default() -> (m: GovernanceModel)
        ensures
            m == GovernanceModel::Permissionless,
    {
        GovernanceModel::Permissionless
    }
}

/// Where a proposal stands in its life.
#[derive(Clone, Copy, Debug, PartialEq, Eq, Structural)]
pub enum ProposalStatus {
    Active,
    Approved,
    Rejected,
    Expired,
    Executed,
}

impl ProposalStatus {
    /// No operation changes a proposal that has reached one of these.
    pub open spec fn is_terminal(self) -> bool {
        self == ProposalStatus::Rejected || self == ProposalStatus::Expired || self
            == ProposalStatus::Executed
    }

    pub fn terminal(self) -> (t: bool)
        ensures
            t == self.is_terminal(),
    {
        match self {
            ProposalStatus::Rejected | ProposalStatus::Expired | ProposalStatus::Executed => true,
            _ => false,
        }
    }
}

/// The settings a collection is created or reconfigured with; identities are given as text.
#[derive(Debug)]
pub struct CollectionConfig {
    pub name: String,
    pub description: String,
    pub admins: Vec<String>,
    pub threshold: u32,
    pub governance_token: Option<String>,
    pub sns_governance_canister: Option<String>,
    pub governance_model: GovernanceModel,
    pub quorum_threshold: u32,
    pub is_permissionless: bool,
}

pub struct CollectionConfigView {
    pub name: Seq<char>,
    pub description: Seq<char>,
    pub admins: Seq<Seq<char>>,
    pub threshold: u32,
    pub governance_token: Option<Seq<char>>,
    pub sns_governance_canister: Option<Seq<char>>,
    pub governance_model: GovernanceModel,
    pub quorum_threshold: u32,
    pub is_permissionless: bool,
}

impl View for CollectionConfig {
    type V = CollectionConfigView;

    open spec fn view(&self) -> CollectionConfigView {
        CollectionConfigView {
            name: self.name@,
            description: self.description@,
            admins: self.admins.deep_view(),
            threshold: self.threshold,
            governance_token: self.governance_token.deep_view(),
            sns_governance_canister: self.sns_governance_canister.deep_view(),
            governance_model: self.governance_model,
            quorum_threshold: self.quorum_threshold,
            is_permissionless: self.is_permissionless,
        }
    }
}

impl DeepView for CollectionConfig {
    type V = CollectionConfigView;

    open spec fn deep_view(&self) -> CollectionConfigView {
        self@
    }
}

/// A copy of a list of strings.
pub fn clone_strings(items: &Vec<String>) -> (out: Vec<String>)
    ensures
        out.deep_view() == items.deep_view(),
{
    let mut out: Vec<String> = Vec::new();
    let mut i: usize = 0;
    while i < items.len()
        invariant
            i <= items.len(),
            out.len() == i,
            forall|j: int| 0 <= j < i ==> out[j]@ == items[j]@,
        decreases items.len() - i,
    {
        out.push(items[i].clone());
        i += 1;
    }
    assert(out.deep_view() =~= items.deep_view());
    out
}

/// A copy of an optional string.
pub fn clone_opt_string(item: &Option<String>) -> (out: Option<String>)
    ensures
        out.deep_view() == item.deep_view(),
{
    match item {
        Some(s) => Some(s.clone()),
        None => None,
    }
}

impl Clone for CollectionConfig {
    fn clone(&self) -> (out: Self)
        ensures
            out@ == self@,
    {
        CollectionConfig {
            name: self.name.clone(),
            description: self.description.clone(),
            admins: clone_strings(&self.admins),
            threshold: self.threshold,
            governance_token: clone_opt_string(&self.governance_token),
            sns_governance_canister: clone_opt_string(&self.sns_governance_canister),
            governance_model: self.governance_model,
            quorum_threshold: self.quorum_threshold,
            is_permissionless: self.is_permissionless,
        }
    }
}

/// What a proposal asks for.
#[derive(Debug)]
pub enum ProposalType {
    EmbedDocument { documents: Vec<String> },
    BatchEmbed { document_ids: Vec<String> },
    AddAdmin { admin: Principal },
    RemoveAdmin { admin: Principal },
    ChangeThreshold { new_threshold: u32 },
    UpdateQuorum { new_percentage: u32 },
    UpdateCollection { config: CollectionConfig },
    ChangeGovernanceModel { model: GovernanceModel },
    DeleteCollection,
}

pub enum ProposalTypeView {
    EmbedDocument { documents: Seq<Seq<char>> },
    BatchEmbed { document_ids: Seq<Seq<char>> },
    AddAdmin { admin: Principal },
    RemoveAdmin { admin: Principal },
    ChangeThreshold { new_threshold: u32 },
    UpdateQuorum { new_percentage: u32 },
    UpdateCollection { config: CollectionConfigView },
    ChangeGovernanceModel { model: GovernanceModel },
    DeleteCollection,
}

impl ProposalTypeView {
    /// The documents to embed, for the two kinds that embed; empty for the others.
    pub open spec fn documents(self) -> Seq<Seq<char>> {
        match self {
            ProposalTypeView::EmbedDocument { documents } => documents,
            ProposalTypeView::BatchEmbed { document_ids } => document_ids,
            _ => Seq::empty(),
        }
    }

    /// Embedding is paid for; the administrative kinds are not.
    pub open spec fn is_billable(self) -> bool {
        self is EmbedDocument || self is BatchEmbed
    }
}

impl View for ProposalType {
    type V = ProposalTypeView;

    open spec fn view(&self) -> ProposalTypeView {
        match self {
            ProposalType::EmbedDocument { documents } => ProposalTypeView::EmbedDocument {
                documents: documents.deep_view(),
            },
            ProposalType::BatchEmbed { document_ids } => ProposalTypeView::BatchEmbed {
                document_ids: document_ids.deep_view(),
            },
            ProposalType::AddAdmin { admin } => ProposalTypeView::AddAdmin { admin: *admin },
            ProposalType::RemoveAdmin { admin } => ProposalTypeView::RemoveAdmin { admin: *admin },
            ProposalType::ChangeThreshold { new_threshold } => ProposalTypeView::ChangeThreshold {
                new_threshold: *new_threshold,
            },
            ProposalType::UpdateQuorum { new_percentage } => ProposalTypeView::UpdateQuorum {
                new_percentage: *new_percentage,
            },
            ProposalType::UpdateCollection { config } => ProposalTypeView::UpdateCollection {
                config: config@,
            },
            ProposalType::ChangeGovernanceModel { model } => ProposalTypeView::ChangeGovernanceModel {
                model: *model,
            },
            ProposalType::DeleteCollection => ProposalTypeView::DeleteCollection,
        }
    }
}

impl Clone for ProposalType {
    fn clone(&self) -> (out: Self)
        ensures
            out@ == self@,
    {
        match self {
            ProposalType::EmbedDocument { documents } => ProposalType::EmbedDocument {
                documents: clone_strings(documents),
            },
            ProposalType::BatchEmbed { document_ids } => ProposalType::BatchEmbed {
                document_ids: clone_strings(document_ids),
            },
            ProposalType::AddAdmin { admin } => ProposalType::AddAdmin { admin: *admin },
            ProposalType::RemoveAdmin { admin } => ProposalType::RemoveAdmin { admin: *admin },
            ProposalType::ChangeThreshold { new_threshold } => ProposalType::ChangeThreshold {
                new_threshold: *new_threshold,
            },
            ProposalType::UpdateQuorum { new_percentage } => ProposalType::UpdateQuorum {
                new_percentage: *new_percentage,
            },
            ProposalType::UpdateCollection { config } => ProposalType::UpdateCollection {
                config: config.clone(),
            },
            ProposalType::ChangeGovernanceModel { model } => ProposalType::ChangeGovernanceModel {
                model: *model,
            },
            ProposalType::DeleteCollection => ProposalType::DeleteCollection,
        }
    }
}


/// A vote entry: who voted and how.
pub type VoteEntry = (Principal, Vote);

/// A weight entry: who voted and the token balance they held when they did.
pub type WeightEntry = (Principal, u128);

/// A request to change a collection, with the votes taken on it.
#[derive(Debug)]
pub struct Proposal {
    pub id: ProposalId,
    pub collection_id: CollectionId,
    pub proposal_type: ProposalType,
    pub creator: Principal,
    pub description: String,
    pub created_at: u64,
    pub expires_at: u64,
    pub status: ProposalStatus,
    /// One entry for each principal that voted.
    pub votes: Vec<VoteEntry>,
    /// Under token-weighted governance, the balance of each voter at the time of the vote.
    pub token_votes: Vec<WeightEntry>,
    pub executed: bool,
    pub executed_at: Option<u64>,
    pub executed_by: Option<Principal>,
    /// The collection's threshold when the proposal was created.
    pub threshold: u32,
    pub threshold_met: bool,
    /// The reference under which an external decision body knows this proposal.
    pub sns_proposal_id: Option<u64>,
}

pub struct ProposalView {
    pub id: Seq<char>,
    pub collection_id: Seq<char>,
    pub proposal_type: ProposalTypeView,
    pub creator: Principal,
    pub description: Seq<char>,
    pub created_at: u64,
    pub expires_at: u64,
    pub status: ProposalStatus,
    pub votes: Seq<VoteEntry>,
    pub token_votes: Seq<WeightEntry>,
    pub executed: bool,
    pub executed_at: Option<u64>,
    pub executed_by: Option<Principal>,
    pub threshold: u32,
    pub threshold_met: bool,
    pub sns_proposal_id: Option<u64>,
}

impl View for Proposal {
    type V = ProposalView;

    open spec fn view(&self) -> ProposalView {
        ProposalView {
            id: self.id@,
            collection_id: self.collection_id@,
            proposal_type: self.proposal_type@,
            creator: self.creator,
            description: self.description@,
            created_at: self.created_at,
            expires_at: self.expires_at,
            status: self.status,
            votes: self.votes@,
            token_votes: self.token_votes@,
            executed: self.executed,
            executed_at: self.executed_at,
            executed_by: self.executed_by,
            threshold: self.threshold,
            threshold_met: self.threshold_met,
            sns_proposal_id: self.sns_proposal_id,
        }
    }
}

impl DeepView for Proposal {
    type V = ProposalView;

    open spec fn deep_view(&self) -> ProposalView {
        self@
    }
}

/// No principal has two entries in `entries`.
pub open spec fn distinct_voters<T>(entries: Seq<(Principal, T)>) -> bool {
    forall|i: int, j: int|
        0 <= i < entries.len() && 0 <= j < entries.len() && i != j ==> entries[i].0 != entries[j].0
}

/// Some entry of `entries` belongs to `who`.
pub open spec fn has_entry<T>(entries: Seq<(Principal, T)>, who: Principal) -> bool {
    exists|i: int| 0 <= i < entries.len() && entries[i].0 == who
}

impl ProposalView {
    /// Each principal has at most one vote and at most one weight, a weight is
    /// kept only beside a vote, a proposal marked as executed has the status
    /// Executed, and one that is not names no executor and no time of execution.
    pub open spec fn wf(self) -> bool {
        &&& distinct_voters(self.votes)
        &&& distinct_voters(self.token_votes)
        &&& forall|i: int|
            0 <= i < self.token_votes.len() ==> has_entry(
                self.votes,
                (#[trigger] self.token_votes[i]).0,
            )
        &&& self.executed ==> self.status == ProposalStatus::Executed
        &&& !self.executed ==> self.executed_at is None && self.executed_by is None
    }

}

impl Clone for Proposal {
    fn clone(&self) -> (out: Self)
        ensures
            out@ == self@,
    {
        let votes = slice_to_vec(self.votes.as_slice());
        let token_votes = slice_to_vec(self.token_votes.as_slice());
        Proposal {
            id: self.id.clone(),
            collection_id: self.collection_id.clone(),
            proposal_type: self.proposal_type.clone(),
            creator: self.creator,
            description: self.description.clone(),
            created_at: self.created_at,
            expires_at: self.expires_at,
            status: self.status,
            votes,
            token_votes,
            executed: self.executed,
            executed_at: self.executed_at,
            executed_by: self.executed_by,
            threshold: self.threshold,
            threshold_met: self.threshold_met,
            sns_proposal_id: self.sns_proposal_id,
        }
    }
}

/// A governed resource: its settings, its administrators and its proposals.
#[derive(Debug)]
pub struct Collection {
    pub id: CollectionId,
    pub name: String,
    pub description: String,
    pub creator: Principal,
    pub created_at: u64,
    pub updated_at: u64,
    pub admins: Vec<Principal>,
    pub threshold: u32,
    pub governance_token: Option<Principal>,
    pub sns_governance_canister: Option<Principal>,
    pub governance_model: GovernanceModel,
    pub quorum_threshold: u32,
    pub is_permissionless: bool,
    /// The name under which the document service knows this collection.
    pub blueband_collection_id: String,
    /// The proposals of this collection, each under its own id.
    pub proposals: Vec<Proposal>,
    pub cycles_balance: u64,
    pub proposal_counter: u64,
}

pub struct CollectionView {
    pub id: Seq<char>,
    pub name: Seq<char>,
    pub description: Seq<char>,
    pub creator: Principal,
    pub created_at: u64,
    pub updated_at: u64,
    pub admins: Seq<Principal>,
    pub threshold: u32,
    pub governance_token: Option<Principal>,
    pub sns_governance_canister: Option<Principal>,
    pub governance_model: GovernanceModel,
    pub quorum_threshold: u32,
    pub is_permissionless: bool,
    pub blueband_collection_id: Seq<char>,
    pub proposals: Seq<ProposalView>,
    pub cycles_balance: u64,
    pub proposal_counter: u64,
}

impl View for Collection {
    type V = CollectionView;

    open spec fn view(&self) -> CollectionView {
        CollectionView {
            id: self.id@,
            name: self.name@,
            description: self.description@,
            creator: self.creator,
            created_at: self.created_at,
            updated_at: self.updated_at,
            admins: self.admins@,
            threshold: self.threshold,
            governance_token: self.governance_token,
            sns_governance_canister: self.sns_governance_canister,
            governance_model: self.governance_model,
            quorum_threshold: self.quorum_threshold,
            is_permissionless: self.is_permissionless,
            blueband_collection_id: self.blueband_collection_id@,
            proposals: self.proposals.deep_view(),
            cycles_balance: self.cycles_balance,
            proposal_counter: self.proposal_counter,
        }
    }
}

impl DeepView for Collection {
    type V = CollectionView;

    open spec fn deep_view(&self) -> CollectionView {
        self@
    }
}

impl CollectionView {
    /// The ids of the proposals, in the order in which they are kept.
    pub open spec fn proposal_ids(self) -> Seq<Seq<char>> {
        self.proposals.map_values(|p: ProposalView| p.id)
    }

    /// The place of the proposal called `id`, if there is one.
    pub open spec fn proposal_position(self, id: Seq<char>) -> Option<int> {
        position(self.proposal_ids(), id)
    }

    /// The proposal called `id`, if there is one.
    pub open spec fn proposal(self, id: Seq<char>) -> Option<ProposalView> {
        match self.proposal_position(id) {
            Some(i) => Some(self.proposals[i]),
            None => None,
        }
    }

    /// The collection with `p` in the place of the proposal of the same id,
    /// or behind the others where there is none.
    pub open spec fn put_proposal(self, p: ProposalView) -> CollectionView {
        match self.proposal_position(p.id) {
            Some(i) => CollectionView { proposals: self.proposals.update(i, p), ..self },
            None => CollectionView { proposals: self.proposals.push(p), ..self },
        }
    }

    /// No two proposals share an id, and each proposal is well formed.
    pub open spec fn wf(self) -> bool {
        &&& distinct(self.proposal_ids())
        &&& forall|i: int| 0 <= i < self.proposals.len() ==> (#[trigger] self.proposals[i]).wf()
    }

    pub open spec fn is_admin(self, who: Principal) -> bool {
        self.admins.contains(who)
    }
}

impl Collection {
    /// Where the proposal called `id` is kept.
    pub fn find_proposal(&self, id: &str) -> (r: Option<usize>)
        ensures
            match r {
                Some(i) => self@.proposal_position(id@) == Some(i as int) && i < self.proposals.len(),
                None => self@.proposal_position(id@) is None,
            },
    {
        let mut i: usize = 0;
        while i < self.proposals.len()
            invariant
                i <= self.proposals.len(),
                forall|j: int| 0 <= j < i ==> self@.proposal_ids()[j] != id@,
            decreases self.proposals.len() - i,
        {
            if same_text(self.proposals[i].id.as_str(), id) {
                proof {
                    assert(self@.proposal_ids()[i as int] == id@);
                    lemma_position_found(self@.proposal_ids(), id@, i as int);
                }
                return Some(i);
            }
            i += 1;
        }
        proof {
            lemma_position_absent(self@.proposal_ids(), id@);
        }
        None
    }

    /// Whether `who` administers the collection.
    pub fn is_admin(&self, who: Principal) -> (r: bool)
        ensures
            r == self@.is_admin(who),
    {
        let mut i: usize = 0;
        while i < self.admins.len()
            invariant
                i <= self.admins.len(),
                forall|j: int| 0 <= j < i ==> self.admins@[j] != who,
            decreases self.admins.len() - i,
        {
            if self.admins[i] == who {
                return true;
            }
            i += 1;
        }
        false
    }
}

impl Default for Collection {
    /// An empty, permissionless collection created by nobody at time zero.
    fn default() -> (c: Collection)
        ensures
            c@.wf(),
            c@.id == Seq::<char>::empty(),
            c@.name == Seq::<char>::empty(),
            c@.description == Seq::<char>::empty(),
            c@.creator@ == seq![4u8],
            c@.created_at == 0 && c@.updated_at == 0,
            c@.admins == Seq::<Principal>::empty(),
            c@.threshold == 0 && c@.quorum_threshold == 0,
            c@.governance_token is None && c@.sns_governance_canister is None,
            c@.governance_model == GovernanceModel::Permissionless,
            !c@.is_permissionless,
            c@.blueband_collection_id == Seq::<char>::empty(),
            c@.proposals == Seq::<ProposalView>::empty(),
            c@.cycles_balance == 0 && c@.proposal_counter == 0,
    {
        let c = Collection {
            id: String::new(),
            name: String::new(),
            description: String::new(),
            creator: Principal::anonymous(),
            created_at: 0,
            updated_at: 0,
            admins: Vec::new(),
            threshold: 0,
            governance_token: None,
            sns_governance_canister: None,
            governance_model: GovernanceModel::Permissionless,
            quorum_threshold: 0,
            is_permissionless: false,
            blueband_collection_id: String::new(),
            proposals: Vec::new(),
            cycles_balance: 0,
            proposal_counter: 0,
        };
        assert(c@.proposals =~= Seq::<ProposalView>::empty());
        c
    }
}

/// A copy of a list of proposals.
pub fn clone_proposals(items: &Vec<Proposal>) -> (out: Vec<Proposal>)
    ensures
        out.deep_view() == items.deep_view(),
{
    let mut out: Vec<Proposal> = Vec::new();
    let mut i: usize = 0;
    while i < items.len()
        invariant
            i <= items.len(),
            out.len() == i,
            forall|j: int| 0 <= j < i ==> out[j]@ == items[j]@,
        decreases items.len() - i,
    {
        out.push(items[i].clone());
        i += 1;
    }
    assert(out.deep_view() =~= items.deep_view());
    out
}

impl Clone for Collection {
    fn clone(&self) -> (out: Self)
        ensures
            out@ == self@,
    {
        let admins = slice_to_vec(self.admins.as_slice());
        Collection {
            id: self.id.clone(),
            name: self.name.clone(),
            description: self.description.clone(),
            creator: self.creator,
            created_at: self.created_at,
            updated_at: self.updated_at,
            admins,
            threshold: self.threshold,
            governance_token: self.governance_token,
            sns_governance_canister: self.sns_governance_canister,
            governance_model: self.governance_model,
            quorum_threshold: self.quorum_threshold,
            is_permissionless: self.is_permissionless,
            blueband_collection_id: self.blueband_collection_id.clone(),
            proposals: clone_proposals(&self.proposals),
            cycles_balance: self.cycles_balance,
            proposal_counter: self.proposal_counter,
        }
    }
}

/// Why an operation did not do what was asked.
#[derive(Debug)]
pub enum ClanopediaError {
    NotFound(String),
    NotAuthorized,
    InvalidProposalState(String),
    ProposalExpired,
    ThresholdNotMet,
    InsufficientCycles(String),
    ExternalCallError(String),
    StorageError(String),
    InvalidArgument(String),
    AlreadyExists(String),
    InvalidOperation(String),
    BluebandError(String),
    Unauthorized(String),
    InvalidInput(String),
    ProposalAlreadyExecuted,
    SnsError(String),
    SnsNotConfigured,
}

/// The kind of an error, without its message.
#[derive(Clone, Copy, Debug, PartialEq, Eq, Structural)]
pub enum ErrorKind {
    NotFound,
    NotAuthorized,
    InvalidProposalState,
    ProposalExpired,
    ThresholdNotMet,
    InsufficientCycles,
    ExternalCallError,
    StorageError,
    InvalidArgument,
    AlreadyExists,
    InvalidOperation,
    BluebandError,
    Unauthorized,
    InvalidInput,
    ProposalAlreadyExecuted,
    SnsError,
    SnsNotConfigured,
}

impl ClanopediaError {
    pub open spec fn spec_kind(&self) -> ErrorKind {
        match self {
            ClanopediaError::NotFound(_) => ErrorKind::NotFound,
            ClanopediaError::NotAuthorized => ErrorKind::NotAuthorized,
            ClanopediaError::InvalidProposalState(_) => ErrorKind::InvalidProposalState,
            ClanopediaError::ProposalExpired => ErrorKind::ProposalExpired,
            ClanopediaError::ThresholdNotMet => ErrorKind::ThresholdNotMet,
            ClanopediaError::InsufficientCycles(_) => ErrorKind::InsufficientCycles,
            ClanopediaError::ExternalCallError(_) => ErrorKind::ExternalCallError,
            ClanopediaError::StorageError(_) => ErrorKind::StorageError,
            ClanopediaError::InvalidArgument(_) => ErrorKind::InvalidArgument,
            ClanopediaError::AlreadyExists(_) => ErrorKind::AlreadyExists,
            ClanopediaError::InvalidOperation(_) => ErrorKind::InvalidOperation,
            ClanopediaError::BluebandError(_) => ErrorKind::BluebandError,
            ClanopediaError::Unauthorized(_) => ErrorKind::Unauthorized,
            ClanopediaError::InvalidInput(_) => ErrorKind::InvalidInput,
            ClanopediaError::ProposalAlreadyExecuted => ErrorKind::ProposalAlreadyExecuted,
            ClanopediaError::SnsError(_) => ErrorKind::SnsError,
            ClanopediaError::SnsNotConfigured => ErrorKind::SnsNotConfigured,
        }
    }

    /// The message that the error carries; empty for the kinds that carry none.
    pub open spec fn spec_message(&self) -> Seq<char> {
        match self {
            ClanopediaError::NotFound(m) => m@,
            ClanopediaError::InvalidProposalState(m) => m@,
            ClanopediaError::InsufficientCycles(m) => m@,
            ClanopediaError::ExternalCallError(m) => m@,
            ClanopediaError::StorageError(m) => m@,
            ClanopediaError::InvalidArgument(m) => m@,
            ClanopediaError::AlreadyExists(m) => m@,
            ClanopediaError::InvalidOperation(m) => m@,
            ClanopediaError::BluebandError(m) => m@,
            ClanopediaError::Unauthorized(m) => m@,
            ClanopediaError::InvalidInput(m) => m@,
            ClanopediaError::SnsError(m) => m@,
            _ => Seq::empty(),
        }
    }

    #[verifier::when_used_as_spec(spec_kind)]
    pub fn kind(&self) -> (k: ErrorKind)
        ensures
            k == self.spec_kind(),
    {
        match self {
            ClanopediaError::NotFound(_) => ErrorKind::NotFound,
            ClanopediaError::NotAuthorized => ErrorKind::NotAuthorized,
            ClanopediaError::InvalidProposalState(_) => ErrorKind::InvalidProposalState,
            ClanopediaError::ProposalExpired => ErrorKind::ProposalExpired,
            ClanopediaError::ThresholdNotMet => ErrorKind::ThresholdNotMet,
            ClanopediaError::InsufficientCycles(_) => ErrorKind::InsufficientCycles,
            ClanopediaError::ExternalCallError(_) => ErrorKind::ExternalCallError,
            ClanopediaError::StorageError(_) => ErrorKind::StorageError,
            ClanopediaError::InvalidArgument(_) => ErrorKind::InvalidArgument,
            ClanopediaError::AlreadyExists(_) => ErrorKind::AlreadyExists,
            ClanopediaError::InvalidOperation(_) => ErrorKind::InvalidOperation,
            ClanopediaError::BluebandError(_) => ErrorKind::BluebandError,
            ClanopediaError::Unauthorized(_) => ErrorKind::Unauthorized,
            ClanopediaError::InvalidInput(_) => ErrorKind::InvalidInput,
            ClanopediaError::ProposalAlreadyExecuted => ErrorKind::ProposalAlreadyExecuted,
            ClanopediaError::SnsError(_) => ErrorKind::SnsError,
            ClanopediaError::SnsNotConfigured => ErrorKind::SnsNotConfigured,
        }
    }
}

/// The kind of the error in `r`, or `None` where `r` is `Ok`.
pub open spec fn failure<T>(r: ClanopediaResult<T>) -> Option<ErrorKind> {
    match r {
        Ok(_) => None,
        Err(e) => Some(e.spec_kind()),
    }
}

/// What the store of records can report.
#[derive(Debug)]
pub enum StorageError {
    NotFound,
    AlreadyExists,
    Other(String),
}


/// The weight behind each side of a token-weighted vote.
#[derive(Clone, Copy, Debug)]
pub struct TokenVoteCount {
    pub total_yes: u128,
    pub total_no: u128,
    pub total_supply: u128,
}

/// A document as the document service keeps it.
#[derive(Clone, Debug)]
pub struct BluebandDocument {
    pub id: DocumentId,
    pub title: String,
    pub content: String,
    pub embedded: bool,
    pub created_at: u64,
}

/// How to reach a collection at the document service.
#[derive(Clone, Debug)]
pub struct BluebandConfig {
    pub collection: String,
    pub api_key: Option<String>,
}

/// The settings of a governance model.
#[derive(Clone, Copy, Debug)]
pub struct GovernanceModelConfig {
    pub is_permissionless: bool,
    pub governance_token: Option<Principal>,
    pub quorum_threshold: u32,
    pub threshold: u32,
}

/// The two balances and whether each is at or above its minimum.
#[derive(Clone, Copy, Debug, PartialEq, Eq, Structural)]
pub struct CyclesStatus {
    pub clanopedia_balance: u64,
    pub blueband_balance: u64,
    pub clanopedia_healthy: bool,
    pub blueband_healthy: bool,
}

/// The price list of an operation.
#[derive(Clone, Copy, Debug, PartialEq, Eq, Structural)]
pub struct OperationCost {
    pub base_cost: u64,
    pub per_doc_cost: u64,
    pub buffer_percentage: u32,
}

/// What an operation is estimated to cost.
#[derive(Clone, Copy, Debug, PartialEq, Eq, Structural)]
pub struct CostMetrics {
    pub base_cost: u64,
    pub total_cost: u64,
    pub per_doc_cost: u64,
    pub buffer_amount: u64,
}


/// A document as a caller hands it in.
#[derive(Clone, Debug)]
pub struct DocumentRequest {
    pub title: String,
    pub content: String,
    pub content_type: Option<crate::external::blueband::ContentType>,
    pub source_url: Option<String>,
    pub author: Option<String>,
    pub tags: Option<Vec<String>>,
}


impl ClanopediaError {
    /// The sentence that tells the error.
    pub open spec fn spec_to_string(&self) -> Seq<char> {
        match self {
            ClanopediaError::NotFound(m) => "Not found: "@ + m@,
            ClanopediaError::NotAuthorized => "Not authorized"@,
            ClanopediaError::InvalidProposalState(m) => "Invalid proposal state: "@ + m@,
            ClanopediaError::ProposalExpired => "Proposal has expired"@,
            ClanopediaError::ThresholdNotMet => "Voting threshold not met"@,
            ClanopediaError::InsufficientCycles(m) => "Insufficient cycles: "@ + m@,
            ClanopediaError::ExternalCallError(m) => "External call error: "@ + m@,
            ClanopediaError::StorageError(m) => "Storage error: "@ + debug_form(m@),
            ClanopediaError::InvalidArgument(m) => "Invalid argument: "@ + m@,
            ClanopediaError::AlreadyExists(m) => "Already exists: "@ + m@,
            ClanopediaError::InvalidOperation(m) => "Invalid operation: "@ + m@,
            ClanopediaError::BluebandError(m) => "Blueband error: "@ + m@,
            ClanopediaError::Unauthorized(m) => "Unauthorized: "@ + m@,
            ClanopediaError::InvalidInput(m) => "Invalid input: "@ + m@,
            ClanopediaError::ProposalAlreadyExecuted => "Proposal already executed"@,
            ClanopediaError::SnsError(m) => "SNS error: "@ + m@,
            ClanopediaError::SnsNotConfigured => "SNS not configured"@,
        }
    }

    /// The sentence that tells the error.
    pub fn to_string(&self) -> (s: String)
        ensures
            s@ == self.spec_to_string(),
    {
        match self {
            ClanopediaError::NotFound(m) => concat2("Not found: ", m.as_str()),
            ClanopediaError::NotAuthorized => String::from_str("Not authorized"),
            ClanopediaError::InvalidProposalState(m) => concat2(
                "Invalid proposal state: ",
                m.as_str(),
            ),
            ClanopediaError::ProposalExpired => String::from_str("Proposal has expired"),
            ClanopediaError::ThresholdNotMet => String::from_str("Voting threshold not met"),
            ClanopediaError::InsufficientCycles(m) => concat2("Insufficient cycles: ", m.as_str()),
            ClanopediaError::ExternalCallError(m) => concat2("External call error: ", m.as_str()),
            ClanopediaError::StorageError(m) => {
                let quoted = debug_text(m.as_str());
                concat2("Storage error: ", quoted.as_str())
            },
            ClanopediaError::InvalidArgument(m) => concat2("Invalid argument: ", m.as_str()),
            ClanopediaError::AlreadyExists(m) => concat2("Already exists: ", m.as_str()),
            ClanopediaError::InvalidOperation(m) => concat2("Invalid operation: ", m.as_str()),
            ClanopediaError::BluebandError(m) => concat2("Blueband error: ", m.as_str()),
            ClanopediaError::Unauthorized(m) => concat2("Unauthorized: ", m.as_str()),
            ClanopediaError::InvalidInput(m) => concat2("Invalid input: ", m.as_str()),
            ClanopediaError::ProposalAlreadyExecuted => String::from_str("Proposal already executed"),
            ClanopediaError::SnsError(m) => concat2("SNS error: ", m.as_str()),
            ClanopediaError::SnsNotConfigured => String::from_str("SNS not configured"),
        }
    }
}

impl From<String> for ClanopediaError {
    /// A bare message says that something was not found.
    fn from(err: String) -> (e: ClanopediaError) {
        ClanopediaError::NotFound(err)
    }
}

impl vstd::std_specs::convert::FromSpecImpl<String> for ClanopediaError {
    open spec fn obeys_from_spec() -> bool {
        true
    }

    open spec fn from_spec(err: String) -> ClanopediaError {
        ClanopediaError::NotFound(err)
    }
}

/// The error that a failure of the store of records becomes.
pub fn from_storage_error(err: StorageError) -> (e: ClanopediaError)
    ensures
        match err {
            StorageError::NotFound => e.spec_kind() == ErrorKind::NotFound && e.spec_message()
                == "Resource not found"@,
            StorageError::AlreadyExists => e.spec_kind() == ErrorKind::AlreadyExists
                && e.spec_message() == "Resource already exists"@,
            StorageError::Other(message) => e == ClanopediaError::StorageError(message),
        },
{
    match err {
        StorageError::NotFound => ClanopediaError::NotFound(String::from_str("Resource not found")),
        StorageError::AlreadyExists => ClanopediaError::AlreadyExists(
            String::from_str("Resource already exists"),
        ),
        StorageError::Other(message) => ClanopediaError::StorageError(message),
    }
}

} // verus!
