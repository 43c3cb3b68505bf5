//! The changes that an executed proposal makes to its collection.

use vstd::prelude::*;

use crate::keys::lemma_position;
use crate::storage::{
    collection_not_found, config_is_malformed, parse_optional_principal, parse_principals,
    parsed_optional, parsed_principals, Registry, RegistryView,
};
use crate::types::{
    failure, ClanopediaError, ClanopediaResult, CollectionConfig,
    CollectionConfigView, CollectionView, ErrorKind, GovernanceModel, Principal, ProposalType,
    ProposalTypeView,
};

verus! {

/// `admins` without every entry equal to `who`, the others in their order.
pub open spec fn without_admin(admins: Seq<Principal>, who: Principal) -> Seq<Principal>
    decreases admins.len(),
{
    if admins.len() == 0 {
        Seq::empty()
    } else if admins.last() == who {
        without_admin(admins.drop_last(), who)
    } else {
        without_admin(admins.drop_last(), who).push(admins.last())
    }
}

/// `c` with `admin` among its administrators: behind the others, unless it is there already.
pub open spec fn add_admin(c: CollectionView, admin: Principal) -> Result<CollectionView, ErrorKind> {
    if c.admins.contains(admin) {
        Ok(c)
    } else {
        Ok(CollectionView { admins: c.admins.push(admin), ..c })
    }
}

/// `c` without `admin` among its administrators; refused where `c` has one
/// administrator or none, and where no administrator would be left.
pub open spec fn remove_admin(c: CollectionView, admin: Principal) -> Result<
    CollectionView,
    ErrorKind,
> {
    if c.admins.len() <= 1 || without_admin(c.admins, admin).len() == 0 {
        Err(ErrorKind::InvalidInput)
    } else {
        Ok(CollectionView { admins: without_admin(c.admins, admin), ..c })
    }
}

/// `c` with the threshold `new_threshold`; refused unless it is at least 1
/// and at most the number of administrators.
pub open spec fn change_threshold(c: CollectionView, new_threshold: u32) -> Result<
    CollectionView,
    ErrorKind,
> {
    if new_threshold == 0 || new_threshold > c.admins.len() {
        Err(ErrorKind::InvalidInput)
    } else {
        Ok(CollectionView { threshold: new_threshold, ..c })
    }
}

/// `c` with the quorum `new_percentage`; refused above 100.
pub open spec fn update_quorum(c: CollectionView, new_percentage: u32) -> Result<
    CollectionView,
    ErrorKind,
> {
    if new_percentage > 100 {
        Err(ErrorKind::InvalidInput)
    } else {
        Ok(CollectionView { quorum_threshold: new_percentage, ..c })
    }
}

/// `c` governed by `model`; administrator voting is refused where there is no
/// administrator or where the threshold is zero.
pub open spec fn change_governance_model(c: CollectionView, model: GovernanceModel) -> Result<
    CollectionView,
    ErrorKind,
> {
    if model == GovernanceModel::Multisig && (c.admins.len() == 0 || c.threshold == 0) {
        Err(ErrorKind::InvalidInput)
    } else {
        Ok(CollectionView { governance_model: model, ..c })
    }
}

/// The administrators that a reconfiguration by `config` leaves `c` with:
/// those that `config` names; where it names none, or where the text of one
/// names no identity, the administrators stay as they are.
pub open spec fn updated_admins(c: CollectionView, config: CollectionConfigView) -> Seq<Principal> {
    match parsed_principals(config.admins) {
        Some(admins) => if admins.len() == 0 {
            c.admins
        } else {
            admins
        },
        None => c.admins,
    }
}

/// `c` reconfigured by `config` at time `now`. Refused where the
/// configuration is malformed or names a governance token that is no
/// identity. A collection is never left without an administrator: where the
/// configuration names none, the administrators stay as they are.
pub open spec fn update_collection(c: CollectionView, config: CollectionConfigView, now: u64) -> Result<
    CollectionView,
    ErrorKind,
> {
    if config_is_malformed(config) {
        Err(ErrorKind::InvalidInput)
    } else {
        match parsed_optional(config.governance_token) {
            Err(_) => Err(ErrorKind::InvalidInput),
            Ok(token) => Ok(
                CollectionView {
                    name: config.name,
                    description: config.description,
                    admins: updated_admins(c, config),
                    threshold: config.threshold,
                    governance_token: token,
                    governance_model: config.governance_model,
                    quorum_threshold: config.quorum_threshold,
                    is_permissionless: config.is_permissionless,
                    updated_at: now,
                    ..c
                },
            ),
        }
    }
}

/// What carrying out `operation` in `c` makes of `c`. Embedding documents and
/// deleting the collection change nothing in the record itself.
pub open spec fn local_operation(c: CollectionView, operation: ProposalTypeView, now: u64) -> Result<
    CollectionView,
    ErrorKind,
> {
    match operation {
        ProposalTypeView::AddAdmin { admin } => add_admin(c, admin),
        ProposalTypeView::RemoveAdmin { admin } => remove_admin(c, admin),
        ProposalTypeView::ChangeThreshold { new_threshold } => change_threshold(c, new_threshold),
        ProposalTypeView::UpdateQuorum { new_percentage } => update_quorum(c, new_percentage),
        ProposalTypeView::ChangeGovernanceModel { model } => change_governance_model(c, model),
        ProposalTypeView::UpdateCollection { config } => update_collection(c, config, now),
        _ => Ok(c),
    }
}

/// How an operation on the collection called `id` shows in the result and in
/// the registry: a missing collection is reported; a refusal is reported and
/// changes nothing; a new record takes the place of the old one.
pub open spec fn applied(
    before: RegistryView,
    after: RegistryView,
    r: Option<ErrorKind>,
    id: Seq<char>,
    change: spec_fn(CollectionView) -> Result<CollectionView, ErrorKind>,
) -> bool {
    match before.collection(id) {
        None => r == Some(ErrorKind::NotFound) && after == before,
        Some(c) => match change(c) {
            Ok(changed) => r is None && after == before.replace(id, changed),
            Err(kind) => r == Some(kind) && after == before,
        },
    }
}

/// Makes `new_admin` an administrator of the collection called `collection_id`.
pub fn execute_add_admin(registry: &mut Registry, collection_id: &str, new_admin: Principal) -> (r:
    ClanopediaResult<()>)
    ensures
        applied(
            old(registry)@,
            final(registry)@,
            failure(r),
            collection_id@,
            |c: CollectionView| add_admin(c, new_admin),
        ),
{
    let ci = match registry.find(collection_id) {
        Some(ci) => ci,
        None => {
            return Err(collection_not_found(collection_id));
        },
    };
    let ghost before = registry@;
    proof {
        lemma_position(before.ids(), collection_id@);
    }
    if !registry.collections[ci].is_admin(new_admin) {
        registry.collections[ci].admins.push(new_admin);
        proof {
            let c = before.collections[ci as int];
            assert(registry@.collections =~= before.collections.update(
                ci as int,
                CollectionView { admins: c.admins.push(new_admin), ..c },
            ));
        }
    } else {
        proof {
            assert(before.collections =~= before.collections.update(
                ci as int,
                before.collections[ci as int],
            ));
        }
    }
    Ok(())
}

/// The entries of `admins` that differ from `who`, in order.
pub fn remove_from(admins: &Vec<Principal>, who: Principal) -> (out: Vec<Principal>)
    ensures
        out@ == without_admin(admins@, who),
{
    let mut out: Vec<Principal> = Vec::new();
    let mut i: usize = 0;
    while i < admins.len()
        invariant
            i <= admins.len(),
            out@ == without_admin(admins@.take(i as int), who),
        decreases admins.len() - i,
    {
        proof {
            assert(admins@.take(i + 1).drop_last() =~= admins@.take(i as int));
        }
        if admins[i] != who {
            out.push(admins[i]);
        }
        i += 1;
    }
    assert(admins@.take(admins.len() as int) =~= admins@);
    out
}

/// Takes `admin_to_remove` out of the administrators of the collection called
/// `collection_id`; the last administrator cannot be removed.
pub fn execute_remove_admin(
    registry: &mut Registry,
    collection_id: &str,
    admin_to_remove: Principal,
) -> (r: ClanopediaResult<()>)
    ensures
        applied(
            old(registry)@,
            final(registry)@,
            failure(r),
            collection_id@,
            |c: CollectionView| remove_admin(c, admin_to_remove),
        ),
{
    let ci = match registry.find(collection_id) {
        Some(ci) => ci,
        None => {
            return Err(collection_not_found(collection_id));
        },
    };
    let ghost before = registry@;
    proof {
        lemma_position(before.ids(), collection_id@);
    }
    if registry.collections[ci].admins.len() <= 1 {
        return Err(ClanopediaError::InvalidInput(String::from_str("Cannot remove the last admin")));
    }
    let remaining = remove_from(&registry.collections[ci].admins, admin_to_remove);
    if remaining.len() == 0 {
        return Err(ClanopediaError::InvalidInput(String::from_str("Cannot remove the last admin")));
    }
    registry.collections[ci].admins = remaining;
    proof {
        let c = before.collections[ci as int];
        assert(registry@.collections =~= before.collections.update(
            ci as int,
            CollectionView { admins: without_admin(c.admins, admin_to_remove), ..c },
        ));
    }
    Ok(())
}

/// Sets the number of Yes votes that administrators need.
pub fn execute_change_threshold(registry: &mut Registry, collection_id: &str, new_threshold: u32) -> (r:
    ClanopediaResult<()>)
    ensures
        applied(
            old(registry)@,
            final(registry)@,
            failure(r),
            collection_id@,
            |c: CollectionView| change_threshold(c, new_threshold),
        ),
{
    let ci = match registry.find(collection_id) {
        Some(ci) => ci,
        None => {
            return Err(collection_not_found(collection_id));
        },
    };
    let ghost before = registry@;
    proof {
        lemma_position(before.ids(), collection_id@);
    }
    if new_threshold == 0 || new_threshold as u128 > registry.collections[ci].admins.len() as u128 {
        return Err(
            ClanopediaError::InvalidInput(
                String::from_str("Invalid threshold: must be between 1 and the number of admins"),
            ),
        );
    }
    registry.collections[ci].threshold = new_threshold;
    proof {
        let c = before.collections[ci as int];
        assert(registry@.collections =~= before.collections.update(
            ci as int,
            CollectionView { threshold: new_threshold, ..c },
        ));
    }
    Ok(())
}

/// Sets the share of the total supply that token holders need.
pub fn execute_update_quorum(registry: &mut Registry, collection_id: &str, new_percentage: u32) -> (r:
    ClanopediaResult<()>)
    ensures
        applied(
            old(registry)@,
            final(registry)@,
            failure(r),
            collection_id@,
            |c: CollectionView| update_quorum(c, new_percentage),
        ),
{
    let ci = match registry.find(collection_id) {
        Some(ci) => ci,
        None => {
            return Err(collection_not_found(collection_id));
        },
    };
    let ghost before = registry@;
    proof {
        lemma_position(before.ids(), collection_id@);
    }
    if new_percentage > 100 {
        return Err(
            ClanopediaError::InvalidInput(String::from_str("Quorum percentage cannot exceed 100")),
        );
    }
    registry.collections[ci].quorum_threshold = new_percentage;
    proof {
        let c = before.collections[ci as int];
        assert(registry@.collections =~= before.collections.update(
            ci as int,
            CollectionView { quorum_threshold: new_percentage, ..c },
        ));
    }
    Ok(())
}

/// Sets the rule by which the collection decides.
pub fn execute_change_governance_model(
    registry: &mut Registry,
    collection_id: &str,
    new_model: GovernanceModel,
) -> (r: ClanopediaResult<()>)
    ensures
        applied(
            old(registry)@,
            final(registry)@,
            failure(r),
            collection_id@,
            |c: CollectionView| change_governance_model(c, new_model),
        ),
{
    let ci = match registry.find(collection_id) {
        Some(ci) => ci,
        None => {
            return Err(collection_not_found(collection_id));
        },
    };
    let ghost before = registry@;
    proof {
        lemma_position(before.ids(), collection_id@);
    }
    if new_model == GovernanceModel::Multisig {
        if registry.collections[ci].admins.len() == 0 {
            return Err(
                ClanopediaError::InvalidInput(
                    String::from_str("Multisig governance requires at least one admin"),
                ),
            );
        }
        if registry.collections[ci].threshold == 0 {
            return Err(
                ClanopediaError::InvalidInput(
                    String::from_str("Multisig governance requires a threshold of at least 1"),
                ),
            );
        }
    }
    registry.collections[ci].governance_model = new_model;
    proof {
        let c = before.collections[ci as int];
        assert(registry@.collections =~= before.collections.update(
            ci as int,
            CollectionView { governance_model: new_model, ..c },
        ));
    }
    Ok(())
}

/// Reconfigures the collection called `collection_id` at time `now`.
pub fn execute_update_collection(
    registry: &mut Registry,
    collection_id: &str,
    config: &CollectionConfig,
    now: u64,
) -> (r: ClanopediaResult<()>)
    ensures
        applied(
            old(registry)@,
            final(registry)@,
            failure(r),
            collection_id@,
            |c: CollectionView| update_collection(c, config@, now),
        ),
{
    let ci = match registry.find(collection_id) {
        Some(ci) => ci,
        None => {
            return Err(collection_not_found(collection_id));
        },
    };
    let ghost before = registry@;
    proof {
        lemma_position(before.ids(), collection_id@);
    }
    if (config.governance_model == GovernanceModel::Multisig && config.threshold == 0)
        || config.quorum_threshold > 100 {
        return Err(
            ClanopediaError::InvalidInput(
                String::from_str("The configuration asks for a threshold or a quorum out of range"),
            ),
        );
    }
    let governance_token = match parse_optional_principal(&config.governance_token) {
        Ok(token) => token,
        Err(_) => {
            return Err(
                ClanopediaError::InvalidInput(String::from_str("Invalid governance token principal")),
            );
        },
    };
    let parsed = parse_principals(&config.admins);
    let name = config.name.clone();
    let description = config.description.clone();
    let target = &mut registry.collections[ci];
    target.name = name;
    target.description = description;
    match parsed {
        Some(admins) => {
            if admins.len() > 0 {
                target.admins = admins;
            }
        },
        None => {},
    }
    target.threshold = config.threshold;
    target.governance_token = governance_token;
    target.governance_model = config.governance_model;
    target.quorum_threshold = config.quorum_threshold;
    target.is_permissionless = config.is_permissionless;
    target.updated_at = now;
    proof {
        let c = before.collections[ci as int];
        assert(registry@.collections =~= before.collections.update(
            ci as int,
            update_collection(c, config@, now)->Ok_0,
        ));
    }
    Ok(())
}

/// Whatever a proposal asks of the record of a collection, a collection that
/// had an administrator is left with one, under its id and with its
/// proposals; a change that is refused is no change.
pub proof fn lemma_operations_keep_an_administrator(
    c: CollectionView,
    operation: ProposalTypeView,
    now: u64,
)
    requires
        c.admins.len() > 0,
        local_operation(c, operation, now) is Ok,
    ensures
        ({
            let after = local_operation(c, operation, now)->Ok_0;
            &&& after.admins.len() > 0
            &&& after.id == c.id
            &&& after.proposals == c.proposals
        }),
{
}

/// A reconfiguration that is accepted leaves a collection that had an
/// administrator with one, with a quorum of at most 100 percent and, where
/// administrators vote, a threshold of at least 1; it keeps the id and the
/// proposals of the collection.
pub proof fn lemma_reconfiguration_keeps_an_administrator(
    c: CollectionView,
    config: CollectionConfigView,
    now: u64,
)
    requires
        c.admins.len() > 0,
        update_collection(c, config, now) is Ok,
    ensures
        ({
            let after = update_collection(c, config, now)->Ok_0;
            &&& after.admins.len() > 0
            &&& after.quorum_threshold <= 100
            &&& after.governance_model == GovernanceModel::Multisig ==> after.threshold >= 1
            &&& after.id == c.id
            &&& after.proposals == c.proposals
            &&& c.wf() ==> after.wf()
        }),
{
}

/// Carries out, in the collection called `collection_id`, what a proposal of
/// kind `proposal_type` asks of the record itself.
pub fn execute_proposal_operation(
    registry: &mut Registry,
    proposal_type: &ProposalType,
    collection_id: &str,
    now: u64,
) -> (r: ClanopediaResult<()>)
    ensures
        applied(
            old(registry)@,
            final(registry)@,
            failure(r),
            collection_id@,
            |c: CollectionView| local_operation(c, proposal_type@, now),
        ),
{
    let ghost before = registry@;
    match proposal_type {
        ProposalType::AddAdmin { admin } => execute_add_admin(registry, collection_id, *admin),
        ProposalType::RemoveAdmin { admin } => execute_remove_admin(registry, collection_id, *admin),
        ProposalType::ChangeThreshold { new_threshold } => execute_change_threshold(
            registry,
            collection_id,
            *new_threshold,
        ),
        ProposalType::UpdateQuorum { new_percentage } => execute_update_quorum(
            registry,
            collection_id,
            *new_percentage,
        ),
        ProposalType::ChangeGovernanceModel { model } => execute_change_governance_model(
            registry,
            collection_id,
            *model,
        ),
        ProposalType::UpdateCollection { config } => execute_update_collection(
            registry,
            collection_id,
            config,
            now,
        ),
        _ => {
            match registry.find(collection_id) {
                Some(ci) => {
                    proof {
                        lemma_position(before.ids(), collection_id@);
                        assert(before.collections =~= before.collections.update(
                            ci as int,
                            before.collections[ci as int],
                        ));
                    }
                    Ok(())
                },
                None => Err(collection_not_found(collection_id)),
            }
        },
    }
}

} // verus!
