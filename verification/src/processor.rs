use vstd::prelude::*;
use crate::error::RegistryError;
use crate::identity::Identity;
use crate::relationship::{AddAction, AddEvent, ListModel, RelationshipList};
use crate::slashing::{SlasherCap, SlashingLedger, SlashingModel};

verus! {

/// What `process_vault_add_avs` answers.
pub open spec fn vault_add_avs_action(
    config_restaking_program_signer: Identity,
    restaking_program_signer: Identity,
    avs: Identity,
    vault_avs_list: ListModel,
    event: AddEvent,
) -> AddAction {
    if config_restaking_program_signer != restaking_program_signer {
        AddAction::Finished(Err(RegistryError::UnauthorizedCaller))
    } else {
        vault_avs_list.add_action(avs, event)
    }
}

/// A service registers itself with a vault, at `slot`.
///
/// The call is trusted only if the signer that presents it is the signer of
/// the restaking program that the configuration names. The service is then
/// added to the vault's list of services, as `RelationshipList::add` does:
/// with the same answers, the same request for growth when the list is full,
/// and no change at all unless the answer is success.
pub fn process_vault_add_avs(
    config_restaking_program_signer: &Identity,
    restaking_program_signer: &Identity,
    avs: &Identity,
    vault_avs_list: &mut RelationshipList,
    slot: u64,
    event: AddEvent,
) -> (action: AddAction)
    requires
        old(vault_avs_list).wf(),
    ensures
        action == vault_add_avs_action(
            *config_restaking_program_signer,
            *restaking_program_signer,
            *avs,
            old(vault_avs_list)@,
            event,
        ),
        final(vault_avs_list)@ == if action == AddAction::Finished(Ok(())) {
            old(vault_avs_list)@.appended(*avs, slot)
        } else {
            old(vault_avs_list)@
        },
        final(vault_avs_list).wf(),
{
    if *config_restaking_program_signer != *restaking_program_signer {
        return AddAction::Finished(Err(RegistryError::UnauthorizedCaller));
    }
    vault_avs_list.add(*avs, slot, event)
}

/// What `process_avs_add_vault_slasher` answers.
pub open spec fn avs_add_vault_slasher_action(
    avs_admin: Identity,
    admin: Identity,
    avs_vault_list: ListModel,
    avs_slasher_list: ListModel,
    caps: SlashingModel,
    vault: Identity,
    slasher: Identity,
    event: AddEvent,
) -> AddAction {
    if avs_admin != admin {
        AddAction::Finished(Err(RegistryError::UnauthorizedCaller))
    } else if !avs_vault_list.has_active(vault) {
        AddAction::Finished(Err(RegistryError::RelationshipNotFound))
    } else if caps.has_cap(vault, slasher) {
        AddAction::Finished(Err(RegistryError::DuplicateRelationship))
    } else if avs_slasher_list.has_active(slasher) {
        AddAction::Finished(Ok(()))
    } else {
        avs_slasher_list.add_action(slasher, event)
    }
}

/// A service lets `slasher` slash `vault`, up to `max_slashable_per_epoch`
/// in each epoch, from `slot` on.
///
/// The checks are made in this order: the admin that signs is the admin of
/// the service; the vault has an active relationship in the service's list
/// of vaults; the vault and the slasher have no cap yet. Then the slasher is
/// added to the service's list of slashers, unless it is active there
/// already, and the cap of the vault and the slasher is recorded.
///
/// When the list of slashers is full, the first call changes nothing and
/// answers with the request for growth; both the list and the caps change
/// only in the call that answers success.
pub fn process_avs_add_vault_slasher(
    avs_admin: &Identity,
    admin: &Identity,
    avs_vault_list: &RelationshipList,
    avs_slasher_list: &mut RelationshipList,
    caps: &mut SlashingLedger,
    vault: &Identity,
    slasher: &Identity,
    slot: u64,
    max_slashable_per_epoch: u64,
    event: AddEvent,
) -> (action: AddAction)
    requires
        old(avs_slasher_list).wf(),
        old(caps).wf(),
    ensures
        action == avs_add_vault_slasher_action(
            *avs_admin,
            *admin,
            avs_vault_list@,
            old(avs_slasher_list)@,
            old(caps)@,
            *vault,
            *slasher,
            event,
        ),
        final(avs_slasher_list)@ == if action == AddAction::Finished(Ok(())) && !old(
            avs_slasher_list,
        )@.has_active(*slasher) {
            old(avs_slasher_list)@.appended(*slasher, slot)
        } else {
            old(avs_slasher_list)@
        },
        final(caps)@ == if action == AddAction::Finished(Ok(())) {
            SlashingModel {
                caps: old(caps)@.caps.push(
                    SlasherCap {
                        vault: *vault,
                        slasher: *slasher,
                        max_per_epoch: max_slashable_per_epoch,
                        slashed_this_epoch: 0,
                        epoch: slot,
                    },
                ),
            }
        } else {
            old(caps)@
        },
        final(avs_slasher_list).wf(),
        final(caps).wf(),
{
    if *avs_admin != *admin {
        return AddAction::Finished(Err(RegistryError::UnauthorizedCaller));
    }
    if !avs_vault_list.contains(vault) {
        return AddAction::Finished(Err(RegistryError::RelationshipNotFound));
    }
    if caps.cap(vault, slasher).is_some() {
        return AddAction::Finished(Err(RegistryError::DuplicateRelationship));
    }
    if !avs_slasher_list.contains(slasher) {
        let action = avs_slasher_list.add(*slasher, slot, event);
        match action {
            AddAction::Finished(Ok(_)) => {
                assert(avs_slasher_list@.entries[old(avs_slasher_list)@.entries.len() as int].binds(
                    *slasher,
                ));
            },
            _ => {
                return action;
            },
        }
    }
    let added = caps.add_slasher(*vault, *slasher, avs_slasher_list, max_slashable_per_epoch, slot);
    assert(added is Ok);
    AddAction::Finished(Ok(()))
}

} // verus!
