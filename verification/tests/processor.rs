use restaking_ledger::error::RegistryError;
use restaking_ledger::identity::Identity;
use restaking_ledger::processor::{process_avs_add_vault_slasher, process_vault_add_avs};
use restaking_ledger::relationship::{
    AddAction, AddEvent, GrowthRequest, RelationshipEntry, RelationshipList,
};
use restaking_ledger::slashing::{SlasherCap, SlashingLedger};

fn key(byte: u8) -> Identity {
    Identity::new([byte; 32])
}

fn list_with(owner: Identity, capacity: u32, counterparties: &[Identity]) -> RelationshipList {
    let mut list = RelationshipList::new(owner, capacity);
    for counterparty in counterparties {
        assert_eq!(list.add(*counterparty, 0, AddEvent::Start), AddAction::Finished(Ok(())));
    }
    list
}

#[test]
fn vault_add_avs_adds_the_service() {
    let mut list = RelationshipList::new(key(1), 2);
    let action = process_vault_add_avs(&key(9), &key(9), &key(2), &mut list, 77, AddEvent::Start);
    assert_eq!(action, AddAction::Finished(Ok(())));
    assert_eq!(
        list.get(0),
        Some(RelationshipEntry { counterparty: key(2), added_at: 77, removed_at: None })
    );
}

#[test]
fn vault_add_avs_refuses_another_signer() {
    let mut list = RelationshipList::new(key(1), 2);
    let action = process_vault_add_avs(&key(9), &key(8), &key(2), &mut list, 77, AddEvent::Start);
    assert_eq!(action, AddAction::Finished(Err(RegistryError::UnauthorizedCaller)));
    assert_eq!(list.len(), 0);
    let action =
        process_vault_add_avs(&key(9), &key(8), &key(2), &mut list, 77, AddEvent::GrowthGranted);
    assert_eq!(action, AddAction::Finished(Err(RegistryError::UnauthorizedCaller)));
    assert_eq!(list.len(), 0);
}

#[test]
fn vault_add_avs_refuses_a_service_that_is_active() {
    let mut list = list_with(key(1), 2, &[key(2)]);
    let action = process_vault_add_avs(&key(9), &key(9), &key(2), &mut list, 77, AddEvent::Start);
    assert_eq!(action, AddAction::Finished(Err(RegistryError::DuplicateRelationship)));
    assert_eq!(list.len(), 1);
}

#[test]
fn vault_add_avs_grows_a_full_list() {
    let mut list = list_with(key(1), 1, &[key(2)]);
    let action = process_vault_add_avs(&key(9), &key(9), &key(3), &mut list, 77, AddEvent::Start);
    assert_eq!(
        action,
        AddAction::RequestGrowth(GrowthRequest { list: key(1), additional_entries: 1 })
    );
    assert_eq!(list.len(), 1);
    let denied =
        process_vault_add_avs(&key(9), &key(9), &key(3), &mut list, 77, AddEvent::GrowthDenied);
    assert_eq!(denied, AddAction::Finished(Err(RegistryError::CapacityExceeded)));
    assert_eq!(list.len(), 1);
    let granted =
        process_vault_add_avs(&key(9), &key(9), &key(3), &mut list, 77, AddEvent::GrowthGranted);
    assert_eq!(granted, AddAction::Finished(Ok(())));
    assert_eq!(list.len(), 2);
    assert_eq!(list.capacity(), 2);
}

#[test]
fn avs_add_vault_slasher_registers_slasher_and_cap() {
    let vaults = list_with(key(1), 2, &[key(5)]);
    let mut slashers = RelationshipList::new(key(1), 2);
    let mut caps = SlashingLedger::new();
    let action = process_avs_add_vault_slasher(
        &key(9), &key(9), &vaults, &mut slashers, &mut caps, &key(5), &key(6), 12, 1000,
        AddEvent::Start,
    );
    assert_eq!(action, AddAction::Finished(Ok(())));
    assert_eq!(
        slashers.get(0),
        Some(RelationshipEntry { counterparty: key(6), added_at: 12, removed_at: None })
    );
    assert_eq!(
        caps.cap(&key(5), &key(6)),
        Some(SlasherCap { vault: key(5), slasher: key(6), max_per_epoch: 1000, slashed_this_epoch: 0, epoch: 12 })
    );
}

#[test]
fn avs_add_vault_slasher_refuses_another_admin() {
    let vaults = list_with(key(1), 2, &[key(5)]);
    let mut slashers = RelationshipList::new(key(1), 2);
    let mut caps = SlashingLedger::new();
    let action = process_avs_add_vault_slasher(
        &key(9), &key(8), &vaults, &mut slashers, &mut caps, &key(5), &key(6), 12, 1000,
        AddEvent::Start,
    );
    assert_eq!(action, AddAction::Finished(Err(RegistryError::UnauthorizedCaller)));
    assert_eq!(slashers.len(), 0);
    assert_eq!(caps.len(), 0);
}

#[test]
fn avs_add_vault_slasher_needs_the_vault_in_the_list_of_vaults() {
    let mut vaults = list_with(key(1), 2, &[key(5)]);
    let mut slashers = RelationshipList::new(key(1), 2);
    let mut caps = SlashingLedger::new();
    let action = process_avs_add_vault_slasher(
        &key(9), &key(9), &vaults, &mut slashers, &mut caps, &key(4), &key(6), 12, 1000,
        AddEvent::Start,
    );
    assert_eq!(action, AddAction::Finished(Err(RegistryError::RelationshipNotFound)));
    assert_eq!(vaults.remove(&key(5), 3), Ok(()));
    let action = process_avs_add_vault_slasher(
        &key(9), &key(9), &vaults, &mut slashers, &mut caps, &key(5), &key(6), 12, 1000,
        AddEvent::Start,
    );
    assert_eq!(action, AddAction::Finished(Err(RegistryError::RelationshipNotFound)));
    assert_eq!(slashers.len(), 0);
    assert_eq!(caps.len(), 0);
}

#[test]
fn avs_add_vault_slasher_refuses_the_same_vault_and_slasher_twice() {
    let vaults = list_with(key(1), 2, &[key(5), key(7)]);
    let mut slashers = RelationshipList::new(key(1), 2);
    let mut caps = SlashingLedger::new();
    let first = process_avs_add_vault_slasher(
        &key(9), &key(9), &vaults, &mut slashers, &mut caps, &key(5), &key(6), 12, 1000,
        AddEvent::Start,
    );
    assert_eq!(first, AddAction::Finished(Ok(())));
    let again = process_avs_add_vault_slasher(
        &key(9), &key(9), &vaults, &mut slashers, &mut caps, &key(5), &key(6), 13, 2000,
        AddEvent::Start,
    );
    assert_eq!(again, AddAction::Finished(Err(RegistryError::DuplicateRelationship)));
    assert_eq!(slashers.len(), 1);
    assert_eq!(caps.len(), 1);
    assert_eq!(caps.cap(&key(5), &key(6)).unwrap().max_per_epoch, 1000);

    let other_vault = process_avs_add_vault_slasher(
        &key(9), &key(9), &vaults, &mut slashers, &mut caps, &key(7), &key(6), 14, 300,
        AddEvent::Start,
    );
    assert_eq!(other_vault, AddAction::Finished(Ok(())));
    assert_eq!(slashers.len(), 1);
    assert_eq!(caps.len(), 2);
    assert_eq!(
        caps.cap(&key(7), &key(6)),
        Some(SlasherCap { vault: key(7), slasher: key(6), max_per_epoch: 300, slashed_this_epoch: 0, epoch: 14 })
    );
}

#[test]
fn avs_add_vault_slasher_grows_a_full_list_of_slashers() {
    let vaults = list_with(key(1), 2, &[key(5)]);
    let mut slashers = list_with(key(1), 1, &[key(3)]);
    let mut caps = SlashingLedger::new();
    let first = process_avs_add_vault_slasher(
        &key(9), &key(9), &vaults, &mut slashers, &mut caps, &key(5), &key(6), 12, 1000,
        AddEvent::Start,
    );
    assert_eq!(
        first,
        AddAction::RequestGrowth(GrowthRequest { list: key(1), additional_entries: 1 })
    );
    assert_eq!(slashers.len(), 1);
    assert_eq!(caps.len(), 0);
    let denied = process_avs_add_vault_slasher(
        &key(9), &key(9), &vaults, &mut slashers, &mut caps, &key(5), &key(6), 12, 1000,
        AddEvent::GrowthDenied,
    );
    assert_eq!(denied, AddAction::Finished(Err(RegistryError::CapacityExceeded)));
    assert_eq!(slashers.len(), 1);
    assert_eq!(caps.len(), 0);
    let granted = process_avs_add_vault_slasher(
        &key(9), &key(9), &vaults, &mut slashers, &mut caps, &key(5), &key(6), 12, 1000,
        AddEvent::GrowthGranted,
    );
    assert_eq!(granted, AddAction::Finished(Ok(())));
    assert_eq!(slashers.len(), 2);
    assert_eq!(slashers.capacity(), 2);
    assert_eq!(caps.len(), 1);
}
