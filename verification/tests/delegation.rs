use restaking_ledger::delegation::{DelegationEntry, DelegationLedger, UpdateOutcome};
use restaking_ledger::error::RegistryError;
use restaking_ledger::identity::Identity;

fn key(byte: u8) -> Identity {
    Identity::new([byte; 32])
}

fn ledger_with(operator: Identity, active_amount: u64, epoch: u64) -> DelegationLedger {
    DelegationLedger::from_parts(
        key(1),
        epoch,
        vec![DelegationEntry { operator, active_amount, pending_delta: 0, last_update_epoch: epoch }],
    )
    .unwrap()
}

#[test]
fn new_delegation_ledger_is_empty() {
    let ledger = DelegationLedger::new(key(1), 7);
    assert_eq!(ledger.vault(), key(1));
    assert_eq!(ledger.epoch(), 7);
    assert_eq!(ledger.len(), 0);
    assert_eq!(ledger.get(0), None);
    assert_eq!(
        ledger.entry(&key(2)),
        DelegationEntry { operator: key(2), active_amount: 0, pending_delta: 0, last_update_epoch: 7 }
    );
}

#[test]
fn add_delegation_needs_the_delegation_admin() {
    let mut ledger = DelegationLedger::new(key(1), 0);
    assert_eq!(ledger.add_delegation(key(2), 100, false), Err(RegistryError::UnauthorizedCaller));
    assert_eq!(ledger.len(), 0);
}

#[test]
fn add_delegation_queues_and_update_commits() {
    let mut ledger = DelegationLedger::new(key(1), 0);
    assert_eq!(ledger.add_delegation(key(2), 100, true), Ok(()));
    assert_eq!(
        ledger.entry(&key(2)),
        DelegationEntry { operator: key(2), active_amount: 0, pending_delta: 100, last_update_epoch: 0 }
    );
    assert_eq!(ledger.add_delegation(key(2), 50, true), Ok(()));
    assert_eq!(ledger.entry(&key(2)).pending_delta, 150);
    assert_eq!(ledger.entry(&key(2)).active_amount, 0);
    assert_eq!(ledger.len(), 1);

    assert_eq!(ledger.update_delegations(1), UpdateOutcome::Committed);
    assert_eq!(
        ledger.entry(&key(2)),
        DelegationEntry { operator: key(2), active_amount: 150, pending_delta: 0, last_update_epoch: 1 }
    );
    assert_eq!(ledger.epoch(), 1);
}

#[test]
fn remove_delegation_needs_the_admin() {
    let mut ledger = ledger_with(key(2), 500, 3);
    assert_eq!(ledger.remove_delegation(key(2), 100, false), Err(RegistryError::UnauthorizedCaller));
    assert_eq!(ledger.entry(&key(2)).pending_delta, 0);
}

#[test]
fn remove_delegation_scenario_five_hundred() {
    let mut ledger = ledger_with(key(2), 500, 3);
    assert_eq!(
        ledger.remove_delegation(key(2), 600, true),
        Err(RegistryError::InsufficientDelegatedStake)
    );
    assert_eq!(
        ledger.entry(&key(2)),
        DelegationEntry { operator: key(2), active_amount: 500, pending_delta: 0, last_update_epoch: 3 }
    );
    assert_eq!(ledger.remove_delegation(key(2), 500, true), Ok(()));
    assert_eq!(
        ledger.entry(&key(2)),
        DelegationEntry { operator: key(2), active_amount: 500, pending_delta: -500, last_update_epoch: 3 }
    );
    assert_eq!(ledger.update_delegations(4), UpdateOutcome::Committed);
    assert_eq!(
        ledger.entry(&key(2)),
        DelegationEntry { operator: key(2), active_amount: 0, pending_delta: 0, last_update_epoch: 4 }
    );
}

#[test]
fn remove_delegation_counts_what_is_queued() {
    let mut ledger = ledger_with(key(2), 500, 3);
    assert_eq!(ledger.remove_delegation(key(2), 300, true), Ok(()));
    assert_eq!(
        ledger.remove_delegation(key(2), 201, true),
        Err(RegistryError::InsufficientDelegatedStake)
    );
    assert_eq!(ledger.entry(&key(2)).pending_delta, -300);
    assert_eq!(ledger.add_delegation(key(2), 1, true), Ok(()));
    assert_eq!(ledger.remove_delegation(key(2), 201, true), Ok(()));
    assert_eq!(ledger.entry(&key(2)).pending_delta, -500);
}

#[test]
fn remove_delegation_of_unknown_operator() {
    let mut ledger = ledger_with(key(2), 500, 3);
    assert_eq!(
        ledger.remove_delegation(key(9), 1, true),
        Err(RegistryError::InsufficientDelegatedStake)
    );
    assert_eq!(ledger.remove_delegation(key(9), 0, true), Ok(()));
    assert_eq!(ledger.len(), 1);
}

#[test]
fn update_settles_every_entry_and_repeating_it_changes_nothing() {
    let mut ledger = DelegationLedger::new(key(1), 2);
    assert_eq!(ledger.add_delegation(key(2), 10, true), Ok(()));
    assert_eq!(ledger.add_delegation(key(3), 20, true), Ok(()));
    assert_eq!(ledger.add_delegation(key(4), 30, true), Ok(()));
    assert_eq!(ledger.update_delegations(5), UpdateOutcome::Committed);
    let amounts = [10u64, 20, 30];
    for i in 0..ledger.len() {
        let entry = ledger.get(i).unwrap();
        assert_eq!(entry.pending_delta, 0);
        assert_eq!(entry.last_update_epoch, 5);
        assert_eq!(entry.active_amount, amounts[i]);
    }
    let before: Vec<DelegationEntry> = (0..ledger.len()).map(|i| ledger.get(i).unwrap()).collect();
    assert_eq!(ledger.update_delegations(5), UpdateOutcome::StaleEpochState);
    let after: Vec<DelegationEntry> = (0..ledger.len()).map(|i| ledger.get(i).unwrap()).collect();
    assert_eq!(before, after);
    assert_eq!(ledger.epoch(), 5);
}

#[test]
fn update_at_an_earlier_epoch_is_stale() {
    let mut ledger = ledger_with(key(2), 500, 3);
    assert_eq!(ledger.add_delegation(key(2), 7, true), Ok(()));
    assert_eq!(ledger.update_delegations(2), UpdateOutcome::StaleEpochState);
    assert_eq!(ledger.update_delegations(3), UpdateOutcome::StaleEpochState);
    assert_eq!(
        ledger.entry(&key(2)),
        DelegationEntry { operator: key(2), active_amount: 500, pending_delta: 7, last_update_epoch: 3 }
    );
    assert_eq!(ledger.epoch(), 3);
}

#[test]
fn add_then_remove_of_equal_amounts_cancels() {
    let mut ledger = ledger_with(key(2), 500, 3);
    assert_eq!(ledger.add_delegation(key(2), 250, true), Ok(()));
    assert_eq!(ledger.remove_delegation(key(2), 250, true), Ok(()));
    assert_eq!(ledger.update_delegations(4), UpdateOutcome::Committed);
    assert_eq!(ledger.entry(&key(2)).active_amount, 500);

    let mut fresh = DelegationLedger::new(key(1), 3);
    assert_eq!(fresh.add_delegation(key(5), 40, true), Ok(()));
    assert_eq!(fresh.remove_delegation(key(5), 40, true), Ok(()));
    assert_eq!(fresh.update_delegations(4), UpdateOutcome::Committed);
    assert_eq!(fresh.entry(&key(5)).active_amount, 0);
}

#[test]
fn largest_delegation_can_be_queued_and_undone() {
    let mut ledger = DelegationLedger::new(key(1), 0);
    assert_eq!(ledger.add_delegation(key(2), i64::MAX as u64, true), Ok(()));
    assert_eq!(ledger.update_delegations(1), UpdateOutcome::Committed);
    assert_eq!(ledger.entry(&key(2)).active_amount, i64::MAX as u64);
    assert_eq!(ledger.remove_delegation(key(2), i64::MAX as u64, true), Ok(()));
    assert_eq!(ledger.entry(&key(2)).pending_delta, -i64::MAX);
    assert_eq!(
        ledger.remove_delegation(key(2), 1, true),
        Err(RegistryError::InsufficientDelegatedStake)
    );
    assert_eq!(ledger.update_delegations(2), UpdateOutcome::Committed);
    assert_eq!(ledger.entry(&key(2)).active_amount, 0);
}

#[test]
fn delegation_from_parts_refuses_what_is_no_ledger() {
    let good = DelegationEntry { operator: key(2), active_amount: 5, pending_delta: -5, last_update_epoch: 3 };
    assert!(DelegationLedger::from_parts(key(1), 3, vec![good]).is_some());
    assert!(DelegationLedger::from_parts(key(1), 3, vec![good, good]).is_none());
    assert!(DelegationLedger::from_parts(key(1), 4, vec![good]).is_none());
    let negative = DelegationEntry { operator: key(2), active_amount: 5, pending_delta: -6, last_update_epoch: 3 };
    assert!(DelegationLedger::from_parts(key(1), 3, vec![negative]).is_none());
    let too_large = DelegationEntry {
        operator: key(2),
        active_amount: i64::MAX as u64 + 1,
        pending_delta: -1,
        last_update_epoch: 3,
    };
    assert!(DelegationLedger::from_parts(key(1), 3, vec![too_large]).is_none());
    let too_much_queued = DelegationEntry {
        operator: key(2),
        active_amount: i64::MAX as u64,
        pending_delta: 1,
        last_update_epoch: 3,
    };
    assert!(DelegationLedger::from_parts(key(1), 3, vec![too_much_queued]).is_none());
}

#[test]
fn can_queue_tells_what_add_delegation_takes() {
    let mut ledger = DelegationLedger::new(key(1), 0);
    assert!(ledger.can_queue(&key(2), 0));
    assert!(ledger.can_queue(&key(2), i64::MAX as u64));
    assert!(!ledger.can_queue(&key(2), i64::MAX as u64 + 1));
    assert!(!ledger.can_queue(&key(2), u64::MAX));
    assert_eq!(ledger.add_delegation(key(2), 10, true), Ok(()));
    assert!(ledger.can_queue(&key(2), i64::MAX as u64 - 10));
    assert!(!ledger.can_queue(&key(2), i64::MAX as u64 - 9));
    assert!(ledger.can_queue(&key(3), i64::MAX as u64));
    assert_eq!(ledger.update_delegations(1), UpdateOutcome::Committed);
    assert_eq!(ledger.remove_delegation(key(2), 4, true), Ok(()));
    assert!(ledger.can_queue(&key(2), i64::MAX as u64 - 6));
    assert!(!ledger.can_queue(&key(2), i64::MAX as u64 - 5));
}
