use chatbridge::identity::ServiceIdentity;
use chatbridge::pending::PendingActivations;
use chatbridge::pending::RecordOutcome;
use chatbridge::registry::ActivationOutcome;
use chatbridge::registry::BridgeSessionRegistry;
use chatbridge::registry::DeactivationOutcome;

fn id(chat_id: i64) -> ServiceIdentity {
    ServiceIdentity { chat_id }
}

#[test]
fn activation_lifecycle() {
    let mut registry: BridgeSessionRegistry<u32> = BridgeSessionRegistry::new();
    assert!(!registry.is_active(id(7)));
    assert!(matches!(registry.try_activate(id(7), 41), ActivationOutcome::Activated));
    assert!(registry.is_active(id(7)));
    assert!(matches!(registry.deactivate(id(7)), DeactivationOutcome::Deactivated(41)));
    assert!(!registry.is_active(id(7)));
}

#[test]
fn second_activation_is_turned_away() {
    let mut registry: BridgeSessionRegistry<u32> = BridgeSessionRegistry::new();
    assert!(matches!(registry.try_activate(id(7), 1), ActivationOutcome::Activated));
    assert!(matches!(registry.try_activate(id(7), 2), ActivationOutcome::AlreadyActive(2)));
    assert!(matches!(registry.try_activate(id(7), 3), ActivationOutcome::AlreadyActive(3)));
    // The stored handle is still the first attempt's.
    assert!(matches!(registry.deactivate(id(7)), DeactivationOutcome::Deactivated(1)));
}

#[test]
fn deactivating_an_inactive_identity_changes_nothing() {
    let mut registry: BridgeSessionRegistry<u32> = BridgeSessionRegistry::new();
    assert!(matches!(registry.deactivate(id(7)), DeactivationOutcome::WasInactive));
    registry.try_activate(id(7), 1);
    assert!(matches!(registry.deactivate(id(8)), DeactivationOutcome::WasInactive));
    assert!(registry.is_active(id(7)));
}

#[test]
fn identities_are_independent() {
    let mut registry: BridgeSessionRegistry<u32> = BridgeSessionRegistry::new();
    registry.try_activate(id(1), 10);
    registry.try_activate(id(2), 20);
    assert!(registry.is_active(id(1)));
    assert!(registry.is_active(id(2)));
    assert!(matches!(registry.deactivate(id(1)), DeactivationOutcome::Deactivated(10)));
    assert!(!registry.is_active(id(1)));
    assert!(registry.is_active(id(2)));
}

#[test]
fn pending_activation_is_recorded_once_and_consumed_once() {
    let mut pending: PendingActivations<&str> = PendingActivations::new();
    assert!(!pending.has_pending(id(7)));
    assert!(matches!(pending.record(id(7), "first"), RecordOutcome::Recorded));
    assert!(pending.has_pending(id(7)));
    assert!(matches!(pending.record(id(7), "second"), RecordOutcome::AlreadyPrepared("second")));
    assert_eq!(pending.take(id(7)), Some("first"));
    assert_eq!(pending.take(id(7)), None);
    assert!(!pending.has_pending(id(7)));
}
