use std::cell::Cell;

use gadget_shell::registry::{ActiveProcessEntry, RegisterOutcome, WorkloadRegistry};
use gadget_shell::workload::WorkloadIdentity;

fn identity(key: &str) -> WorkloadIdentity {
    WorkloadIdentity { key: key.as_bytes().to_vec() }
}

fn entry(status: u32, cancel: Option<u32>) -> ActiveProcessEntry<u32, u32> {
    ActiveProcessEntry { status, cancel }
}

#[test]
fn first_registration_launches() {
    let mut registry: WorkloadRegistry<u32, u32> = WorkloadRegistry::new();
    let launched = Cell::new(false);
    let outcome = registry.register_if_absent(identity("svc-a"), || {
        launched.set(true);
        entry(1, Some(10))
    });
    assert!(matches!(outcome, RegisterOutcome::Registered));
    assert!(launched.get());
    assert!(registry.contains(&identity("svc-a")));
    assert_eq!(registry.len(), 1);
}

#[test]
fn second_registration_for_same_identity_does_not_launch() {
    let mut registry: WorkloadRegistry<u32, u32> = WorkloadRegistry::new();
    let outcome1 = registry.register_if_absent(identity("svc-a"), || entry(1, Some(10)));
    let launched_again = Cell::new(false);
    let outcome2 = registry.register_if_absent(identity("svc-a"), || {
        launched_again.set(true);
        entry(2, Some(20))
    });
    assert!(matches!(outcome1, RegisterOutcome::Registered));
    assert!(matches!(outcome2, RegisterOutcome::AlreadyActive));
    assert!(!launched_again.get());
    // The registry holds exactly one entry afterward.
    assert_eq!(registry.len(), 1);
}

#[test]
fn distinct_identities_register_independently() {
    let mut registry: WorkloadRegistry<u32, u32> = WorkloadRegistry::new();
    let o1 = registry.register_if_absent(identity("svc-a"), || entry(1, None));
    let o2 = registry.register_if_absent(identity("svc-b"), || entry(2, None));
    assert!(matches!(o1, RegisterOutcome::Registered));
    assert!(matches!(o2, RegisterOutcome::Registered));
    assert_eq!(registry.len(), 2);
}

#[test]
fn cancellation_handle_is_consumed_once() {
    let mut registry: WorkloadRegistry<u32, u32> = WorkloadRegistry::new();
    registry.register_if_absent(identity("svc-a"), || entry(1, Some(10)));
    assert_eq!(registry.take_cancel(&identity("svc-a")), Some(10));
    // A second shutdown request finds the handle already consumed.
    assert_eq!(registry.take_cancel(&identity("svc-a")), None);
    // The entry itself stays registered.
    assert!(registry.contains(&identity("svc-a")));
}

#[test]
fn take_cancel_on_unknown_identity_is_none() {
    let mut registry: WorkloadRegistry<u32, u32> = WorkloadRegistry::new();
    assert_eq!(registry.take_cancel(&identity("svc-a")), None);
}

#[test]
fn remove_hands_back_the_entry() {
    let mut registry: WorkloadRegistry<u32, u32> = WorkloadRegistry::new();
    registry.register_if_absent(identity("svc-a"), || entry(7, Some(70)));
    let removed = registry.remove(&identity("svc-a"));
    match removed {
        Some(e) => {
            assert_eq!(e.status, 7);
            assert_eq!(e.cancel, Some(70));
        }
        None => panic!("the entry was registered"),
    }
    assert!(!registry.contains(&identity("svc-a")));
    assert_eq!(registry.len(), 0);
}

#[test]
fn reconcile_drops_exited_workloads_only() {
    let mut registry: WorkloadRegistry<u32, u32> = WorkloadRegistry::new();
    registry.register_if_absent(identity("svc-a"), || entry(1, None));
    registry.register_if_absent(identity("svc-b"), || entry(2, None));
    registry.reconcile(&identity("svc-a"), false);
    assert!(registry.contains(&identity("svc-a")));
    registry.reconcile(&identity("svc-a"), true);
    assert!(!registry.contains(&identity("svc-a")));
    assert!(registry.contains(&identity("svc-b")));
    assert_eq!(registry.len(), 1);
}
