use rasterkv::engine::common::Gate;
use rasterkv::engine::operation_gate::{gate_of, Attempts, GateStep};
use rasterkv::types::KeyHash;
use std::sync::{Mutex, MutexGuard, TryLockError};

fn try_lock<'a>(
    gate: &'a Mutex<()>,
    pauses: &mut Vec<u32>,
) -> Result<MutexGuard<'a, ()>, Gate> {
    let mut attempts = Attempts::new();
    loop {
        let (guard, found) = match gate.try_lock() {
            Ok(guard) => (Some(guard), Gate::Free),
            Err(TryLockError::WouldBlock) => (None, Gate::Held),
            Err(TryLockError::Poisoned(_)) => (None, Gate::Poisoned),
        };
        match attempts.next(found) {
            GateStep::Ended(found) => return guard.ok_or(found),
            GateStep::Pause(hints) => pauses.push(hints),
        }
    }
}

#[test]
fn contention_remains_bounded_and_does_not_release_another_owner() {
    let gate = Mutex::new(());
    let owner = gate.lock().unwrap();
    let mut pauses = Vec::new();
    assert!(matches!(try_lock(&gate, &mut pauses), Err(Gate::Held)));
    assert_eq!(pauses, vec![1, 2, 4, 8, 16, 32]);
    assert!(matches!(gate.try_lock(), Err(TryLockError::WouldBlock)));
    drop(owner);
    drop(try_lock(&gate, &mut pauses).unwrap());
    assert_eq!(pauses.len(), 6);
}

#[test]
fn a_broken_lock_is_not_tried_again() {
    let mut attempts = Attempts::new();
    assert_eq!(
        attempts.next(Gate::Poisoned),
        GateStep::Ended(Gate::Poisoned)
    );
    assert_eq!(attempts.next(Gate::Free), GateStep::Ended(Gate::Free));
    assert_eq!(attempts.next(Gate::Held), GateStep::Pause(1));
    assert_eq!(
        attempts.next(Gate::Poisoned),
        GateStep::Ended(Gate::Poisoned)
    );
}

#[test]
fn every_key_has_one_of_the_locks() {
    assert_eq!(gate_of(KeyHash(13), 4), 1);
    assert_eq!(gate_of(KeyHash(u64::MAX), 1), 0);
    assert_eq!(gate_of(KeyHash(3), 4), 3);
}
