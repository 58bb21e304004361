use router::shutdown::{AdmissionError, CallDisposition, GateState, ShutdownCoordinator};

#[test]
fn call_finishing_within_budget_is_applied_then_stop() {
    let mut c = ShutdownCoordinator::new(30_000);
    assert_eq!(c.try_admission(), Ok(()));
    c.on_dependency_failure(1_000);
    assert_eq!(c.state, GateState::Draining);
    assert_eq!(c.deadline, 31_000);
    assert_eq!(c.try_admission(), Err(AdmissionError::ServiceDraining));
    assert_eq!(c.complete(6_000), CallDisposition::Apply);
    assert_eq!(c.state, GateState::Stopped);
    assert_eq!(c.in_flight, 0);
}

#[test]
fn drain_budget_exhausted_force_fails() {
    let mut c = ShutdownCoordinator::new(30_000);
    c.try_admission().unwrap();
    c.try_admission().unwrap();
    c.on_dependency_failure(0);
    assert_eq!(c.complete(10_000), CallDisposition::Apply);
    assert_eq!(c.state, GateState::Draining);
    assert!(!c.tick(30_000));
    assert!(c.tick(30_001));
    assert_eq!(c.in_flight, 0);
    assert_eq!(c.complete(40_000), CallDisposition::ForceFail);
}

#[test]
fn late_completion_force_fails() {
    let mut c = ShutdownCoordinator::new(100);
    c.try_admission().unwrap();
    c.on_dependency_failure(50);
    assert_eq!(c.complete(151), CallDisposition::ForceFail);
    assert_eq!(c.state, GateState::Stopped);
}

#[test]
fn idle_service_stops_at_once_and_signal_fires_once() {
    let mut c = ShutdownCoordinator::new(u64::MAX);
    c.on_dependency_failure(5);
    assert_eq!(c.state, GateState::Stopped);
    assert_eq!(c.deadline, u64::MAX);
    let before = c;
    c.on_dependency_failure(9);
    assert_eq!(c, before);
}

#[test]
fn running_service_applies_completions() {
    let mut c = ShutdownCoordinator::new(10);
    c.try_admission().unwrap();
    assert_eq!(c.in_flight, 1);
    assert_eq!(c.complete(3), CallDisposition::Apply);
    assert_eq!(c.in_flight, 0);
    assert_eq!(c.state, GateState::Running);
}
