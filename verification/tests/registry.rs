use capsule::registry::{
    Capability, Evicted, Liveness, Probe, ProbeOutcome, RegistryError, TargetId, TargetRegistry,
    PROBE_TIMEOUT_MS, SWEEP_INTERVAL_MS,
};

#[test]
fn register_assigns_distinct_identifiers() {
    let mut registry = TargetRegistry::new();
    let a = registry.register("game.exe", 4242, Capability(1), 0).unwrap();
    let b = registry.register("game.exe", 4242, Capability(2), 0).unwrap();
    assert_ne!(a, b);
    assert_eq!(a, TargetId(0));
    assert_eq!(b, TargetId(1));
    assert_eq!(registry.len(), 2);
    assert_eq!(registry.minted(), 2);
}

#[test]
fn register_stores_what_was_reported() {
    let mut registry = TargetRegistry::new();
    let id = registry.register("game.exe", 4242, Capability(9), 77).unwrap();
    let handle = registry.get(id).unwrap();
    assert_eq!(handle.id, id);
    assert_eq!(handle.pid, 4242);
    assert_eq!(handle.exe, "game.exe");
    assert_eq!(handle.target, Capability(9));
    assert_eq!(handle.liveness, Liveness::Alive);
    assert_eq!(handle.last_heartbeat, 77);
    assert_eq!(registry.last_sweep(), None);
}

#[test]
fn register_rejects_missing_fields() {
    let mut registry = TargetRegistry::new();
    assert_eq!(
        registry.register("", 4242, Capability(1), 0),
        Err(RegistryError::MalformedRequest)
    );
    assert_eq!(
        registry.register("game.exe", 0, Capability(1), 0),
        Err(RegistryError::MalformedRequest)
    );
    assert_eq!(registry.register("", 0, Capability(1), 0), Err(RegistryError::MalformedRequest));
    assert_eq!(registry.len(), 0);
    assert_eq!(registry.minted(), 0);
}

#[test]
fn rejected_registration_uses_up_no_identifier() {
    let mut registry = TargetRegistry::new();
    assert!(registry.register("", 1, Capability(1), 0).is_err());
    assert_eq!(registry.register("a", 1, Capability(1), 0), Ok(TargetId(0)));
}

#[test]
fn lookup_of_unknown_identifier_finds_nothing() {
    let mut registry = TargetRegistry::new();
    registry.register("a", 1, Capability(1), 0).unwrap();
    assert!(!registry.contains(TargetId(5)));
    assert!(registry.get(TargetId(5)).is_none());
    assert!(registry.contains(TargetId(0)));
}

#[test]
fn sweep_probes_every_live_target_once() {
    let mut registry = TargetRegistry::new();
    let a = registry.register("a", 1, Capability(10), 0).unwrap();
    let b = registry.register("b", 2, Capability(20), 0).unwrap();
    let probes = registry.begin_sweep(1000);
    assert_eq!(
        probes,
        vec![
            Probe { target: a, capability: Capability(10), timeout_ms: 250 },
            Probe { target: b, capability: Capability(20), timeout_ms: 250 },
        ]
    );
    assert_eq!(registry.get(a).unwrap().liveness, Liveness::PendingCheck);
    assert_eq!(registry.get(b).unwrap().liveness, Liveness::PendingCheck);
    assert!(!registry.is_settled());
}

fn gone(target: TargetId, capability: u64) -> Evicted {
    Evicted { target, capability: Capability(capability) }
}

#[test]
fn sweep_defaults() {
    assert_eq!(PROBE_TIMEOUT_MS, 250);
    assert_eq!(SWEEP_INTERVAL_MS, 1000);
}

#[test]
fn no_second_probe_while_one_is_in_flight() {
    let mut registry = TargetRegistry::new();
    let a = registry.register("a", 1, Capability(10), 0).unwrap();
    assert_eq!(registry.begin_sweep(1000).len(), 1);
    assert_eq!(registry.begin_sweep(1000), vec![]);
    assert!(registry.probe_resolved(a, ProbeOutcome::Responded, 1000));
    assert_eq!(registry.begin_sweep(1000).len(), 1);
}

#[test]
fn answered_probe_keeps_the_target_and_records_the_time() {
    let mut registry = TargetRegistry::new();
    let a = registry.register("a", 1, Capability(10), 0).unwrap();
    registry.begin_sweep(1000);
    assert!(registry.probe_resolved(a, ProbeOutcome::Responded, 1000));
    assert!(registry.is_settled());
    assert_eq!(registry.finish_sweep(), Some(vec![]));
    let handle = registry.get(a).unwrap();
    assert_eq!(handle.liveness, Liveness::Alive);
    assert_eq!(handle.last_heartbeat, 1000);
}

#[test]
fn failed_probes_evict_in_one_batch() {
    let mut registry = TargetRegistry::new();
    let a = registry.register("a", 1, Capability(10), 0).unwrap();
    let b = registry.register("b", 2, Capability(20), 0).unwrap();
    let c = registry.register("c", 3, Capability(30), 0).unwrap();
    let d = registry.register("d", 4, Capability(40), 0).unwrap();
    registry.begin_sweep(1000);
    assert!(registry.probe_resolved(a, ProbeOutcome::TimedOut, 1000));
    assert!(registry.probe_resolved(b, ProbeOutcome::Responded, 1001));
    assert!(registry.probe_resolved(c, ProbeOutcome::Failed, 1002));
    // Nothing leaves while a probe is in flight.
    assert_eq!(registry.finish_sweep(), None);
    assert_eq!(registry.len(), 4);
    assert_eq!(registry.get(a).unwrap().liveness, Liveness::Dead);
    assert!(registry.probe_resolved(d, ProbeOutcome::Closed, 1003));
    assert_eq!(registry.finish_sweep(), Some(vec![gone(a, 10), gone(c, 30), gone(d, 40)]));
    assert_eq!(registry.len(), 1);
    assert!(registry.contains(b));
    assert!(!registry.contains(a));
    assert!(!registry.contains(c));
    assert!(!registry.contains(d));
}

#[test]
fn a_failed_probe_does_not_touch_the_heartbeat() {
    let mut registry = TargetRegistry::new();
    let a = registry.register("a", 1, Capability(10), 5).unwrap();
    registry.begin_sweep(1000);
    registry.probe_resolved(a, ProbeOutcome::TimedOut, 1000);
    assert_eq!(registry.get(a).unwrap().last_heartbeat, 5);
}

#[test]
fn a_result_without_a_probe_is_ignored() {
    let mut registry = TargetRegistry::new();
    let a = registry.register("a", 1, Capability(10), 0).unwrap();
    assert!(!registry.probe_resolved(a, ProbeOutcome::TimedOut, 1000));
    assert!(!registry.probe_resolved(TargetId(9), ProbeOutcome::TimedOut, 1000));
    assert_eq!(registry.get(a).unwrap().liveness, Liveness::Alive);
    registry.begin_sweep(1000);
    assert!(registry.probe_resolved(a, ProbeOutcome::TimedOut, 1000));
    // The second result for the same probe comes too late.
    assert!(!registry.probe_resolved(a, ProbeOutcome::Responded, 1001));
    assert_eq!(registry.get(a).unwrap().liveness, Liveness::Dead);
}

#[test]
fn identifiers_are_not_reused_after_eviction() {
    let mut registry = TargetRegistry::new();
    let a = registry.register("game.exe", 4242, Capability(1), 0).unwrap();
    registry.begin_sweep(1000);
    registry.probe_resolved(a, ProbeOutcome::TimedOut, 1000);
    assert_eq!(registry.finish_sweep(), Some(vec![gone(a, 1)]));
    assert_eq!(registry.len(), 0);
    let b = registry.register("game.exe", 4242, Capability(1), 2000).unwrap();
    assert_ne!(a, b);
    assert_eq!(b, TargetId(1));
}

#[test]
fn a_target_registered_during_a_sweep_is_not_probed_by_it() {
    let mut registry = TargetRegistry::new();
    let a = registry.register("a", 1, Capability(10), 0).unwrap();
    registry.begin_sweep(1000);
    let b = registry.register("b", 2, Capability(20), 500).unwrap();
    registry.probe_resolved(a, ProbeOutcome::Closed, 1000);
    assert_eq!(registry.finish_sweep(), Some(vec![gone(a, 10)]));
    assert!(registry.contains(b));
    assert_eq!(registry.get(b).unwrap().liveness, Liveness::Alive);
}

#[test]
fn the_first_sweep_is_due_at_once_and_the_next_a_second_later() {
    let mut registry = TargetRegistry::new();
    assert!(registry.sweep_due(0));
    registry.begin_sweep(1000);
    assert_eq!(registry.last_sweep(), Some(1000));
    assert!(!registry.sweep_due(1000));
    assert!(!registry.sweep_due(1999));
    assert!(registry.sweep_due(2000));
    assert!(registry.sweep_due(u64::MAX));
    assert!(!registry.sweep_due(0));
}

#[test]
fn a_probe_fails_when_its_time_is_up() {
    let mut registry = TargetRegistry::new();
    let a = registry.register("a", 1, Capability(10), 0).unwrap();
    let b = registry.register("b", 2, Capability(20), 0).unwrap();
    registry.begin_sweep(1000);
    assert_eq!(registry.get(a).unwrap().probe_deadline, 1250);
    assert!(registry.probe_resolved(b, ProbeOutcome::Responded, 1100));
    assert_eq!(registry.expire_probes(1249), vec![]);
    assert_eq!(registry.get(a).unwrap().liveness, Liveness::PendingCheck);
    assert_eq!(registry.finish_sweep(), None);
    assert_eq!(registry.expire_probes(1250), vec![a]);
    assert_eq!(registry.get(a).unwrap().liveness, Liveness::Dead);
    assert_eq!(registry.get(b).unwrap().liveness, Liveness::Alive);
    assert_eq!(registry.expire_probes(1251), vec![]);
    // The answer comes too late.
    assert!(!registry.probe_resolved(a, ProbeOutcome::Responded, 1260));
    assert_eq!(registry.finish_sweep(), Some(vec![gone(a, 10)]));
    assert!(!registry.contains(a));
    assert!(registry.contains(b));
}

#[test]
fn every_probe_has_ended_a_quarter_second_after_the_sweep_began() {
    let mut registry = TargetRegistry::new();
    for pid in 1..=5u64 {
        registry.register("game.exe", pid, Capability(pid), 0).unwrap();
    }
    registry.begin_sweep(5000);
    assert!(registry.probe_resolved(TargetId(1), ProbeOutcome::Responded, 5100));
    assert!(registry.probe_resolved(TargetId(3), ProbeOutcome::Failed, 5100));
    assert_eq!(registry.expire_probes(5250), vec![TargetId(0), TargetId(2), TargetId(4)]);
    assert!(registry.is_settled());
    assert_eq!(
        registry.finish_sweep(),
        Some(vec![gone(TargetId(0), 1), gone(TargetId(2), 3), gone(TargetId(3), 4), gone(TargetId(4), 5)])
    );
    assert_eq!(registry.len(), 1);
}

#[test]
fn the_clock_of_the_sweeps_does_not_run_backwards() {
    let mut registry = TargetRegistry::new();
    let a = registry.register("a", 1, Capability(10), 0).unwrap();
    registry.begin_sweep(1000);
    registry.probe_resolved(a, ProbeOutcome::Responded, 1001);
    registry.begin_sweep(400);
    assert_eq!(registry.last_sweep(), Some(1000));
    assert_eq!(registry.get(a).unwrap().probe_deadline, 1250);
}

#[test]
fn a_deadline_at_the_end_of_time() {
    let mut registry = TargetRegistry::new();
    let a = registry.register("a", 1, Capability(10), 0).unwrap();
    registry.begin_sweep(u64::MAX - 10);
    assert_eq!(registry.get(a).unwrap().probe_deadline, u64::MAX);
    assert_eq!(registry.expire_probes(u64::MAX - 1), vec![]);
    assert_eq!(registry.expire_probes(u64::MAX), vec![a]);
}
