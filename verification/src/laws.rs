//! What the protocol guarantees, whatever happens and in whatever order.
//!
//! The laws speak of the supervisor as a state machine (`HostModel`): of
//! every state that a sequence of events can lead to from a new supervisor,
//! or from any well-formed one. The operations of `HostImpl` are these
//! events, so the laws hold of every supervisor at run time.

use crate::host_model::{lemma_run_keeps_wf, lemma_step_keeps_wf, HostError, HostEvent, HostModel};
use crate::registry::{
    lemma_expire_keeps_wf,
    lemma_finish_keeps_survivors,
    Capability,
    ProbeOutcome,
    RegistryModel,
    TargetId,
    PROBE_TIMEOUT_MS,
    SWEEP_INTERVAL_MS,
};
use crate::session::{SessionId, StopPolicy, StopReason};
use vstd::prelude::*;

verus! {

/// A new supervisor is well formed, and so is every state it can reach.
pub proof fn lemma_reachable_states_are_well_formed(policy: StopPolicy, events: Seq<HostEvent>)
    ensures
        HostModel::new(policy).wf(),
        HostModel::new(policy).run(events).wf(),
{
    lemma_run_keeps_wf(HostModel::new(policy), events);
}

/// Registry uniqueness: no two registered targets share an identifier.
pub proof fn lemma_registered_ids_differ(m: RegistryModel, i: int, j: int)
    requires
        m.wf(),
        0 <= i < m.entries.len(),
        0 <= j < m.entries.len(),
        i != j,
    ensures
        m.entries[i].id != m.entries[j].id,
{
    if i < j {
        assert(m.entries[i].id.0 < m.entries[j].id.0);
    } else {
        assert(m.entries[j].id.0 < m.entries[i].id.0);
    }
}

/// Registry uniqueness, of every reachable state: after any sequence of
/// events, registrations and evictions among them, no two registered
/// targets share an identifier, whatever they report of themselves.
pub proof fn lemma_registry_uniqueness(policy: StopPolicy, events: Seq<HostEvent>, i: int, j: int)
    requires
        0 <= i < HostModel::new(policy).run(events).registry.entries.len(),
        0 <= j < HostModel::new(policy).run(events).registry.entries.len(),
        i != j,
    ensures
        HostModel::new(policy).run(events).registry.entries[i].id != HostModel::new(policy).run(
            events,
        ).registry.entries[j].id,
{
    lemma_run_keeps_wf(HostModel::new(policy), events);
    lemma_registered_ids_differ(HostModel::new(policy).run(events).registry, i, j);
}

/// A registration is given an identifier that no registered target has, and
/// two registrations with the same process id and path still get two
/// identifiers.
pub proof fn lemma_registration_is_fresh(
    m: RegistryModel,
    exe: Seq<char>,
    pid: u64,
    target: Capability,
    now: u64,
)
    requires
        m.wf(),
        m.minted + 1 < u64::MAX,
    ensures
        !m.contains(TargetId(m.minted as u64)),
        m.register(exe, pid, target, now).entries.last().id == TargetId(m.minted as u64),
        m.register(exe, pid, target, now).register(exe, pid, target, now).entries.last().id
            != m.register(exe, pid, target, now).entries.last().id,
{
    if m.contains(TargetId(m.minted as u64)) {
        let i = choose|i: int|
            0 <= i < m.entries.len() && (#[trigger] m.entries[i]).id == TargetId(m.minted as u64);
        assert(m.entries[i].id.0 < m.minted);
    }
}

/// Every identifier in the table was handed out by a registration: it lies
/// below the count of identifiers handed out.
proof fn lemma_contained_is_minted(m: RegistryModel, id: TargetId)
    requires
        m.wf(),
        m.contains(id),
    ensures
        id.0 < m.minted,
{
    let i = choose|i: int| 0 <= i < m.entries.len() && (#[trigger] m.entries[i]).id == id;
    assert(m.entries[i].id.0 < m.minted);
}

/// One event hands out no identifier twice: the count of identifiers never
/// falls, and a target that is registered after the event was registered
/// before it or got an identifier that had not been handed out.
pub proof fn lemma_step_mints_fresh(h: HostModel, event: HostEvent, id: TargetId)
    requires
        h.wf(),
    ensures
        h.step(event).registry.minted >= h.registry.minted,
        h.step(event).registry.contains(id) ==> h.registry.contains(id) || id.0
            >= h.registry.minted,
{
    let after = h.step(event).registry;
    let m = h.registry;
    if after.contains(id) {
        let i = choose|i: int| 0 <= i < after.entries.len() && (#[trigger] after.entries[i]).id == id;
        match event {
            HostEvent::Register { exe, pid, capability, now } => {
                if h.register_verdict(exe, pid).is_ok() && i < m.entries.len() {
                    assert(m.entries[i].id == id);
                }
            },
            HostEvent::BeginSweep { now } => {
                assert(m.entries[i].id == id);
            },
            HostEvent::ProbeResolved { target, outcome, now } => {
                assert(m.entries[i].id == id);
            },
            HostEvent::ProbesExpired { now } => {
                assert(m.entries[i].id == id);
            },
            HostEvent::FinishSweep => {
                if m.settled() {
                    lemma_finish_keeps_survivors(m, i);
                    let j = choose|j: int| 0 <= j < m.entries.len() && m.entries[j] == after.entries[i];
                    assert(m.entries[j].id == id);
                }
            },
            _ => {},
        }
    }
}

/// Identifiers are never reused: a target that has left the registry, or
/// whose identifier was handed out and is not in it, never appears in it
/// again.
pub proof fn lemma_identifiers_are_never_reused(h: HostModel, events: Seq<HostEvent>, id: TargetId)
    requires
        h.wf(),
        id.0 < h.registry.minted,
        !h.registry.contains(id),
    ensures
        !h.run(events).registry.contains(id),
        h.run(events).registry.minted >= h.registry.minted,
    decreases events.len(),
{
    if events.len() > 0 {
        let before = h.run(events.drop_last());
        lemma_identifiers_are_never_reused(h, events.drop_last(), id);
        lemma_run_keeps_wf(h, events.drop_last());
        lemma_step_mints_fresh(before, events.last(), id);
    }
}

/// The target's probe has failed: it is marked dead, or it has left.
pub open spec fn doomed(m: RegistryModel, target: TargetId) -> bool {
    &&& target.0 < m.minted
    &&& forall|i: int|
        0 <= i < m.entries.len() && (#[trigger] m.entries[i]).id == target
            ==> m.entries[i].liveness is Dead
}

/// A failed probe dooms its target.
pub proof fn lemma_failed_probe_dooms(m: RegistryModel, target: TargetId, outcome: ProbeOutcome, now: u64)
    requires
        m.wf(),
        m.awaits(target),
        !(outcome is Responded),
    ensures
        doomed(m.resolve(target, outcome, now), target),
{
    let after = m.resolve(target, outcome, now);
    lemma_contained_is_minted(m, target);
    let c = choose|c: int|
        0 <= c < m.entries.len() && (#[trigger] m.entries[c]).id == target
            && m.entries[c].liveness is PendingCheck;
    assert forall|i: int|
        0 <= i < after.entries.len() && (#[trigger] after.entries[i]).id
            == target implies after.entries[i].liveness is Dead by {
        if i != c {
            lemma_registered_ids_differ(m, i, c);
        }
    }
}

/// Nothing brings a doomed target back: no probe result, no new sweep, no
/// registration.
pub proof fn lemma_doomed_stays_doomed(h: HostModel, event: HostEvent, target: TargetId)
    requires
        h.wf(),
        doomed(h.registry, target),
    ensures
        doomed(h.step(event).registry, target),
{
    let after = h.step(event).registry;
    let m = h.registry;
    lemma_step_mints_fresh(h, event, target);
    assert forall|i: int|
        0 <= i < after.entries.len() && (#[trigger] after.entries[i]).id
            == target implies after.entries[i].liveness is Dead by {
        match event {
            HostEvent::Register { exe, pid, capability, now } => {
                if h.register_verdict(exe, pid).is_ok() && i < m.entries.len() {
                    assert(m.entries[i].id == target);
                }
            },
            HostEvent::BeginSweep { now } => {
                assert(m.entries[i].id == target);
            },
            HostEvent::ProbeResolved { target: probed, outcome, now } => {
                assert(m.entries[i].id == target);
            },
            HostEvent::ProbesExpired { now } => {
                assert(m.entries[i].id == target);
            },
            HostEvent::FinishSweep => {
                if m.settled() {
                    lemma_finish_keeps_survivors(m, i);
                    let j = choose|j: int| 0 <= j < m.entries.len() && m.entries[j] == after.entries[i];
                    assert(m.entries[j].id == target);
                }
            },
            _ => {},
        }
    }
}

/// Whatever happens, a doomed target stays doomed.
pub proof fn lemma_doomed_for_good(h: HostModel, events: Seq<HostEvent>, target: TargetId)
    requires
        h.wf(),
        doomed(h.registry, target),
    ensures
        doomed(h.run(events).registry, target),
        h.run(events).wf(),
    decreases events.len(),
{
    lemma_run_keeps_wf(h, events);
    if events.len() > 0 {
        lemma_doomed_for_good(h, events.drop_last(), target);
        lemma_doomed_stays_doomed(h.run(events.drop_last()), events.last(), target);
    }
}

/// The end of a sweep removes a doomed target, and leaves none of its
/// sessions active.
pub proof fn lemma_sweep_evicts_doomed(h: HostModel, target: TargetId)
    requires
        h.wf(),
        doomed(h.registry, target),
        h.registry.settled(),
    ensures
        !h.finish_sweep().registry.contains(target),
        forall|i: int|
            0 <= i < h.finish_sweep().sessions.len() && (#[trigger] h.finish_sweep().sessions[i]).target
                == target ==> !(h.finish_sweep().sessions[i].state is Active),
{
    let end = h.finish_sweep();
    lemma_step_keeps_wf(h, HostEvent::FinishSweep);
    if end.registry.contains(target) {
        let i = choose|i: int|
            0 <= i < end.registry.entries.len() && (#[trigger] end.registry.entries[i]).id == target;
        lemma_finish_keeps_survivors(h.registry, i);
        let j = choose|j: int|
            0 <= j < h.registry.entries.len() && h.registry.entries[j] == end.registry.entries[i];
        assert(h.registry.entries[j].id == target);
    }
    assert forall|i: int|
        0 <= i < end.sessions.len() && (#[trigger] end.sessions[i]).target == target implies !(
    end.sessions[i].state is Active) by {
        if end.sessions[i].state is Active {
            assert(end.registry.contains(end.sessions[i].target));
        }
    }
}

/// The target has not been heard of since its probe went out: it awaits
/// the answer, or is dead, or has left.
pub open spec fn silent(m: RegistryModel, target: TargetId) -> bool {
    &&& target.0 < m.minted
    &&& forall|i: int|
        0 <= i < m.entries.len() && (#[trigger] m.entries[i]).id == target ==> !(
        m.entries[i].liveness is Alive)
}

/// The event is an answer of `target` to its probe.
pub open spec fn answers(event: HostEvent, target: TargetId) -> bool {
    event matches HostEvent::ProbeResolved { target: probed, outcome, .. } && probed == target
        && outcome is Responded
}

/// A target stays silent through every event that is not its answer.
pub proof fn lemma_silent_stays_silent(h: HostModel, event: HostEvent, target: TargetId)
    requires
        h.wf(),
        silent(h.registry, target),
        !answers(event, target),
    ensures
        silent(h.step(event).registry, target),
{
    let after = h.step(event).registry;
    let m = h.registry;
    lemma_step_mints_fresh(h, event, target);
    assert forall|i: int|
        0 <= i < after.entries.len() && (#[trigger] after.entries[i]).id == target implies !(
    after.entries[i].liveness is Alive) by {
        match event {
            HostEvent::Register { exe, pid, capability, now } => {
                if h.register_verdict(exe, pid).is_ok() && i < m.entries.len() {
                    assert(m.entries[i].id == target);
                }
            },
            HostEvent::BeginSweep { now } => {
                assert(m.entries[i].id == target);
            },
            HostEvent::ProbeResolved { target: probed, outcome, now } => {
                assert(m.entries[i].id == target);
            },
            HostEvent::ProbesExpired { now } => {
                assert(m.entries[i].id == target);
            },
            HostEvent::FinishSweep => {
                if m.settled() {
                    lemma_finish_keeps_survivors(m, i);
                    let j = choose|j: int| 0 <= j < m.entries.len() && m.entries[j] == after.entries[i];
                    assert(m.entries[j].id == target);
                }
            },
            _ => {},
        }
    }
}

/// A target stays silent for as long as no answer of it arrives.
pub proof fn lemma_silent_throughout(h: HostModel, events: Seq<HostEvent>, target: TargetId)
    requires
        h.wf(),
        silent(h.registry, target),
        forall|k: int| 0 <= k < events.len() ==> !answers(#[trigger] events[k], target),
    ensures
        silent(h.run(events).registry, target),
        h.run(events).wf(),
    decreases events.len(),
{
    lemma_run_keeps_wf(h, events);
    if events.len() > 0 {
        let head = events.drop_last();
        assert forall|k: int| 0 <= k < head.len() implies !answers(#[trigger] head[k], target) by {
            assert(head[k] == events[k]);
        }
        lemma_silent_throughout(h, head, target);
        lemma_silent_stays_silent(h.run(head), events.last(), target);
    }
}

/// A sweep ends in time: once the clock has reached the registry's
/// horizon, which lies `PROBE_TIMEOUT_MS` after the start of the last
/// sweep, no probe is in flight any more, and the end of the sweep removes
/// every silent target and leaves none of its sessions active.
pub proof fn lemma_sweep_ends_in_time(h: HostModel, now: u64, target: TargetId)
    requires
        h.wf(),
        silent(h.registry, target),
        now >= h.registry.horizon(),
    ensures
        h.probes_expired(now).registry.settled(),
        !h.probes_expired(now).finish_sweep().registry.contains(target),
        forall|i: int|
            0 <= i < h.probes_expired(now).finish_sweep().sessions.len() && (
            #[trigger] h.probes_expired(now).finish_sweep().sessions[i]).target == target ==> !(
            h.probes_expired(now).finish_sweep().sessions[i].state is Active),
{
    let m = h.registry;
    let after = h.probes_expired(now);
    lemma_step_keeps_wf(h, HostEvent::ProbesExpired { now });
    lemma_expire_keeps_wf(m, now);
    assert forall|i: int|
        0 <= i < after.registry.entries.len() && (#[trigger] after.registry.entries[i]).id
            == target implies after.registry.entries[i].liveness is Dead by {
        assert(m.entries[i].id == target);
        if m.entries[i].liveness is PendingCheck {
            assert(m.entries[i].probe_deadline <= m.horizon());
        }
    }
    lemma_sweep_evicts_doomed(after, target);
}

/// Eviction liveness, in time: a target that does not answer its probe is
/// gone from the registry at the end of the sweep, and none of its
/// sessions is active any more. Whatever else happens in the meantime, the
/// sweep can end as soon as the probe's time is up, a quarter of a sweep
/// interval after the sweep began.
pub proof fn lemma_unanswered_probe_evicts(
    h: HostModel,
    start: u64,
    target: TargetId,
    meanwhile: Seq<HostEvent>,
    now: u64,
)
    requires
        h.wf(),
        h.registry.contains(target),
        forall|k: int| 0 <= k < meanwhile.len() ==> !answers(#[trigger] meanwhile[k], target),
        now >= h.begin_sweep(start).run(meanwhile).registry.horizon(),
    ensures
        ({
            let end = h.begin_sweep(start).run(meanwhile).probes_expired(now).finish_sweep();
            &&& h.begin_sweep(start).run(meanwhile).probes_expired(now).registry.settled()
            &&& !end.registry.contains(target)
            &&& forall|i: int|
                0 <= i < end.sessions.len() && (#[trigger] end.sessions[i]).target == target
                    ==> !(end.sessions[i].state is Active)
        }),
        h.begin_sweep(start).registry.horizon() <= h.registry.sweep_time(start) + PROBE_TIMEOUT_MS,
        PROBE_TIMEOUT_MS < SWEEP_INTERVAL_MS,
{
    let begun = h.begin_sweep(start);
    lemma_step_keeps_wf(h, HostEvent::BeginSweep { now: start });
    lemma_contained_is_minted(h.registry, target);
    assert forall|i: int|
        0 <= i < begun.registry.entries.len() && (#[trigger] begun.registry.entries[i]).id
            == target implies !(begun.registry.entries[i].liveness is Alive) by {
        assert(h.registry.entries[i].id == target);
    }
    lemma_silent_throughout(begun, meanwhile, target);
    lemma_sweep_ends_in_time(begun.run(meanwhile), now, target);
}

/// Eviction liveness: when a target's probe times out, fails or finds the
/// transport closed, then whatever else happens during the sweep, the
/// target is gone from the registry when the sweep ends, and none of its
/// sessions is active any more.
pub proof fn lemma_eviction_liveness(
    h: HostModel,
    target: TargetId,
    outcome: ProbeOutcome,
    now: u64,
    meanwhile: Seq<HostEvent>,
)
    requires
        h.wf(),
        h.registry.awaits(target),
        !(outcome is Responded),
        h.probe_resolved(target, outcome, now).run(meanwhile).registry.settled(),
    ensures
        ({
            let end = h.probe_resolved(target, outcome, now).run(meanwhile).finish_sweep();
            &&& !end.registry.contains(target)
            &&& forall|i: int|
                0 <= i < end.sessions.len() && (#[trigger] end.sessions[i]).target == target
                    ==> !(end.sessions[i].state is Active)
        }),
{
    let failed = h.probe_resolved(target, outcome, now);
    lemma_step_keeps_wf(h, HostEvent::ProbeResolved { target, outcome, now });
    lemma_failed_probe_dooms(h.registry, target, outcome, now);
    lemma_doomed_for_good(failed, meanwhile, target);
    lemma_sweep_evicts_doomed(failed.run(meanwhile), target);
}

/// The active session of an evicted target is stopped by the sweep that
/// evicts it, and is still in the table, for the encoder to be closed.
pub proof fn lemma_eviction_stops_session(h: HostModel, i: int)
    requires
        h.wf(),
        h.registry.settled(),
        0 <= i < h.sessions.len(),
        h.sessions[i].state is Active,
        !h.registry.finish().contains(h.sessions[i].target),
    ensures
        h.finish_sweep().sessions.len() == h.sessions.len(),
        h.finish_sweep().sessions[i] == h.sessions[i].stop(StopReason::TransportClosed),
        h.finish_sweep().sessions[i].state is Stopped,
{
}

/// Single active session: in no state that a supervisor can reach do two
/// sessions of one target negotiate or record at once.
pub proof fn lemma_single_active_session(policy: StopPolicy, events: Seq<HostEvent>, i: int, j: int)
    requires
        0 <= i < HostModel::new(policy).run(events).sessions.len(),
        0 <= j < HostModel::new(policy).run(events).sessions.len(),
        i != j,
        HostModel::new(policy).run(events).sessions[i].target == HostModel::new(policy).run(
            events,
        ).sessions[j].target,
    ensures
        !(HostModel::new(policy).run(events).sessions[i].live() && HostModel::new(policy).run(
            events,
        ).sessions[j].live()),
{
    let h = HostModel::new(policy).run(events);
    lemma_run_keeps_wf(HostModel::new(policy), events);
    if i < j {
        assert(!(h.sessions[i].live() && h.sessions[j].live()));
    } else {
        assert(!(h.sessions[j].live() && h.sessions[i].live()));
    }
}

/// A start-capture request for a target that is negotiating or recording
/// is refused with a conflict and changes nothing: the session it has goes
/// on as it was. The trigger does not start a second one either.
pub proof fn lemma_second_start_conflicts(h: HostModel, target: TargetId, now: u64)
    requires
        h.wf(),
        h.registry.contains(target),
        h.live_for(target),
    ensures
        h.start_verdict(target) == Err::<SessionId, HostError>(HostError::Conflict),
        h.start_capture(target, now) == h,
        h.trigger(target, now).sessions.len() == h.sessions.len(),
{
}

/// Idempotent stop: a second stop request leaves the supervisor as the
/// first one left it, and is not the one that ended the session, so the
/// encoder is closed once.
pub proof fn lemma_second_stop_changes_nothing(h: HostModel, id: SessionId, first: StopReason, second: StopReason)
    requires
        h.wf(),
    ensures
        h.stop_session(id, first).stop_session(id, second) == h.stop_session(id, first),
        !h.stop_session(id, first).stoppable(id),
{
    let once = h.stop_session(id, first);
    lemma_step_keeps_wf(h, HostEvent::Stop { session: id, reason: first });
    if h.has_session(id) {
        let i = h.position(id);
        assert(once.sessions[i].id == id);
        crate::host_model::lemma_position_unique(once, id, i);
        assert(once.stop_session(id, second).sessions =~= once.sessions);
    } else {
        assert(!once.has_session(id));
    }
}

} // verus!
