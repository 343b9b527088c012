//! The supervisor as a state machine: its state, the events that can
//! happen to it, and what each event makes of the state.
//!
//! Two rules tie sessions to targets. A target has at most one session that
//! is negotiating or active, so a start-capture request for a target that
//! has one is refused. And an active session belongs to a registered
//! target, so the sweep that evicts a target stops its session. Both hold
//! in every state that any sequence of events can reach.

use crate::frame::FrameView;
use crate::registry::{
    lemma_expire_keeps_wf,
    lemma_finish_keeps_wf,
    lemma_probing_keeps_wf,
    Capability,
    Evicted,
    ProbeOutcome,
    RegistryModel,
    TargetId,
};
use crate::session::{Ack, SessionId, SessionModel, SessionState, StopPolicy, StopReason};
use crate::sink::SinkError;
use crate::source::VideoSource;
use vstd::prelude::*;

verus! {

/// Why the supervisor refused a request.
#[derive(Clone, Copy, Debug, PartialEq, Eq, Structural)]
pub enum HostError {
    /// A registration without a process id or an executable path.
    MalformedRequest,
    /// Every identifier has been handed out.
    IdentifiersExhausted,
    /// No target is registered under the identifier.
    UnknownTarget,
    /// The target already has a session that is negotiating or active.
    Conflict,
    /// No session has the identifier.
    UnknownSession,
    /// The session is not negotiating.
    NotNegotiating,
    /// The sink turned the frame away.
    Frame(SinkError),
}

/// What the caller is to do after the trigger fired.
#[derive(Clone, Copy, Debug, PartialEq, Eq, Structural)]
pub enum TriggerAction {
    /// Nothing: the target is unknown, or it is still negotiating.
    Ignored,
    /// Send start-capture for this new session.
    Start(SessionId),
    /// Close the encoder of this session and invoke its stop capability.
    Stop(SessionId),
}

/// What the end of a sweep did.
pub struct SweepReport {
    /// The targets that were evicted.
    pub evicted: Vec<Evicted>,
    /// The sessions that the eviction ended; their encoders are to be
    /// closed.
    pub ended: Vec<SessionId>,
}

/// A pass over the session table that stops sessions.
#[derive(Clone, Copy, Debug, PartialEq, Eq, Structural)]
pub enum Pass {
    /// Stops the sessions whose target is no longer registered.
    Orphaned,
    /// Stops the sessions of one target, whose transport closed.
    CutOff(TargetId),
    /// Stops the sessions whose time budget is used up at the given time.
    Clock(u64),
}

/// Why the pass stops the session, if it does. Only an active session is
/// ever stopped.
pub open spec fn ends(s: SessionModel, pass: Pass, registry: RegistryModel) -> Option<StopReason> {
    if !(s.state is Active) {
        None
    } else {
        match pass {
            Pass::Orphaned => if registry.contains(s.target) {
                None
            } else {
                Some(StopReason::TransportClosed)
            },
            Pass::CutOff(target) => if s.target == target {
                Some(StopReason::TransportClosed)
            } else {
                None
            },
            Pass::Clock(now) => if s.expired(now) {
                Some(StopReason::TimeLimit)
            } else {
                None
            },
        }
    }
}

/// The session as the pass leaves it.
pub open spec fn after_pass(s: SessionModel, pass: Pass, registry: RegistryModel) -> SessionModel {
    match ends(s, pass, registry) {
        Some(reason) => s.stop(reason),
        None => s,
    }
}

/// The identifier of the session if the pass stops it.
pub open spec fn ended_id(s: SessionModel, pass: Pass, registry: RegistryModel) -> Option<SessionId> {
    match ends(s, pass, registry) {
        Some(_) => Some(s.id),
        None => None,
    }
}

/// The supervisor's state: the registry, the sessions in order of creation,
/// the number of session identifiers handed out, and the stop policy that
/// new sessions get.
pub struct HostModel {
    pub registry: RegistryModel,
    pub sessions: Seq<SessionModel>,
    pub minted: nat,
    pub policy: StopPolicy,
}

impl HostModel {
    /// A supervisor without targets or sessions.
    pub open spec fn new(policy: StopPolicy) -> HostModel {
        HostModel { registry: RegistryModel::empty(), sessions: Seq::empty(), minted: 0, policy }
    }

    /// No two sessions of one target are negotiating or active at once.
    pub open spec fn exclusive(self) -> bool {
        forall|i: int, j: int|
            0 <= i < j < self.sessions.len() && (#[trigger] self.sessions[i]).target == (
            #[trigger] self.sessions[j]).target ==> !(self.sessions[i].live()
                && self.sessions[j].live())
    }

    /// Every active session belongs to a registered target.
    pub open spec fn anchored(self) -> bool {
        forall|i: int|
            0 <= i < self.sessions.len() && (#[trigger] self.sessions[i]).state is Active
                ==> self.registry.contains(self.sessions[i].target)
    }

    /// The registry is well formed and so is every session; session
    /// identifiers grow along the table and lie below `minted`; and the two
    /// rules that tie sessions to targets hold.
    pub open spec fn wf(self) -> bool {
        &&& self.registry.wf()
        &&& forall|i: int| 0 <= i < self.sessions.len() ==> (#[trigger] self.sessions[i]).wf()
        &&& forall|i: int, j: int|
            0 <= i < j < self.sessions.len() ==> self.sessions[i].id.0 < self.sessions[j].id.0
        &&& forall|i: int|
            0 <= i < self.sessions.len() ==> (#[trigger] self.sessions[i]).id.0 < self.minted
        &&& self.exclusive()
        &&& self.anchored()
    }

    /// A session with the identifier `id` is in the table.
    pub open spec fn has_session(self, id: SessionId) -> bool {
        exists|i: int| 0 <= i < self.sessions.len() && (#[trigger] self.sessions[i]).id == id
    }

    /// Where the session `id` stands in the table.
    pub open spec fn position(self, id: SessionId) -> int {
        choose|i: int| 0 <= i < self.sessions.len() && (#[trigger] self.sessions[i]).id == id
    }

    /// The session `id`, if it is in the table.
    pub open spec fn session(self, id: SessionId) -> Option<SessionModel> {
        if self.has_session(id) {
            Some(self.sessions[self.position(id)])
        } else {
            None
        }
    }

    /// The supervisor with `s` in the place of the session `id`.
    pub open spec fn put(self, id: SessionId, s: SessionModel) -> HostModel {
        HostModel { sessions: self.sessions.update(self.position(id), s), ..self }
    }

    /// The supervisor without the session `id`.
    pub open spec fn without(self, id: SessionId) -> HostModel {
        HostModel { sessions: self.sessions.remove(self.position(id)), ..self }
    }

    /// The target has a session that is negotiating or active.
    pub open spec fn live_for(self, target: TargetId) -> bool {
        exists|i: int|
            0 <= i < self.sessions.len() && (#[trigger] self.sessions[i]).target == target
                && self.sessions[i].live()
    }

    /// The target has a session in the given state.
    pub open spec fn has_session_in(self, target: TargetId, state: SessionState) -> bool {
        exists|i: int|
            0 <= i < self.sessions.len() && (#[trigger] self.sessions[i]).target == target
                && self.sessions[i].state == state
    }

    /// The active session of the target.
    pub open spec fn active_for(self, target: TargetId) -> Option<SessionId> {
        if self.has_session_in(target, SessionState::Active) {
            Some(
                self.sessions[choose|i: int|
                    0 <= i < self.sessions.len() && (#[trigger] self.sessions[i]).target == target
                        && self.sessions[i].state == SessionState::Active].id,
            )
        } else {
            None
        }
    }

    /// Where the target stands with respect to recording: the state of its
    /// negotiating or active session if it has one; `Stopped` if all it has
    /// are sessions that ended; `Absent` if it has none.
    pub open spec fn state_of(self, target: TargetId) -> SessionState {
        if self.has_session_in(target, SessionState::Active) {
            SessionState::Active
        } else if self.has_session_in(target, SessionState::Negotiating) {
            SessionState::Negotiating
        } else if self.has_session_in(target, SessionState::Stopped) {
            SessionState::Stopped
        } else {
            SessionState::Absent
        }
    }

    /// The answer to a registration.
    pub open spec fn register_verdict(self, exe: Seq<char>, pid: u64) -> Result<
        TargetId,
        HostError,
    > {
        if !RegistryModel::well_formed_request(exe, pid) {
            Err(HostError::MalformedRequest)
        } else if self.registry.minted >= u64::MAX {
            Err(HostError::IdentifiersExhausted)
        } else {
            Ok(TargetId(self.registry.minted as u64))
        }
    }

    /// The supervisor after a registration. One that is refused changes
    /// nothing.
    pub open spec fn register(self, exe: Seq<char>, pid: u64, target: Capability, now: u64)
        -> HostModel {
        if self.register_verdict(exe, pid).is_ok() {
            HostModel { registry: self.registry.register(exe, pid, target, now), ..self }
        } else {
            self
        }
    }

    /// A sweep begins at `now`.
    pub open spec fn begin_sweep(self, now: u64) -> HostModel {
        HostModel { registry: self.registry.begin_sweep(now), ..self }
    }

    /// The clock was read as `now`: the probes whose time is up have
    /// failed.
    pub open spec fn probes_expired(self, now: u64) -> HostModel {
        HostModel { registry: self.registry.expire(now), ..self }
    }

    /// The probe for `target` ended with `outcome` at `now`.
    pub open spec fn probe_resolved(self, target: TargetId, outcome: ProbeOutcome, now: u64)
        -> HostModel {
        HostModel { registry: self.registry.resolve(target, outcome, now), ..self }
    }

    /// The sessions after a pass over the table, judged against `registry`.
    pub open spec fn swept(self, pass: Pass, registry: RegistryModel) -> Seq<SessionModel> {
        self.sessions.map_values(|s: SessionModel| after_pass(s, pass, registry))
    }

    /// The sessions that a pass over the table stops, in table order.
    pub open spec fn ended_by(self, pass: Pass, registry: RegistryModel) -> Seq<SessionId> {
        self.sessions.filter_map(|s: SessionModel| ended_id(s, pass, registry))
    }

    /// The end of a sweep: once no probe is in flight the dead targets leave
    /// and their active sessions stop.
    pub open spec fn finish_sweep(self) -> HostModel {
        if self.registry.settled() {
            HostModel {
                registry: self.registry.finish(),
                sessions: self.swept(Pass::Orphaned, self.registry.finish()),
                ..self
            }
        } else {
            self
        }
    }

    /// The answer to a start-capture request for `target`.
    pub open spec fn start_verdict(self, target: TargetId) -> Result<SessionId, HostError> {
        if !self.registry.contains(target) {
            Err(HostError::UnknownTarget)
        } else if self.live_for(target) {
            Err(HostError::Conflict)
        } else if self.minted >= u64::MAX {
            Err(HostError::IdentifiersExhausted)
        } else {
            Ok(SessionId(self.minted as u64))
        }
    }

    /// The supervisor after a start-capture request: the target has a new
    /// session that negotiates. A request that is refused changes nothing.
    pub open spec fn start_capture(self, target: TargetId, now: u64) -> HostModel {
        match self.start_verdict(target) {
            Ok(id) => HostModel {
                sessions: self.sessions.push(
                    SessionModel::negotiating(id, target, self.policy, now),
                ),
                minted: self.minted + 1,
                ..self
            },
            Err(_) => self,
        }
    }

    /// The answer to the news that the agent accepted session `id`.
    pub open spec fn negotiation_verdict(self, id: SessionId) -> Result<(), HostError> {
        match self.session(id) {
            None => Err(HostError::UnknownSession),
            Some(s) => if !(s.state is Negotiating) {
                Err(HostError::NotNegotiating)
            } else if !self.registry.contains(s.target) {
                Err(HostError::UnknownTarget)
            } else {
                Ok(())
            },
        }
    }

    /// The agent accepted: the session becomes active. Where its target was
    /// evicted in the meantime, the session is dropped instead.
    pub open spec fn negotiation_succeeded(self, id: SessionId, source: VideoSource, stop: Capability)
        -> HostModel {
        match self.negotiation_verdict(id) {
            Ok(()) => self.put(id, self.session(id).unwrap().activate(source, stop)),
            Err(HostError::UnknownTarget) => self.without(id),
            Err(_) => self,
        }
    }

    /// The answer to the news that the negotiation of session `id` failed.
    pub open spec fn failure_verdict(self, id: SessionId) -> Result<(), HostError> {
        match self.session(id) {
            None => Err(HostError::UnknownSession),
            Some(s) => if !(s.state is Negotiating) {
                Err(HostError::NotNegotiating)
            } else {
                Ok(())
            },
        }
    }

    /// The negotiation failed: the session is dropped.
    pub open spec fn negotiation_failed(self, id: SessionId) -> HostModel {
        match self.failure_verdict(id) {
            Ok(()) => self.without(id),
            Err(_) => self,
        }
    }

    /// The answer to a frame for session `id`.
    pub open spec fn frame_verdict(self, id: SessionId, frame: FrameView) -> Result<
        Ack,
        HostError,
    > {
        match self.session(id) {
            None => Err(HostError::UnknownSession),
            Some(s) => match s.verdict(frame) {
                Ok(ack) => Ok(ack),
                Err(e) => Err(HostError::Frame(e)),
            },
        }
    }

    /// The supervisor after a frame for session `id`.
    pub open spec fn submit_frame(self, id: SessionId, frame: FrameView) -> HostModel {
        match self.session(id) {
            None => self,
            Some(s) => self.put(id, s.submit(frame)),
        }
    }

    /// The session `id` is active, so a stop request ends it.
    pub open spec fn stoppable(self, id: SessionId) -> bool {
        self.session(id) matches Some(s) && s.state is Active
    }

    /// The supervisor after a stop request for session `id`.
    pub open spec fn stop_session(self, id: SessionId, reason: StopReason) -> HostModel {
        match self.session(id) {
            None => self,
            Some(s) => self.put(id, s.stop(reason)),
        }
    }

    /// The transport to `target` closed: its active session stops.
    pub open spec fn transport_closed(self, target: TargetId) -> HostModel {
        HostModel { sessions: self.swept(Pass::CutOff(target), self.registry), ..self }
    }

    /// The clock was read as `now`: the sessions whose time budget is used
    /// up stop.
    pub open spec fn tick(self, now: u64) -> HostModel {
        HostModel { sessions: self.swept(Pass::Clock(now), self.registry), ..self }
    }

    /// The session `id` has stopped, so it can be forgotten.
    pub open spec fn forgettable(self, id: SessionId) -> bool {
        self.session(id) matches Some(s) && s.state is Stopped
    }

    /// The supervisor after the request to forget session `id`: a session
    /// that has stopped leaves the table.
    pub open spec fn forget(self, id: SessionId) -> HostModel {
        if self.forgettable(id) {
            self.without(id)
        } else {
            self
        }
    }

    /// What the trigger leads to for `target`.
    pub open spec fn trigger_action(self, target: TargetId) -> TriggerAction {
        if !self.registry.contains(target) {
            TriggerAction::Ignored
        } else {
            match self.active_for(target) {
                Some(id) => TriggerAction::Stop(id),
                None => match self.start_verdict(target) {
                    Ok(id) => TriggerAction::Start(id),
                    Err(_) => TriggerAction::Ignored,
                },
            }
        }
    }

    /// The trigger toggles recording: it stops the target's active session,
    /// or starts one where the target has none.
    pub open spec fn trigger(self, target: TargetId, now: u64) -> HostModel {
        match self.trigger_action(target) {
            TriggerAction::Stop(id) => self.stop_session(id, StopReason::Explicit),
            TriggerAction::Start(_) => self.start_capture(target, now),
            TriggerAction::Ignored => self,
        }
    }

    /// The supervisor after `event`.
    pub open spec fn step(self, event: HostEvent) -> HostModel {
        match event {
            HostEvent::Register { exe, pid, capability, now } => self.register(
                exe,
                pid,
                capability,
                now,
            ),
            HostEvent::BeginSweep { now } => self.begin_sweep(now),
            HostEvent::ProbeResolved { target, outcome, now } => self.probe_resolved(
                target,
                outcome,
                now,
            ),
            HostEvent::ProbesExpired { now } => self.probes_expired(now),
            HostEvent::FinishSweep => self.finish_sweep(),
            HostEvent::StartCapture { target, now } => self.start_capture(target, now),
            HostEvent::NegotiationSucceeded { session, source, stop } => self.negotiation_succeeded(
                session,
                source,
                stop,
            ),
            HostEvent::NegotiationFailed { session } => self.negotiation_failed(session),
            HostEvent::Frame { session, frame } => self.submit_frame(session, frame),
            HostEvent::Stop { session, reason } => self.stop_session(session, reason),
            HostEvent::Trigger { target, now } => self.trigger(target, now),
            HostEvent::TransportClosed { target } => self.transport_closed(target),
            HostEvent::Tick { now } => self.tick(now),
            HostEvent::Forget { session } => self.forget(session),
        }
    }

    /// The supervisor after a sequence of events, first to last.
    pub open spec fn run(self, events: Seq<HostEvent>) -> HostModel
        decreases events.len(),
    {
        if events.len() == 0 {
            self
        } else {
            self.run(events.drop_last()).step(events.last())
        }
    }
}

/// Anything that can happen to a supervisor.
pub enum HostEvent {
    Register { exe: Seq<char>, pid: u64, capability: Capability, now: u64 },
    BeginSweep { now: u64 },
    ProbeResolved { target: TargetId, outcome: ProbeOutcome, now: u64 },
    ProbesExpired { now: u64 },
    FinishSweep,
    StartCapture { target: TargetId, now: u64 },
    NegotiationSucceeded { session: SessionId, source: VideoSource, stop: Capability },
    NegotiationFailed { session: SessionId },
    Frame { session: SessionId, frame: FrameView },
    Stop { session: SessionId, reason: StopReason },
    Trigger { target: TargetId, now: u64 },
    TransportClosed { target: TargetId },
    Tick { now: u64 },
    Forget { session: SessionId },
}

/// In a well-formed supervisor a session identifier names one place in the
/// table.
pub proof fn lemma_position_unique(h: HostModel, id: SessionId, i: int)
    requires
        h.wf(),
        0 <= i < h.sessions.len(),
        h.sessions[i].id == id,
    ensures
        h.has_session(id),
        h.position(id) == i,
        h.session(id) == Some(h.sessions[i]),
{
    let c = h.position(id);
    if c < i {
        assert(h.sessions[c].id.0 < h.sessions[i].id.0);
    }
    if c > i {
        assert(h.sessions[i].id.0 < h.sessions[c].id.0);
    }
}

/// Replacing a session by a later stage of the same recording keeps the
/// supervisor well formed, as long as the stage is not newly live and is
/// active only where the target is registered.
proof fn lemma_put_keeps_wf(h: HostModel, i: int, s: SessionModel)
    requires
        h.wf(),
        0 <= i < h.sessions.len(),
        s.wf(),
        s.id == h.sessions[i].id,
        s.target == h.sessions[i].target,
        s.live() ==> h.sessions[i].live(),
        s.state is Active ==> h.registry.contains(s.target),
    ensures
        (HostModel { sessions: h.sessions.update(i, s), ..h }).wf(),
{
    let after = HostModel { sessions: h.sessions.update(i, s), ..h };
    assert forall|a: int, b: int|
        0 <= a < b < after.sessions.len() && (#[trigger] after.sessions[a]).target == (
        #[trigger] after.sessions[b]).target implies !(after.sessions[a].live()
        && after.sessions[b].live()) by {
        assert(h.sessions[a].target == h.sessions[b].target);
    }
    assert forall|a: int|
        0 <= a < after.sessions.len() && (#[trigger] after.sessions[a]).state
            is Active implies after.registry.contains(after.sessions[a].target) by {
        if a != i {
            assert(h.sessions[a].state is Active);
        }
    }
    assert forall|a: int, b: int| 0 <= a < b < after.sessions.len() implies after.sessions[a].id.0
        < after.sessions[b].id.0 by {
        assert(h.sessions[a].id.0 < h.sessions[b].id.0);
    }
    assert forall|a: int| 0 <= a < after.sessions.len() implies (
    #[trigger] after.sessions[a]).id.0 < after.minted by {
        assert(h.sessions[a].id.0 < h.minted);
    }
    assert forall|a: int| 0 <= a < after.sessions.len() implies (
    #[trigger] after.sessions[a]).wf() by {
        if a != i {
            assert(h.sessions[a].wf());
        }
    }
}

/// Dropping a session keeps the supervisor well formed.
proof fn lemma_remove_keeps_wf(h: HostModel, i: int)
    requires
        h.wf(),
        0 <= i < h.sessions.len(),
    ensures
        (HostModel { sessions: h.sessions.remove(i), ..h }).wf(),
{
    let after = HostModel { sessions: h.sessions.remove(i), ..h };
    let from = |a: int| if a < i { a } else { a + 1 };
    assert forall|a: int| 0 <= a < after.sessions.len() implies #[trigger] after.sessions[a]
        == h.sessions[from(a)] by {}
    assert forall|a: int, b: int|
        0 <= a < b < after.sessions.len() && (#[trigger] after.sessions[a]).target == (
        #[trigger] after.sessions[b]).target implies !(after.sessions[a].live()
        && after.sessions[b].live()) by {
        assert(h.sessions[from(a)].target == h.sessions[from(b)].target);
    }
    assert forall|a: int|
        0 <= a < after.sessions.len() && (#[trigger] after.sessions[a]).state
            is Active implies after.registry.contains(after.sessions[a].target) by {
        assert(h.sessions[from(a)].state is Active);
    }
    assert forall|a: int, b: int| 0 <= a < b < after.sessions.len() implies after.sessions[a].id.0
        < after.sessions[b].id.0 by {
        assert(h.sessions[from(a)].id.0 < h.sessions[from(b)].id.0);
    }
    assert forall|a: int| 0 <= a < after.sessions.len() implies (
    #[trigger] after.sessions[a]).id.0 < after.minted by {
        assert(h.sessions[from(a)].id.0 < h.minted);
    }
    assert forall|a: int| 0 <= a < after.sessions.len() implies (
    #[trigger] after.sessions[a]).wf() by {
        assert(h.sessions[from(a)].wf());
    }
}

/// Stopping some of the sessions keeps the supervisor well formed, whatever
/// becomes of the registry, as long as every session that stays active
/// keeps its target.
proof fn lemma_stops_keep_wf(h: HostModel, after: HostModel)
    requires
        h.wf(),
        after.registry.wf(),
        after.minted == h.minted,
        after.sessions.len() == h.sessions.len(),
        forall|i: int|
            0 <= i < h.sessions.len() ==> {
                ||| (#[trigger] after.sessions[i]) == h.sessions[i] && (h.sessions[i].state
                    is Active ==> after.registry.contains(h.sessions[i].target))
                ||| h.sessions[i].state is Active && exists|reason: StopReason|
                    after.sessions[i] == h.sessions[i].stop(reason)
            },
    ensures
        after.wf(),
{
    assert forall|a: int, b: int|
        0 <= a < b < after.sessions.len() && (#[trigger] after.sessions[a]).target == (
        #[trigger] after.sessions[b]).target implies !(after.sessions[a].live()
        && after.sessions[b].live()) by {
        assert(h.sessions[a].target == h.sessions[b].target);
    }
    assert forall|a: int, b: int| 0 <= a < b < after.sessions.len() implies after.sessions[a].id.0
        < after.sessions[b].id.0 by {
        assert(h.sessions[a].id.0 < h.sessions[b].id.0);
    }
    assert forall|a: int| 0 <= a < after.sessions.len() implies (
    #[trigger] after.sessions[a]).id.0 < after.minted by {
        assert(h.sessions[a].id.0 < h.minted);
    }
    assert forall|a: int| 0 <= a < after.sessions.len() implies (
    #[trigger] after.sessions[a]).wf() by {
        assert(h.sessions[a].wf());
    }
}

/// A new registration keeps every registered target registered.
proof fn lemma_register_keeps_targets(m: RegistryModel, exe: Seq<char>, pid: u64, target: Capability, now: u64)
    requires
        m.wf(),
        m.minted < u64::MAX,
    ensures
        m.register(exe, pid, target, now).wf(),
        forall|id: TargetId| m.contains(id) ==> m.register(exe, pid, target, now).contains(id),
        m.register(exe, pid, target, now).contains(TargetId(m.minted as u64)),
        !m.contains(TargetId(m.minted as u64)),
{
    let after = m.register(exe, pid, target, now);
    assert forall|id: TargetId| m.contains(id) implies after.contains(id) by {
        let i = choose|i: int| 0 <= i < m.entries.len() && (#[trigger] m.entries[i]).id == id;
        assert(after.entries[i].id == id);
    }
    assert(after.entries[m.entries.len() as int].id == TargetId(m.minted as u64));
}

/// Every event keeps a supervisor well formed.
pub proof fn lemma_step_keeps_wf(h: HostModel, event: HostEvent)
    requires
        h.wf(),
    ensures
        h.step(event).wf(),
{
    match event {
        HostEvent::Register { exe, pid, capability, now } => {
            if h.register_verdict(exe, pid).is_ok() {
                lemma_register_keeps_targets(h.registry, exe, pid, capability, now);
            }
        },
        HostEvent::BeginSweep { now } => {
            lemma_probing_keeps_wf(h.registry, now, TargetId(0), ProbeOutcome::Responded);
        },
        HostEvent::ProbeResolved { target, outcome, now } => {
            lemma_probing_keeps_wf(h.registry, now, target, outcome);
        },
        HostEvent::ProbesExpired { now } => {
            lemma_expire_keeps_wf(h.registry, now);
        },
        HostEvent::FinishSweep => {
            lemma_finish_sweep_keeps_wf(h);
        },
        HostEvent::StartCapture { target, now } => {
            lemma_start_keeps_wf(h, target, now);
        },
        HostEvent::NegotiationSucceeded { session, source, stop } => {
            lemma_negotiation_keeps_wf(h, session, source, stop);
        },
        HostEvent::NegotiationFailed { session } => {
            lemma_negotiation_keeps_wf(h, session, arbitrary(), arbitrary());
        },
        HostEvent::Frame { session, frame } => {
            lemma_session_step_keeps_wf(h, session, frame, StopReason::Explicit);
        },
        HostEvent::Stop { session, reason } => {
            lemma_session_step_keeps_wf(h, session, arbitrary(), reason);
        },
        HostEvent::Trigger { target, now } => {
            lemma_trigger_keeps_wf(h, target, now);
        },
        HostEvent::TransportClosed { target } => {
            lemma_sweeping_stops_keep_wf(h, target, 0);
        },
        HostEvent::Tick { now } => {
            lemma_sweeping_stops_keep_wf(h, TargetId(0), now);
        },
        HostEvent::Forget { session } => {
            if h.forgettable(session) {
                lemma_remove_keeps_wf(h, h.position(session));
            }
        },
    }
}

/// A pass over the table keeps a supervisor well formed, whatever becomes
/// of the registry, as long as the sessions that stay active keep their
/// targets.
proof fn lemma_pass_keeps_wf(h: HostModel, pass: Pass, registry: RegistryModel)
    requires
        h.wf(),
        registry.wf(),
        pass is Orphaned || forall|t: TargetId| h.registry.contains(t) ==> registry.contains(t),
    ensures
        (HostModel { registry, sessions: h.swept(pass, registry), ..h }).wf(),
{
    let after = HostModel { registry, sessions: h.swept(pass, registry), ..h };
    assert forall|i: int| 0 <= i < h.sessions.len() implies {
        ||| (#[trigger] after.sessions[i]) == h.sessions[i] && (h.sessions[i].state is Active
            ==> after.registry.contains(h.sessions[i].target))
        ||| h.sessions[i].state is Active && exists|reason: StopReason|
            after.sessions[i] == h.sessions[i].stop(reason)
    } by {
        let s = h.sessions[i];
        match ends(s, pass, registry) {
            Some(reason) => {
                assert(after.sessions[i] == s.stop(reason));
            },
            None => {
                if s.state is Active {
                    assert(h.registry.contains(s.target));
                }
            },
        }
    }
    lemma_stops_keep_wf(h, after);
}

/// The end of a sweep keeps a supervisor well formed.
pub proof fn lemma_finish_sweep_keeps_wf(h: HostModel)
    requires
        h.wf(),
    ensures
        h.finish_sweep().wf(),
{
    if h.registry.settled() {
        lemma_finish_keeps_wf(h.registry);
        lemma_pass_keeps_wf(h, Pass::Orphaned, h.registry.finish());
    }
}

/// A start-capture request keeps a supervisor well formed.
pub proof fn lemma_start_keeps_wf(h: HostModel, target: TargetId, now: u64)
    requires
        h.wf(),
    ensures
        h.start_capture(target, now).wf(),
{
    let after = h.start_capture(target, now);
    if h.start_verdict(target).is_ok() {
        let n = h.sessions.len() as int;
        assert forall|a: int, b: int|
            0 <= a < b < after.sessions.len() && (#[trigger] after.sessions[a]).target == (
            #[trigger] after.sessions[b]).target implies !(after.sessions[a].live()
            && after.sessions[b].live()) by {
            if b == n {
                assert(h.sessions[a].target == target);
                assert(!h.sessions[a].live());
            } else {
                assert(h.sessions[a].target == h.sessions[b].target);
            }
        }
        assert forall|a: int|
            0 <= a < after.sessions.len() && (#[trigger] after.sessions[a]).state
                is Active implies after.registry.contains(after.sessions[a].target) by {
            assert(h.sessions[a].state is Active);
        }
        assert forall|a: int, b: int|
            0 <= a < b < after.sessions.len() implies after.sessions[a].id.0
            < after.sessions[b].id.0 by {
            if b == n {
                assert(h.sessions[a].id.0 < h.minted);
            } else {
                assert(h.sessions[a].id.0 < h.sessions[b].id.0);
            }
        }
        assert forall|a: int| 0 <= a < after.sessions.len() implies (
        #[trigger] after.sessions[a]).id.0 < after.minted by {
            if a < n {
                assert(h.sessions[a].id.0 < h.minted);
            }
        }
        assert forall|a: int| 0 <= a < after.sessions.len() implies (
        #[trigger] after.sessions[a]).wf() by {
            if a < n {
                assert(h.sessions[a].wf());
            }
        }
    }
}

/// The end of a negotiation, either way, keeps a supervisor well formed.
pub proof fn lemma_negotiation_keeps_wf(h: HostModel, id: SessionId, source: VideoSource, stop: Capability)
    requires
        h.wf(),
    ensures
        h.negotiation_succeeded(id, source, stop).wf(),
        h.negotiation_failed(id).wf(),
{
    if h.has_session(id) {
        let i = h.position(id);
        let s = h.sessions[i];
        if s.state is Negotiating {
            lemma_remove_keeps_wf(h, i);
            if h.registry.contains(s.target) {
                lemma_put_keeps_wf(h, i, s.activate(source, stop));
            }
        }
    }
}

/// A frame or a stop request keeps a supervisor well formed.
pub proof fn lemma_session_step_keeps_wf(h: HostModel, id: SessionId, frame: FrameView, reason: StopReason)
    requires
        h.wf(),
    ensures
        h.submit_frame(id, frame).wf(),
        h.stop_session(id, reason).wf(),
{
    if h.has_session(id) {
        let i = h.position(id);
        let s = h.sessions[i];
        assert(s.wf());
        if s.state is Active {
            assert(h.registry.contains(s.target));
        }
        lemma_put_keeps_wf(h, i, s.submit(frame));
        lemma_put_keeps_wf(h, i, s.stop(reason));
    }
}

/// The trigger keeps a supervisor well formed.
pub proof fn lemma_trigger_keeps_wf(h: HostModel, target: TargetId, now: u64)
    requires
        h.wf(),
    ensures
        h.trigger(target, now).wf(),
{
    lemma_start_keeps_wf(h, target, now);
    match h.trigger_action(target) {
        TriggerAction::Stop(id) => {
            lemma_session_step_keeps_wf(h, id, arbitrary(), StopReason::Explicit);
        },
        _ => {},
    }
}

/// The loss of a transport and the passing of time keep a supervisor well
/// formed.
pub proof fn lemma_sweeping_stops_keep_wf(h: HostModel, target: TargetId, now: u64)
    requires
        h.wf(),
    ensures
        h.transport_closed(target).wf(),
        h.tick(now).wf(),
{
    lemma_pass_keeps_wf(h, Pass::CutOff(target), h.registry);
    lemma_pass_keeps_wf(h, Pass::Clock(now), h.registry);
}

/// Whatever happens to a supervisor, in whatever order, it stays well
/// formed.
pub proof fn lemma_run_keeps_wf(h: HostModel, events: Seq<HostEvent>)
    requires
        h.wf(),
    ensures
        h.run(events).wf(),
    decreases events.len(),
{
    if events.len() > 0 {
        lemma_run_keeps_wf(h, events.drop_last());
        lemma_step_keeps_wf(h.run(events.drop_last()), events.last());
    }
}

} // verus!
