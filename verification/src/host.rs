//! The supervisor: the registry of agents together with their capture
//! sessions.
//!
//! The supervisor owns all of its state and performs no I/O. Each of its
//! operations takes what happened (a request arrived, a probe ended, a
//! frame came in) and says what is to be done; the caller performs the
//! remote calls and drives the encoder. What an operation returns and what
//! it makes of the state are given by the state machine in `host_model`.

use crate::frame::VideoFrameEnvelope;
use crate::host_model::{
    ended_id,
    after_pass,
    lemma_position_unique,
    lemma_step_keeps_wf,
    HostError,
    HostEvent,
    HostModel,
    Pass,
    SweepReport,
    TriggerAction,
};
use crate::registry::{
    Capability,
    Probe,
    ProbeOutcome,
    RegistryError,
    TargetId,
    TargetRegistry,
};
use crate::session::{
    Ack,
    CaptureSession,
    SessionId,
    SessionModel,
    SessionState,
    StopPolicy,
    StopReason,
    DEFAULT_FRAME_BUDGET,
};
use crate::source::VideoSource;
use vstd::prelude::*;

verus! {

/// The supervisor's state: one per process.
pub struct HostImpl {
    registry: TargetRegistry,
    sessions: Vec<CaptureSession>,
    next_session: u64,
    policy: StopPolicy,
}

impl View for HostImpl {
    type V = HostModel;

    closed spec fn view(&self) -> HostModel {
        HostModel {
            registry: self.registry@,
            sessions: self.sessions@.map_values(|s: CaptureSession| s@),
            minted: self.next_session as nat,
            policy: self.policy,
        }
    }
}

impl HostImpl {
    pub open spec fn wf(&self) -> bool {
        self@.wf()
    }

    /// A supervisor without targets whose sessions stop after
    /// `DEFAULT_FRAME_BUDGET` frames.
    pub fn new() -> (h: HostImpl)
        ensures
            h.wf(),
            h@ == HostModel::new(
                StopPolicy { max_frames: DEFAULT_FRAME_BUDGET, max_millis: u64::MAX },
            ),
    {
        HostImpl::with_policy(StopPolicy::frame_budget(DEFAULT_FRAME_BUDGET))
    }

    /// A supervisor without targets whose sessions stop as `policy` says.
    pub fn with_policy(policy: StopPolicy) -> (h: HostImpl)
        ensures
            h.wf(),
            h@ == HostModel::new(policy),
    {
        let h = HostImpl {
            registry: TargetRegistry::new(),
            sessions: Vec::new(),
            next_session: 0,
            policy,
        };
        assert(h@.sessions =~= Seq::<SessionModel>::empty());
        h
    }

    /// The table of registered targets.
    pub fn registry(&self) -> (r: &TargetRegistry)
        ensures
            r@ == self@.registry,
    {
        &self.registry
    }

    /// The policy that new sessions get.
    pub fn policy(&self) -> (p: StopPolicy)
        ensures
            p == self@.policy,
    {
        self.policy
    }

    /// Number of sessions in the table, stopped ones included.
    pub fn session_count(&self) -> (n: usize)
        ensures
            n == self@.sessions.len(),
    {
        self.sessions.len()
    }

    fn find(&self, id: SessionId) -> (r: Option<usize>)
        requires
            self.wf(),
        ensures
            match r {
                Some(i) => {
                    &&& i < self.sessions.len()
                    &&& self@.has_session(id)
                    &&& self@.position(id) == i
                    &&& self@.session(id) == Some(self.sessions[i as int]@)
                    &&& self@.sessions[i as int] == self.sessions[i as int]@
                },
                None => !self@.has_session(id) && self@.session(id).is_none(),
            },
    {
        let mut i: usize = 0;
        while i < self.sessions.len()
            invariant
                self.wf(),
                i <= self.sessions.len(),
                forall|j: int| 0 <= j < i ==> self.sessions[j]@.id != id,
            decreases self.sessions.len() - i,
        {
            if self.sessions[i].id() == id {
                proof {
                    assert(self@.sessions[i as int] == self.sessions[i as int]@);
                    lemma_position_unique(self@, id, i as int);
                }
                return Some(i);
            }
            i += 1;
        }
        assert forall|j: int| 0 <= j < self@.sessions.len() implies (
        #[trigger] self@.sessions[j]).id != id by {
            assert(self@.sessions[j] == self.sessions[j]@);
        }
        None
    }

    /// The session `id`, as it stands.
    pub fn session(&self, id: SessionId) -> (r: Option<CaptureSession>)
        requires
            self.wf(),
        ensures
            match r {
                Some(s) => self@.session(id) == Some(s@) && s.wf(),
                None => self@.session(id).is_none(),
            },
    {
        match self.find(id) {
            Some(i) => Some(self.sessions[i]),
            None => None,
        }
    }

    fn has_live(&self, target: TargetId) -> (b: bool)
        ensures
            b == self@.live_for(target),
    {
        let mut i: usize = 0;
        while i < self.sessions.len()
            invariant
                i <= self.sessions.len(),
                forall|j: int|
                    0 <= j < i ==> !(self.sessions[j]@.target == target
                        && self.sessions[j]@.live()),
            decreases self.sessions.len() - i,
        {
            if self.sessions[i].target() == target && self.sessions[i].live() {
                assert(self@.sessions[i as int] == self.sessions[i as int]@);
                return true;
            }
            i += 1;
        }
        assert forall|j: int| 0 <= j < self@.sessions.len() implies !((
        #[trigger] self@.sessions[j]).target == target && self@.sessions[j].live()) by {
            assert(self@.sessions[j] == self.sessions[j]@);
        }
        false
    }

    fn has_in(&self, target: TargetId, state: SessionState) -> (r: Option<usize>)
        ensures
            r.is_some() == self@.has_session_in(target, state),
            r matches Some(i) ==> i < self.sessions.len() && self.sessions[i as int]@.target
                == target && self.sessions[i as int]@.state == state && self@.sessions[i as int]
                == self.sessions[i as int]@,
    {
        let mut i: usize = 0;
        while i < self.sessions.len()
            invariant
                i <= self.sessions.len(),
                forall|j: int|
                    0 <= j < i ==> !(self.sessions[j]@.target == target
                        && self.sessions[j]@.state == state),
            decreases self.sessions.len() - i,
        {
            if self.sessions[i].target() == target && self.sessions[i].state() == state {
                assert(self@.sessions[i as int] == self.sessions[i as int]@);
                return Some(i);
            }
            i += 1;
        }
        assert forall|j: int| 0 <= j < self@.sessions.len() implies !((
        #[trigger] self@.sessions[j]).target == target && self@.sessions[j].state == state) by {
            assert(self@.sessions[j] == self.sessions[j]@);
        }
        None
    }

    /// The active session of `target`, if it has one.
    pub fn active_session(&self, target: TargetId) -> (r: Option<SessionId>)
        requires
            self.wf(),
        ensures
            r == self@.active_for(target),
    {
        match self.has_in(target, SessionState::Active) {
            Some(i) => {
                proof {
                    let c = choose|c: int|
                        0 <= c < self@.sessions.len() && (#[trigger] self@.sessions[c]).target
                            == target && self@.sessions[c].state == SessionState::Active;
                    if c < i {
                        assert(!(self@.sessions[c].live() && self@.sessions[i as int].live()));
                    }
                    if c > i {
                        assert(!(self@.sessions[i as int].live() && self@.sessions[c].live()));
                    }
                }
                Some(self.sessions[i].id())
            },
            None => None,
        }
    }

    /// Where `target` stands with respect to recording.
    pub fn session_state(&self, target: TargetId) -> (s: SessionState)
        ensures
            s == self@.state_of(target),
    {
        if self.has_in(target, SessionState::Active).is_some() {
            SessionState::Active
        } else if self.has_in(target, SessionState::Negotiating).is_some() {
            SessionState::Negotiating
        } else if self.has_in(target, SessionState::Stopped).is_some() {
            SessionState::Stopped
        } else {
            SessionState::Absent
        }
    }

    /// The target that registered with the capability.
    pub fn holder(&self, capability: Capability) -> (r: Option<TargetId>)
        ensures
            r == self@.registry.holder(capability),
    {
        self.registry.holder(capability)
    }

    /// Whether the negotiation of session `id` can succeed as things stand.
    pub fn negotiation_check(&self, id: SessionId) -> (r: Result<(), HostError>)
        requires
            self.wf(),
        ensures
            r == self@.negotiation_verdict(id),
    {
        match self.find(id) {
            None => Err(HostError::UnknownSession),
            Some(i) => {
                if self.sessions[i].state() != SessionState::Negotiating {
                    Err(HostError::NotNegotiating)
                } else if !self.registry.contains(self.sessions[i].target()) {
                    Err(HostError::UnknownTarget)
                } else {
                    Ok(())
                }
            },
        }
    }

    /// Registers an agent under a fresh identifier.
    pub fn register_target(&mut self, exec_path: &str, pid: u64, target: Capability, now: u64)
        -> (r: Result<TargetId, HostError>)
        requires
            old(self).wf(),
        ensures
            final(self).wf(),
            r == old(self)@.register_verdict(exec_path@, pid),
            final(self)@ == old(self)@.register(exec_path@, pid, target, now),
    {
        proof {
            lemma_step_keeps_wf(
                self@,
                HostEvent::Register { exe: exec_path@, pid, capability: target, now },
            );
        }
        match self.registry.register(exec_path, pid, target, now) {
            Ok(id) => Ok(id),
            Err(RegistryError::MalformedRequest) => Err(HostError::MalformedRequest),
            Err(RegistryError::IdentifiersExhausted) => Err(HostError::IdentifiersExhausted),
        }
    }

    /// Whether the next sweep is due at `now`.
    pub fn sweep_due(&self, now: u64) -> (due: bool)
        ensures
            due == self@.registry.sweep_due(now),
    {
        self.registry.sweep_due(now)
    }

    /// Starts a sweep at `now` and returns the probes to issue.
    pub fn begin_sweep(&mut self, now: u64) -> (probes: Vec<Probe>)
        requires
            old(self).wf(),
        ensures
            final(self).wf(),
            final(self)@ == old(self)@.begin_sweep(now),
            probes@ == old(self)@.registry.probes(),
    {
        proof {
            lemma_step_keeps_wf(self@, HostEvent::BeginSweep { now });
        }
        self.registry.begin_sweep(now)
    }

    /// Fails every probe in flight whose time is up at `now`, and returns
    /// the targets whose probes it failed.
    pub fn expire_probes(&mut self, now: u64) -> (lapsed: Vec<TargetId>)
        requires
            old(self).wf(),
        ensures
            final(self).wf(),
            final(self)@ == old(self)@.probes_expired(now),
            lapsed@ == old(self)@.registry.lapsed(now),
    {
        proof {
            lemma_step_keeps_wf(self@, HostEvent::ProbesExpired { now });
        }
        self.registry.expire_probes(now)
    }

    /// Records how the probe for `target` ended. Returns whether a probe for
    /// it was in flight.
    pub fn probe_resolved(&mut self, target: TargetId, outcome: ProbeOutcome, now: u64) -> (applied:
        bool)
        requires
            old(self).wf(),
        ensures
            final(self).wf(),
            final(self)@ == old(self)@.probe_resolved(target, outcome, now),
            applied == old(self)@.registry.awaits(target),
    {
        proof {
            lemma_step_keeps_wf(self@, HostEvent::ProbeResolved { target, outcome, now });
        }
        self.registry.probe_resolved(target, outcome, now)
    }

    fn sweep_sessions(&mut self, pass: Pass) -> (ended: Vec<SessionId>)
        requires
            forall|i: int|
                0 <= i < old(self).sessions.len() ==> (#[trigger] old(self).sessions[i]).wf(),
        ensures
            final(self).registry == old(self).registry,
            final(self).next_session == old(self).next_session,
            final(self).policy == old(self).policy,
            final(self)@.sessions == old(self)@.swept(pass, old(self)@.registry),
            ended@ == old(self)@.ended_by(pass, old(self)@.registry),
    {
        let ghost before = self@;
        let ghost g = |s: SessionModel| ended_id(s, pass, before.registry);
        let mut ended: Vec<SessionId> = Vec::new();
        let mut i: usize = 0;
        while i < self.sessions.len()
            invariant
                i <= self.sessions.len(),
                self.sessions.len() == before.sessions.len(),
                self.registry == old(self).registry,
                self.registry@ == before.registry,
                self.next_session == old(self).next_session,
                self.policy == old(self).policy,
                g == (|s: SessionModel| ended_id(s, pass, before.registry)),
                forall|j: int|
                    0 <= j < i ==> (#[trigger] self.sessions[j])@ == after_pass(
                        before.sessions[j],
                        pass,
                        before.registry,
                    ),
                forall|j: int|
                    i <= j < self.sessions.len() ==> (#[trigger] self.sessions[j])@
                        == before.sessions[j] && self.sessions[j].wf(),
                ended@ == before.sessions.take(i as int).filter_map(g),
            decreases self.sessions.len() - i,
        {
            proof {
                before.sessions.lemma_filter_map_take_succ(g, i as int);
            }
            let mut s = self.sessions[i];
            let reason = if !s.alive() {
                None
            } else {
                match pass {
                    Pass::Orphaned => if self.registry.contains(s.target()) {
                        None
                    } else {
                        Some(StopReason::TransportClosed)
                    },
                    Pass::CutOff(target) => if s.target() == target {
                        Some(StopReason::TransportClosed)
                    } else {
                        None
                    },
                    Pass::Clock(now) => if s.expired(now) {
                        Some(StopReason::TimeLimit)
                    } else {
                        None
                    },
                }
            };
            match reason {
                Some(why) => {
                    s.stop(why);
                    self.sessions.set(i, s);
                    ended.push(s.id());
                },
                None => {},
            }
            i += 1;
        }
        proof {
            assert(before.sessions.take(i as int) =~= before.sessions);
            assert(self@.sessions =~= before.swept(pass, before.registry));
        }
        ended
    }

    /// Ends a sweep. Once no probe is in flight, the dead targets are
    /// evicted in one batch and their active sessions stop; the report
    /// names both. While a probe is still in flight, nothing changes.
    pub fn finish_sweep(&mut self) -> (r: Option<SweepReport>)
        requires
            old(self).wf(),
        ensures
            final(self).wf(),
            final(self)@ == old(self)@.finish_sweep(),
            match r {
                Some(report) => {
                    &&& old(self)@.registry.settled()
                    &&& report.evicted@ == old(self)@.registry.evicted()
                    &&& report.ended@ == old(self)@.ended_by(
                        Pass::Orphaned,
                        old(self)@.registry.finish(),
                    )
                },
                None => !old(self)@.registry.settled(),
            },
    {
        proof {
            lemma_step_keeps_wf(self@, HostEvent::FinishSweep);
        }
        let ghost before = self@;
        match self.registry.finish_sweep() {
            None => None,
            Some(evicted) => {
                assert forall|i: int| 0 <= i < self.sessions.len() implies (
                #[trigger] self.sessions[i]).wf() by {
                    assert(before.sessions[i] == self.sessions[i]@);
                }
                assert(self@.sessions == before.sessions);
                let ended = self.sweep_sessions(Pass::Orphaned);
                Some(SweepReport { evicted, ended })
            },
        }
    }

    /// Opens a session for `target` and returns its identifier; the caller
    /// sends the start-capture request. A target that has a negotiating or
    /// active session gets `Conflict`, and that session is not touched.
    pub fn start_capture(&mut self, target: TargetId, now: u64) -> (r: Result<
        SessionId,
        HostError,
    >)
        requires
            old(self).wf(),
        ensures
            final(self).wf(),
            r == old(self)@.start_verdict(target),
            final(self)@ == old(self)@.start_capture(target, now),
    {
        proof {
            lemma_step_keeps_wf(self@, HostEvent::StartCapture { target, now });
        }
        if !self.registry.contains(target) {
            return Err(HostError::UnknownTarget);
        }
        if self.has_live(target) {
            return Err(HostError::Conflict);
        }
        if self.next_session == u64::MAX {
            return Err(HostError::IdentifiersExhausted);
        }
        let id = SessionId(self.next_session);
        self.sessions.push(CaptureSession::negotiate(id, target, self.policy, now));
        self.next_session = self.next_session + 1;
        proof {
            assert(self@.sessions =~= old(self)@.start_capture(target, now).sessions);
        }
        Ok(id)
    }

    /// The agent answered the start-capture request of session `id` with
    /// its surface and stop capability, and the encoder is open: the
    /// session becomes active. Where the target was evicted in the
    /// meantime the session is dropped and `UnknownTarget` returned.
    pub fn negotiation_succeeded(&mut self, id: SessionId, source: VideoSource, stop: Capability)
        -> (r: Result<(), HostError>)
        requires
            old(self).wf(),
        ensures
            final(self).wf(),
            r == old(self)@.negotiation_verdict(id),
            final(self)@ == old(self)@.negotiation_succeeded(id, source, stop),
    {
        proof {
            lemma_step_keeps_wf(
                self@,
                HostEvent::NegotiationSucceeded { session: id, source, stop },
            );
        }
        match self.find(id) {
            None => Err(HostError::UnknownSession),
            Some(i) => {
                let mut s = self.sessions[i];
                if s.state() != SessionState::Negotiating {
                    return Err(HostError::NotNegotiating);
                }
                if !self.registry.contains(s.target()) {
                    self.sessions.remove(i);
                    proof {
                        assert(self@.sessions =~= old(self)@.without(id).sessions);
                    }
                    return Err(HostError::UnknownTarget);
                }
                s.activate(source, stop);
                self.sessions.set(i, s);
                proof {
                    assert(self@.sessions =~= old(self)@.put(
                        id,
                        old(self)@.session(id).unwrap().activate(source, stop),
                    ).sessions);
                }
                Ok(())
            },
        }
    }

    /// The start-capture request of session `id` failed, or the encoder
    /// could not be opened: the session is dropped.
    pub fn negotiation_failed(&mut self, id: SessionId) -> (r: Result<(), HostError>)
        requires
            old(self).wf(),
        ensures
            final(self).wf(),
            r == old(self)@.failure_verdict(id),
            final(self)@ == old(self)@.negotiation_failed(id),
    {
        proof {
            lemma_step_keeps_wf(self@, HostEvent::NegotiationFailed { session: id });
        }
        match self.find(id) {
            None => Err(HostError::UnknownSession),
            Some(i) => {
                if self.sessions[i].state() != SessionState::Negotiating {
                    return Err(HostError::NotNegotiating);
                }
                self.sessions.remove(i);
                proof {
                    assert(self@.sessions =~= old(self)@.without(id).sessions);
                }
                Ok(())
            },
        }
    }

    /// Takes a frame for session `id`. On `Ok` the caller hands the frame
    /// to the encoder before it submits the next one, and closes the
    /// encoder after it where the acknowledgement says that the session
    /// stopped.
    pub fn submit_frame(&mut self, id: SessionId, frame: &VideoFrameEnvelope) -> (r: Result<
        Ack,
        HostError,
    >)
        requires
            old(self).wf(),
        ensures
            final(self).wf(),
            r == old(self)@.frame_verdict(id, frame@),
            final(self)@ == old(self)@.submit_frame(id, frame@),
    {
        proof {
            lemma_step_keeps_wf(self@, HostEvent::Frame { session: id, frame: frame@ });
        }
        match self.find(id) {
            None => Err(HostError::UnknownSession),
            Some(i) => {
                let mut s = self.sessions[i];
                let r = s.submit_frame(frame);
                self.sessions.set(i, s);
                proof {
                    assert(self@.sessions =~= old(self)@.put(
                        id,
                        old(self)@.session(id).unwrap().submit(frame@),
                    ).sessions);
                }
                match r {
                    Ok(ack) => Ok(ack),
                    Err(e) => Err(HostError::Frame(e)),
                }
            },
        }
    }

    /// Stops session `id`. Returns whether this call ended it, in which
    /// case the caller closes the encoder. A session that has stopped, or
    /// that is unknown, is left as it is: a second stop is no error and
    /// closes nothing.
    pub fn stop_session(&mut self, id: SessionId, reason: StopReason) -> (ended: bool)
        requires
            old(self).wf(),
        ensures
            final(self).wf(),
            ended == old(self)@.stoppable(id),
            final(self)@ == old(self)@.stop_session(id, reason),
    {
        proof {
            lemma_step_keeps_wf(self@, HostEvent::Stop { session: id, reason });
        }
        match self.find(id) {
            None => false,
            Some(i) => {
                let mut s = self.sessions[i];
                let ended = s.stop(reason);
                self.sessions.set(i, s);
                proof {
                    assert(self@.sessions =~= old(self)@.put(
                        id,
                        old(self)@.session(id).unwrap().stop(reason),
                    ).sessions);
                }
                ended
            },
        }
    }

    /// The encoder refused a frame of session `id`: the session stops.
    /// Returns whether this call ended it.
    pub fn encoder_failed(&mut self, id: SessionId) -> (ended: bool)
        requires
            old(self).wf(),
        ensures
            final(self).wf(),
            ended == old(self)@.stoppable(id),
            final(self)@ == old(self)@.stop_session(id, StopReason::EncoderFailed),
    {
        self.stop_session(id, StopReason::EncoderFailed)
    }

    /// The transport to `target` closed: its active session stops. Returns
    /// the sessions that this ended; their encoders are to be closed.
    pub fn transport_closed(&mut self, target: TargetId) -> (ended: Vec<SessionId>)
        requires
            old(self).wf(),
        ensures
            final(self).wf(),
            final(self)@ == old(self)@.transport_closed(target),
            ended@ == old(self)@.ended_by(Pass::CutOff(target), old(self)@.registry),
    {
        proof {
            lemma_step_keeps_wf(self@, HostEvent::TransportClosed { target });
            assert forall|i: int| 0 <= i < self.sessions.len() implies (
            #[trigger] self.sessions[i]).wf() by {
                assert(self@.sessions[i] == self.sessions[i]@);
            }
        }
        self.sweep_sessions(Pass::CutOff(target))
    }

    /// Applies the time budget at `now`. Returns the sessions that this
    /// ended; their encoders are to be closed.
    pub fn tick(&mut self, now: u64) -> (ended: Vec<SessionId>)
        requires
            old(self).wf(),
        ensures
            final(self).wf(),
            final(self)@ == old(self)@.tick(now),
            ended@ == old(self)@.ended_by(Pass::Clock(now), old(self)@.registry),
    {
        proof {
            lemma_step_keeps_wf(self@, HostEvent::Tick { now });
            assert forall|i: int| 0 <= i < self.sessions.len() implies (
            #[trigger] self.sessions[i]).wf() by {
                assert(self@.sessions[i] == self.sessions[i]@);
            }
        }
        self.sweep_sessions(Pass::Clock(now))
    }

    /// Both sides have seen session `id` stop: it is forgotten. Returns
    /// whether it was; a session that has not stopped stays.
    pub fn forget(&mut self, id: SessionId) -> (forgotten: bool)
        requires
            old(self).wf(),
        ensures
            final(self).wf(),
            forgotten == old(self)@.forgettable(id),
            final(self)@ == old(self)@.forget(id),
    {
        proof {
            lemma_step_keeps_wf(self@, HostEvent::Forget { session: id });
        }
        match self.find(id) {
            None => false,
            Some(i) => {
                if self.sessions[i].state() != SessionState::Stopped {
                    return false;
                }
                self.sessions.remove(i);
                proof {
                    assert(self@.sessions =~= old(self)@.without(id).sessions);
                }
                true
            },
        }
    }

    /// The trigger fired for `target`. It toggles recording: the target's
    /// active session stops, or a new one is opened where it has none.
    pub fn hotkey_pressed(&mut self, target: TargetId, now: u64) -> (action: TriggerAction)
        requires
            old(self).wf(),
        ensures
            final(self).wf(),
            action == old(self)@.trigger_action(target),
            final(self)@ == old(self)@.trigger(target, now),
    {
        proof {
            lemma_step_keeps_wf(self@, HostEvent::Trigger { target, now });
        }
        if !self.registry.contains(target) {
            return TriggerAction::Ignored;
        }
        match self.active_session(target) {
            Some(id) => {
                self.stop_session(id, StopReason::Explicit);
                TriggerAction::Stop(id)
            },
            None => match self.start_capture(target, now) {
                Ok(id) => TriggerAction::Start(id),
                Err(_) => TriggerAction::Ignored,
            },
        }
    }
}

} // verus!
