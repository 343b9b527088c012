//! The capture session: one recording, from negotiation to its stop.
//!
//! A session is created when a start-capture request goes out
//! (`Negotiating`), becomes `Active` when the agent answers with its
//! surface, and ends in `Stopped`, from which there is no way back. While it
//! is active its sink lets frames through in order of their sequence
//! index. The session never touches the encoder: each operation tells the
//! caller what to do with it.

use crate::frame::{FrameView, VideoFrameEnvelope};
use crate::registry::{Capability, TargetId};
use crate::sink::{FrameSink, SinkError, SinkModel};
use crate::source::VideoSource;
use vstd::prelude::*;

verus! {

/// The frame budget that recordings used to have.
pub const DEFAULT_FRAME_BUDGET: u64 = 240;

/// Identifier of a session, unique within one supervisor.
#[derive(Clone, Copy, Debug, PartialEq, Eq, Structural)]
pub struct SessionId(pub u64);

/// Where a target stands with respect to recording.
#[derive(Clone, Copy, Debug, PartialEq, Eq, Structural)]
pub enum SessionState {
    /// The target has no session.
    Absent,
    /// A start-capture request is in flight.
    Negotiating,
    /// Frames are accepted.
    Active,
    /// The recording has ended. Frames are refused.
    Stopped,
}

/// What ended a session.
#[derive(Clone, Copy, Debug, PartialEq, Eq, Structural)]
pub enum StopReason {
    /// Either side invoked stop.
    Explicit,
    /// The frame budget was used up.
    FrameLimit,
    /// The time budget was used up.
    TimeLimit,
    /// The transport to the agent closed, or the agent was evicted.
    TransportClosed,
    /// The encoder refused a frame.
    EncoderFailed,
}

/// When a session ends by itself. `u64::MAX` in a field stands for no limit
/// that could be reached in practice.
#[derive(Clone, Copy, Debug, PartialEq, Eq, Structural)]
pub struct StopPolicy {
    /// The session stops with the frame that brings its count to this.
    pub max_frames: u64,
    /// The session stops with the first frame stamped at or after this many
    /// milliseconds, or with the first tick that late.
    pub max_millis: u64,
}

impl StopPolicy {
    /// The limit that the frame just accepted has reached, if any, where
    /// `frames` counts that frame too.
    pub open spec fn after_frame(self, frames: nat, timestamp: u64) -> Option<StopReason> {
        if frames >= self.max_frames {
            Some(StopReason::FrameLimit)
        } else if timestamp >= self.max_millis {
            Some(StopReason::TimeLimit)
        } else {
            None
        }
    }

    /// No limit that could be reached in practice.
    pub fn unlimited() -> (p: StopPolicy)
        ensures
            p == (StopPolicy { max_frames: u64::MAX, max_millis: u64::MAX }),
    {
        StopPolicy { max_frames: u64::MAX, max_millis: u64::MAX }
    }

    /// A limit on the number of frames alone.
    pub fn frame_budget(max_frames: u64) -> (p: StopPolicy)
        ensures
            p == (StopPolicy { max_frames, max_millis: u64::MAX }),
    {
        StopPolicy { max_frames, max_millis: u64::MAX }
    }

    /// A limit on the time alone.
    pub fn time_budget(max_millis: u64) -> (p: StopPolicy)
        ensures
            p == (StopPolicy { max_frames: u64::MAX, max_millis }),
    {
        StopPolicy { max_frames: u64::MAX, max_millis }
    }
}

/// Acknowledgement of a frame: the caller hands the frame to the encoder
/// and, where `stopped` says that the frame ended the session, closes the
/// encoder after it.
#[derive(Clone, Copy, Debug, PartialEq, Eq, Structural)]
pub struct Ack {
    pub index: u64,
    pub timestamp: u64,
    pub stopped: Option<StopReason>,
}

/// The mathematical content of a session.
pub struct SessionModel {
    pub id: SessionId,
    pub target: TargetId,
    pub state: SessionState,
    pub created_at: u64,
    pub policy: StopPolicy,
    pub sink: SinkModel,
    /// The agent's stop capability, known once the session is active.
    pub stop: Option<Capability>,
    /// Number of frames accepted.
    pub frames: nat,
    pub stop_reason: Option<StopReason>,
}

impl SessionModel {
    /// A session for `target` whose start-capture request goes out at
    /// `now`.
    pub open spec fn negotiating(id: SessionId, target: TargetId, policy: StopPolicy, now: u64)
        -> SessionModel {
        SessionModel {
            id,
            target,
            state: SessionState::Negotiating,
            created_at: now,
            policy,
            sink: SinkModel::closed(),
            stop: None,
            frames: 0,
            stop_reason: None,
        }
    }

    /// A session is never absent. While it negotiates it has taken no frame,
    /// its sink is not open and its stop capability not known; while it is
    /// active both are, and its frame budget is not used up. It has a
    /// reason to have stopped exactly when it has stopped.
    pub open spec fn wf(self) -> bool {
        &&& !(self.state is Absent)
        &&& self.state is Negotiating ==> self.sink == SinkModel::closed() && self.frames == 0
            && self.stop is None
        &&& self.state is Active ==> self.sink.source is Some && self.stop is Some && (self.frames
            == 0 || self.frames < self.policy.max_frames)
        &&& (self.state is Stopped) == (self.stop_reason is Some)
        &&& self.frames <= u64::MAX
    }

    /// The session counts against its target's one recording at a time.
    pub open spec fn live(self) -> bool {
        self.state is Negotiating || self.state is Active
    }

    /// The agent answered the start-capture request with its surface and
    /// stop capability.
    pub open spec fn activate(self, source: VideoSource, stop: Capability) -> SessionModel {
        if self.state is Negotiating {
            SessionModel {
                state: SessionState::Active,
                sink: self.sink.open(source),
                stop: Some(stop),
                ..self
            }
        } else {
            self
        }
    }

    /// The answer to a frame submission.
    pub open spec fn verdict(self, frame: FrameView) -> Result<Ack, SinkError> {
        match self.state {
            SessionState::Active => match self.sink.verdict(frame) {
                Ok(()) => Ok(
                    Ack {
                        index: frame.index,
                        timestamp: frame.timestamp,
                        stopped: self.policy.after_frame(self.frames + 1, frame.timestamp),
                    },
                ),
                Err(e) => Err(e),
            },
            SessionState::Stopped => Err(SinkError::SessionStopped),
            _ => Err(SinkError::SessionNotActive),
        }
    }

    /// The session after a frame submission. A frame that is refused changes
    /// nothing.
    pub open spec fn submit(self, frame: FrameView) -> SessionModel {
        match self.verdict(frame) {
            Ok(ack) => SessionModel {
                sink: self.sink.offer(frame),
                frames: self.frames + 1,
                state: if ack.stopped is Some {
                    SessionState::Stopped
                } else {
                    SessionState::Active
                },
                stop_reason: ack.stopped,
                ..self
            },
            Err(_) => self,
        }
    }

    /// The session after a stop request. Only an active session changes.
    pub open spec fn stop(self, reason: StopReason) -> SessionModel {
        if self.state is Active {
            SessionModel { state: SessionState::Stopped, stop_reason: Some(reason), ..self }
        } else {
            self
        }
    }

    /// Milliseconds between the session's creation and `now`.
    pub open spec fn elapsed(self, now: u64) -> nat {
        if now >= self.created_at {
            (now - self.created_at) as nat
        } else {
            0
        }
    }

    /// The time budget is used up at `now`.
    pub open spec fn expired(self, now: u64) -> bool {
        self.state is Active && self.elapsed(now) >= self.policy.max_millis
    }

    /// The session after the clock was read as `now`.
    pub open spec fn tick(self, now: u64) -> SessionModel {
        if self.expired(now) {
            self.stop(StopReason::TimeLimit)
        } else {
            self
        }
    }

    /// The session after a sequence of frame submissions, first to last.
    pub open spec fn submit_all(self, frames: Seq<FrameView>) -> SessionModel
        decreases frames.len(),
    {
        if frames.len() == 0 {
            self
        } else {
            self.submit_all(frames.drop_last()).submit(frames.last())
        }
    }

    /// The frames that the encoder gets to see out of a sequence of
    /// submissions, in the order in which it sees them.
    pub open spec fn forwarded(self, frames: Seq<FrameView>) -> Seq<FrameView>
        decreases frames.len(),
    {
        if frames.len() == 0 {
            Seq::empty()
        } else {
            let before = self.forwarded(frames.drop_last());
            if self.submit_all(frames.drop_last()).verdict(frames.last()).is_ok() {
                before.push(frames.last())
            } else {
                before
            }
        }
    }
}

/// One recording.
#[derive(Clone, Copy, Debug)]
pub struct CaptureSession {
    id: SessionId,
    target: TargetId,
    state: SessionState,
    created_at: u64,
    policy: StopPolicy,
    sink: FrameSink,
    stop: Option<Capability>,
    frames: u64,
    stop_reason: Option<StopReason>,
}

impl View for CaptureSession {
    type V = SessionModel;

    closed spec fn view(&self) -> SessionModel {
        SessionModel {
            id: self.id,
            target: self.target,
            state: self.state,
            created_at: self.created_at,
            policy: self.policy,
            sink: self.sink@,
            stop: self.stop,
            frames: self.frames as nat,
            stop_reason: self.stop_reason,
        }
    }
}

impl CaptureSession {
    pub open spec fn wf(&self) -> bool {
        self@.wf()
    }

    /// A session for `target` whose start-capture request goes out at
    /// `now`.
    pub fn negotiate(id: SessionId, target: TargetId, policy: StopPolicy, now: u64) -> (s:
        CaptureSession)
        ensures
            s.wf(),
            s@ == SessionModel::negotiating(id, target, policy, now),
    {
        CaptureSession {
            id,
            target,
            state: SessionState::Negotiating,
            created_at: now,
            policy,
            sink: FrameSink::new(),
            stop: None,
            frames: 0,
            stop_reason: None,
        }
    }

    /// The session's identifier.
    pub fn id(&self) -> (id: SessionId)
        ensures
            id == self@.id,
    {
        self.id
    }

    /// The target that is recorded.
    pub fn target(&self) -> (t: TargetId)
        ensures
            t == self@.target,
    {
        self.target
    }

    /// Where the session stands.
    pub fn state(&self) -> (s: SessionState)
        ensures
            s == self@.state,
    {
        self.state
    }

    /// Whether frames are accepted.
    pub fn alive(&self) -> (b: bool)
        ensures
            b == (self@.state is Active),
    {
        self.state == SessionState::Active
    }

    /// Whether the session counts against its target's one recording at a
    /// time.
    pub fn live(&self) -> (b: bool)
        ensures
            b == self@.live(),
    {
        self.state == SessionState::Negotiating || self.state == SessionState::Active
    }

    /// When the start-capture request went out.
    pub fn created_at(&self) -> (t: u64)
        ensures
            t == self@.created_at,
    {
        self.created_at
    }

    /// When the session ends by itself.
    pub fn policy(&self) -> (p: StopPolicy)
        ensures
            p == self@.policy,
    {
        self.policy
    }

    /// Number of frames accepted so far.
    pub fn frames(&self) -> (n: u64)
        ensures
            n == self@.frames,
    {
        self.frames
    }

    /// Index of the last frame accepted.
    pub fn last_index(&self) -> (i: Option<u64>)
        ensures
            i == self@.sink.last_index,
    {
        self.sink.last_index()
    }

    /// The surface that was negotiated.
    pub fn source(&self) -> (s: Option<VideoSource>)
        ensures
            s == self@.sink.source,
    {
        self.sink.source()
    }

    /// The agent's stop capability.
    pub fn stop_capability(&self) -> (c: Option<Capability>)
        ensures
            c == self@.stop,
    {
        self.stop
    }

    /// What ended the session, once it has ended.
    pub fn stop_reason(&self) -> (r: Option<StopReason>)
        ensures
            r == self@.stop_reason,
    {
        self.stop_reason
    }

    /// Whether the time budget is used up at `now`.
    pub fn expired(&self, now: u64) -> (b: bool)
        ensures
            b == self@.expired(now),
    {
        let elapsed: u64 = if now >= self.created_at {
            now - self.created_at
        } else {
            0
        };
        self.state == SessionState::Active && elapsed >= self.policy.max_millis
    }

    /// Completes the negotiation. Returns whether the session was
    /// negotiating; any other session stays as it is.
    pub fn activate(&mut self, source: VideoSource, stop: Capability) -> (activated: bool)
        requires
            old(self).wf(),
        ensures
            final(self).wf(),
            final(self)@ == old(self)@.activate(source, stop),
            activated == (old(self)@.state is Negotiating),
    {
        if self.state == SessionState::Negotiating {
            self.sink.open(source);
            self.stop = Some(stop);
            self.state = SessionState::Active;
            true
        } else {
            false
        }
    }

    /// Takes a frame from the agent. On `Ok` the caller hands the frame to
    /// the encoder before anything else happens to the session.
    pub fn submit_frame(&mut self, frame: &VideoFrameEnvelope) -> (r: Result<Ack, SinkError>)
        requires
            old(self).wf(),
        ensures
            final(self).wf(),
            r == old(self)@.verdict(frame@),
            final(self)@ == old(self)@.submit(frame@),
    {
        match self.state {
            SessionState::Active => {},
            SessionState::Stopped => {
                return Err(SinkError::SessionStopped);
            },
            _ => {
                return Err(SinkError::SessionNotActive);
            },
        }
        match self.sink.offer(frame) {
            Ok(()) => {},
            Err(e) => {
                return Err(e);
            },
        }
        self.frames = self.frames + 1;
        let stopped = if self.frames >= self.policy.max_frames {
            Some(StopReason::FrameLimit)
        } else if frame.timestamp >= self.policy.max_millis {
            Some(StopReason::TimeLimit)
        } else {
            None
        };
        if stopped.is_some() {
            self.state = SessionState::Stopped;
            self.stop_reason = stopped;
        }
        Ok(Ack { index: frame.index, timestamp: frame.timestamp, stopped })
    }

    /// Stops the session. Returns whether this call ended it, in which case
    /// the caller closes the encoder; a session that is not active stays as
    /// it is, and nothing is to be closed.
    pub fn stop(&mut self, reason: StopReason) -> (ended: bool)
        requires
            old(self).wf(),
        ensures
            final(self).wf(),
            final(self)@ == old(self)@.stop(reason),
            ended == (old(self)@.state is Active),
    {
        if self.state == SessionState::Active {
            self.state = SessionState::Stopped;
            self.stop_reason = Some(reason);
            true
        } else {
            false
        }
    }

    /// Applies the time budget at `now`. Returns whether this call ended the
    /// session, in which case the caller closes the encoder.
    pub fn tick(&mut self, now: u64) -> (ended: bool)
        requires
            old(self).wf(),
        ensures
            final(self).wf(),
            final(self)@ == old(self)@.tick(now),
            ended == old(self)@.expired(now),
    {
        if self.expired(now) {
            self.stop(StopReason::TimeLimit)
        } else {
            false
        }
    }
}

/// Every operation keeps a session well formed.
pub proof fn lemma_session_steps_keep_wf(
    m: SessionModel,
    frame: FrameView,
    source: VideoSource,
    stop: Capability,
    reason: StopReason,
    now: u64,
)
    requires
        m.wf(),
    ensures
        m.activate(source, stop).wf(),
        m.submit(frame).wf(),
        m.stop(reason).wf(),
        m.tick(now).wf(),
{
}

/// A stopped session stays stopped, whatever is done to it, and keeps its
/// frame count and its reason.
pub proof fn lemma_stopped_is_terminal(
    m: SessionModel,
    frame: FrameView,
    source: VideoSource,
    stop: Capability,
    reason: StopReason,
    now: u64,
)
    requires
        m.state is Stopped,
    ensures
        m.activate(source, stop) == m,
        m.submit(frame) == m,
        m.verdict(frame) == Err::<Ack, SinkError>(SinkError::SessionStopped),
        m.stop(reason) == m,
        m.tick(now) == m,
{
}

/// Stopping twice is stopping once: the second request changes nothing, and
/// it is not the one that ended the session, so the encoder is closed once.
pub proof fn lemma_stop_is_idempotent(m: SessionModel, first: StopReason, second: StopReason)
    ensures
        m.stop(first).stop(second) == m.stop(first),
        !(m.stop(first).state is Active),
        m.state is Active ==> m.stop(first).state is Stopped && m.stop(first).stop_reason
            == Some(first),
{
}

/// After any sequence of submissions a well-formed session is well formed
/// and is still the same recording, and its sink has seen no index below the
/// one it started with.
pub proof fn lemma_submit_all_wf(m: SessionModel, frames: Seq<FrameView>)
    requires
        m.wf(),
    ensures
        m.submit_all(frames).wf(),
        m.submit_all(frames).id == m.id,
        m.submit_all(frames).target == m.target,
        m.submit_all(frames).policy == m.policy,
        m.submit_all(frames).created_at == m.created_at,
        m.sink.last_index matches Some(first) ==> (m.submit_all(frames).sink.last_index matches Some(
            last,
        ) && first <= last),
    decreases frames.len(),
{
    if frames.len() > 0 {
        lemma_submit_all_wf(m, frames.drop_last());
    }
}

/// Each frame that reaches the encoder has a greater index than the one the
/// sink saw last before it, and becomes the last one seen.
proof fn lemma_forwarded_last(m: SessionModel, frames: Seq<FrameView>)
    requires
        m.wf(),
    ensures
        forall|i: int|
            0 <= i < m.forwarded(frames).len() ==> {
                &&& m.submit_all(frames).sink.last_index matches Some(last)
                &&& (#[trigger] m.forwarded(frames)[i]).index <= last
                &&& m.sink.last_index matches Some(first) ==> first < m.forwarded(frames)[i].index
            },
    decreases frames.len(),
{
    if frames.len() > 0 {
        let head = frames.drop_last();
        lemma_forwarded_last(m, head);
        lemma_submit_all_wf(m, head);
        let mid = m.submit_all(head);
        let seen = m.forwarded(head);
        assert forall|i: int| 0 <= i < m.forwarded(frames).len() implies {
            &&& m.submit_all(frames).sink.last_index matches Some(last)
            &&& (#[trigger] m.forwarded(frames)[i]).index <= last
            &&& m.sink.last_index matches Some(first) ==> first < m.forwarded(frames)[i].index
        } by {
            if i < seen.len() {
                assert(m.forwarded(frames)[i] == seen[i]);
            }
        }
    }
}

/// Frame ordering: of any sequence of frames submitted to a session, the
/// encoder sees the accepted ones in the order of submission and with
/// strictly growing sequence indices.
pub proof fn lemma_forwarded_in_order(m: SessionModel, frames: Seq<FrameView>)
    requires
        m.wf(),
    ensures
        forall|i: int, j: int|
            0 <= i < j < m.forwarded(frames).len() ==> (#[trigger] m.forwarded(frames)[i]).index < (
            #[trigger] m.forwarded(frames)[j]).index,
    decreases frames.len(),
{
    if frames.len() > 0 {
        let head = frames.drop_last();
        lemma_forwarded_in_order(m, head);
        lemma_forwarded_last(m, head);
        lemma_submit_all_wf(m, head);
        let seen = m.forwarded(head);
        assert forall|i: int, j: int| 0 <= i < j < m.forwarded(frames).len() implies (
        #[trigger] m.forwarded(frames)[i]).index < (#[trigger] m.forwarded(frames)[j]).index by {
            if j < seen.len() {
                assert(m.forwarded(frames)[i] == seen[i]);
                assert(m.forwarded(frames)[j] == seen[j]);
            } else {
                assert(m.forwarded(frames)[i] == seen[i]);
            }
        }
    }
}

/// Nothing is lost or doubled: while the budget lasts, an active session
/// forwards every frame of a run of well-formed frames whose indices grow
/// strictly from above the last one seen.
pub proof fn lemma_forwards_every_frame(m: SessionModel, frames: Seq<FrameView>)
    requires
        m.wf(),
        m.state is Active,
        m.frames + frames.len() < m.policy.max_frames,
        forall|i: int|
            0 <= i < frames.len() ==> (#[trigger] frames[i]).well_formed_for(
                m.sink.source.unwrap(),
            ) && frames[i].timestamp < m.policy.max_millis,
        forall|i: int, j: int|
            0 <= i < j < frames.len() ==> (#[trigger] frames[i]).index < (
            #[trigger] frames[j]).index,
        m.sink.last_index matches Some(last) ==> forall|i: int|
            0 <= i < frames.len() ==> last < (#[trigger] frames[i]).index,
    ensures
        m.forwarded(frames) == frames,
        m.submit_all(frames).state is Active,
        m.submit_all(frames).frames == m.frames + frames.len(),
        m.submit_all(frames).sink.source == m.sink.source,
        m.submit_all(frames).policy == m.policy,
        frames.len() > 0 ==> m.submit_all(frames).sink.last_index == Some(frames.last().index),
        frames.len() == 0 ==> m.submit_all(frames) == m,
    decreases frames.len(),
{
    if frames.len() > 0 {
        let head = frames.drop_last();
        lemma_forwards_every_frame(m, head);
        let mid = m.submit_all(head);
        if head.len() > 0 {
            assert(head.last() == frames[head.len() - 1]);
        }
        let f = frames[frames.len() - 1];
        assert(f.well_formed_for(m.sink.source.unwrap()) && f.timestamp < m.policy.max_millis);
        assert(mid.sink.in_order(f));
        assert(mid.sink.verdict(f).is_ok());
        assert(mid.verdict(f).is_ok());
        assert(m.forwarded(frames) =~= frames);
    } else {
        assert(m.forwarded(frames) =~= frames);
    }
}

} // verus!
