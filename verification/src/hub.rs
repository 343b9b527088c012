//! The agent's side of the protocol: what the code inside the recorded
//! process knows and decides.
//!
//! One hub exists per agent process. It holds the capture surfaces that
//! the hooks have found and the session that the supervisor has started,
//! if any. It performs no remote call: each operation says what the caller
//! is to send.

use crate::frame::BYTES_PER_PIXEL;
use crate::registry::Capability;
use crate::source::{AudioSource, VideoSource};
use vstd::prelude::*;
use vstd::string::*;

verus! {

/// The agent's end of a recording: the sink that frames go to, and whether
/// the recording is still on.
#[derive(Clone, Copy, Debug, PartialEq, Eq, Structural)]
pub struct Session {
    pub sink: Capability,
    pub alive: bool,
}

impl Session {
    /// Ends the recording. Returns whether this call ended it; a second
    /// call changes nothing.
    pub fn stop(&mut self) -> (ended: bool)
        ensures
            *final(self) == (Session { alive: false, ..*old(self) }),
            ended == old(self).alive,
    {
        let ended = self.alive;
        self.alive = false;
        ended
    }
}

/// Why the agent refused a start-capture request.
#[derive(Clone, Copy, Debug, PartialEq, Eq, Structural)]
pub enum AgentError {
    /// The hooks have not found a surface to capture yet.
    NoVideoSource,
    /// A recording is already on.
    Conflict,
}

impl AgentError {
    /// The text that goes back to the supervisor.
    pub open spec fn text(self) -> Seq<char> {
        match self {
            AgentError::NoVideoSource => "No viable video context!"@,
            AgentError::Conflict => "A capture session is already active"@,
        }
    }

    /// The text that goes back to the supervisor.
    pub fn message(&self) -> (s: String)
        ensures
            s@ == self.text(),
    {
        match self {
            AgentError::NoVideoSource => String::from_str("No viable video context!"),
            AgentError::Conflict => String::from_str("A capture session is already active"),
        }
    }
}

/// The mathematical content of a hub.
pub struct HubModel {
    pub session: Option<Session>,
    pub video: Option<VideoSource>,
    pub audio: Option<AudioSource>,
    pub in_test: bool,
}

impl HubModel {
    pub open spec fn new(in_test: bool) -> HubModel {
        HubModel { session: None, video: None, audio: None, in_test }
    }

    /// A recording is on.
    pub open spec fn recording(self) -> bool {
        self.session matches Some(s) && s.alive
    }

    /// The hub once a session that has been stopped is dropped.
    pub open spec fn reaped(self) -> HubModel {
        if self.recording() {
            self
        } else {
            HubModel { session: None, ..self }
        }
    }

    pub open spec fn start_verdict(self) -> Result<VideoSource, AgentError> {
        match self.video {
            None => Err(AgentError::NoVideoSource),
            Some(video) => if self.recording() {
                Err(AgentError::Conflict)
            } else {
                Ok(video)
            },
        }
    }

    pub open spec fn start_capture(self, sink: Capability) -> HubModel {
        if self.start_verdict().is_ok() {
            HubModel { session: Some(Session { sink, alive: true }), ..self }
        } else {
            self
        }
    }

    pub open spec fn stop(self) -> HubModel {
        match self.session {
            Some(s) => HubModel { session: Some(Session { alive: false, ..s }), ..self },
            None => self,
        }
    }
}

/// The agent's state: one per injected process.
pub struct GlobalHub {
    session: Option<Session>,
    video: Option<VideoSource>,
    audio: Option<AudioSource>,
    in_test: bool,
}

impl View for GlobalHub {
    type V = HubModel;

    closed spec fn view(&self) -> HubModel {
        HubModel {
            session: self.session,
            video: self.video,
            audio: self.audio,
            in_test: self.in_test,
        }
    }
}

/// A hub that knows no surface and has no session.
pub fn new_hub(in_test: bool) -> (hub: GlobalHub)
    ensures
        hub@ == HubModel::new(in_test),
{
    GlobalHub { session: None, video: None, audio: None, in_test }
}

impl GlobalHub {
    /// Whether the process runs under the test harness.
    pub fn in_test(&self) -> (b: bool)
        ensures
            b == self@.in_test,
    {
        self.in_test
    }

    /// The session if a recording is on. A session that has been stopped is
    /// dropped on the way.
    pub fn session(&mut self) -> (s: Option<Session>)
        ensures
            final(self)@ == old(self)@.reaped(),
            s == old(self)@.reaped().session,
    {
        let stopped = match self.session {
            Some(s) => !s.alive,
            None => false,
        };
        if stopped {
            self.session = None;
        }
        self.session
    }

    /// The session as it stands, stopped or not.
    pub fn peek(&self) -> (s: Option<Session>)
        ensures
            s == self@.session,
    {
        self.session
    }

    /// Records the video surface that the hooks have found. The surface is
    /// set once in the life of the process: the first one stays. Returns
    /// whether this was the first, in which case the caller registers the
    /// agent with the supervisor.
    pub fn set_video_source(&mut self, s: VideoSource) -> (first: bool)
        ensures
            first == old(self)@.video.is_none(),
            final(self)@ == if first {
                HubModel { video: Some(s), ..old(self)@ }
            } else {
                old(self)@
            },
    {
        let first = self.video.is_none();
        if first {
            self.video = Some(s);
        }
        first
    }

    /// The video surface, once the hooks have found one.
    pub fn get_video_source(&self) -> (s: Option<&VideoSource>)
        ensures
            match s {
                Some(v) => self@.video == Some(*v),
                None => self@.video.is_none(),
            },
    {
        self.video.as_ref()
    }

    /// Records the audio source that the hooks have found. It is set once
    /// in the life of the process: the first one stays.
    pub fn set_audio_source(&mut self, s: AudioSource)
        ensures
            final(self)@ == if old(self)@.audio.is_none() {
                HubModel { audio: Some(s), ..old(self)@ }
            } else {
                old(self)@
            },
    {
        if self.audio.is_none() {
            self.audio = Some(s)
        }
    }

    /// The audio source, once the hooks have found one.
    pub fn get_audio_source(&self) -> (s: Option<&AudioSource>)
        ensures
            match s {
                Some(a) => self@.audio == Some(*a),
                None => self@.audio.is_none(),
            },
    {
        self.audio.as_ref()
    }

    /// The supervisor asks for a recording into `sink`. On `Ok` a session
    /// is on and the caller answers with the surface returned and a stop
    /// capability. Without a surface, or while a recording is on, the
    /// request is refused and nothing changes.
    pub fn start_capture(&mut self, sink: Capability) -> (r: Result<VideoSource, AgentError>)
        ensures
            r == old(self)@.start_verdict(),
            final(self)@ == old(self)@.start_capture(sink),
    {
        match self.video {
            None => Err(AgentError::NoVideoSource),
            Some(video) => {
                let recording = match self.session {
                    Some(s) => s.alive,
                    None => false,
                };
                if recording {
                    return Err(AgentError::Conflict);
                }
                self.session = Some(Session { sink, alive: true });
                Ok(video)
            },
        }
    }

    /// The stop capability was invoked. Returns whether this call ended the
    /// recording; a second call changes nothing.
    pub fn stop(&mut self) -> (ended: bool)
        ensures
            final(self)@ == old(self)@.stop(),
            ended == old(self)@.recording(),
    {
        match self.session {
            Some(s) => {
                let mut s = s;
                let ended = s.stop();
                self.session = Some(s);
                ended
            },
            None => false,
        }
    }
}

/// The order to capture one frame.
#[derive(Clone, Copy, Debug, PartialEq, Eq, Structural)]
pub struct FrameRequest {
    /// The sink to send the frame to.
    pub sink: Capability,
    /// The frame's sequence index.
    pub index: u64,
    /// The frame's presentation time in milliseconds.
    pub timestamp: u64,
    pub width: u32,
    pub height: u32,
    /// Length of a row in the pixel buffer, as the surface has it.
    pub pitch: u32,
    /// Whether the rows are stored bottom-up, as the surface has it.
    pub vflip: bool,
    /// Size of the pixel buffer to read into.
    pub bytes: u64,
}

/// What the agent does when the application presents a frame.
#[derive(Clone, Copy, Debug, PartialEq, Eq, Structural)]
pub enum CaptureStep {
    /// No recording is on.
    Idle,
    /// The recording has been stopped; the session is dropped.
    SessionEnded,
    /// Read the pixels and send them.
    Capture(FrameRequest),
    /// The frame counter has run out: no frame can be numbered any more.
    Exhausted,
}

/// The mathematical content of a capture context.
pub struct CaptureModel {
    pub width: u32,
    pub height: u32,
    pub frame_number: u64,
}

impl CaptureModel {
    /// Bytes of one frame, four to the pixel.
    pub open spec fn bytes_per_frame(self) -> nat {
        (self.width as nat) * (self.height as nat) * (BYTES_PER_PIXEL as nat)
    }

    /// What a presented frame leads to. A hub that records without knowing
    /// a surface captures nothing.
    pub open spec fn step(self, hub: HubModel, elapsed_ms: u64) -> CaptureStep {
        match hub.session {
            None => CaptureStep::Idle,
            Some(s) => if !s.alive {
                CaptureStep::SessionEnded
            } else if self.frame_number == u64::MAX {
                CaptureStep::Exhausted
            } else {
                match hub.video {
                    Some(video) => CaptureStep::Capture(
                        FrameRequest {
                            sink: s.sink,
                            index: self.frame_number,
                            timestamp: elapsed_ms,
                            width: self.width,
                            height: self.height,
                            pitch: video.pitch,
                            vflip: video.vflip,
                            bytes: self.bytes_per_frame() as u64,
                        },
                    ),
                    None => CaptureStep::Idle,
                }
            },
        }
    }

    /// The frame counter after a presented frame. A frame that finds the
    /// session stopped is not counted; the counter stays where it cannot
    /// grow.
    pub open spec fn count(self, hub: HubModel) -> u64 {
        if self.step(hub, 0) is SessionEnded || self.frame_number == u64::MAX {
            self.frame_number
        } else {
            (self.frame_number + 1) as u64
        }
    }
}

/// What the presentation hook keeps from frame to frame.
#[derive(Clone, Copy, Debug)]
pub struct CaptureContext {
    width: u32,
    height: u32,
    frame_number: u64,
}

impl View for CaptureContext {
    type V = CaptureModel;

    closed spec fn view(&self) -> CaptureModel {
        CaptureModel { width: self.width, height: self.height, frame_number: self.frame_number }
    }
}

/// The capture context of the process: the one that was made when the
/// first frame was presented, or else a new one for the viewport as it is
/// now.
pub fn get_capture_context(cached: Option<CaptureContext>, width: i32, height: i32) -> (r: Option<
    CaptureContext,
>)
    requires
        cached matches Some(c) ==> c.wf(),
    ensures
        r matches Some(c) ==> c.wf(),
        match cached {
            Some(c) => r == Some(c),
            None => match r {
                Some(c) => width >= 0 && height >= 0 && c@ == (CaptureModel {
                    width: width as u32,
                    height: height as u32,
                    frame_number: 0,
                }),
                None => width < 0 || height < 0,
            },
        },
{
    match cached {
        Some(c) => Some(c),
        None => CaptureContext::new(width, height),
    }
}

impl CaptureContext {
    /// The sides of a viewport are not negative.
    pub closed spec fn wf(&self) -> bool {
        self.width <= i32::MAX && self.height <= i32::MAX
    }

    /// A context for a viewport of the given size. A viewport with a
    /// negative side cannot be captured.
    pub fn new(width: i32, height: i32) -> (r: Option<CaptureContext>)
        ensures
            match r {
                Some(c) => {
                    &&& c.wf()
                    &&& width >= 0 && height >= 0
                    &&& c@ == (CaptureModel {
                        width: width as u32,
                        height: height as u32,
                        frame_number: 0,
                    })
                },
                None => width < 0 || height < 0,
            },
    {
        if width < 0 || height < 0 {
            None
        } else {
            Some(CaptureContext { width: width as u32, height: height as u32, frame_number: 0 })
        }
    }

    pub fn width(&self) -> (w: u32)
        ensures
            w == self@.width,
    {
        self.width
    }

    pub fn height(&self) -> (h: u32)
        ensures
            h == self@.height,
    {
        self.height
    }

    /// Number of frames presented so far.
    pub fn frame_number(&self) -> (n: u64)
        ensures
            n == self@.frame_number,
    {
        self.frame_number
    }

    /// Bytes of one frame.
    pub fn bytes_per_frame(&self) -> (n: u64)
        requires
            self.wf(),
        ensures
            n == self@.bytes_per_frame(),
    {
        let w: u64 = self.width as u64;
        let h: u64 = self.height as u64;
        assert(w * h * 4 <= 0x7FFF_FFFF * 0x7FFF_FFFF * 4) by (nonlinear_arith)
            requires
                w <= 0x7FFF_FFFF,
                h <= 0x7FFF_FFFF,
        ;
        assert(w * h <= 0x7FFF_FFFF * 0x7FFF_FFFF) by (nonlinear_arith)
            requires
                w <= 0x7FFF_FFFF,
                h <= 0x7FFF_FFFF,
        ;
        w * h * BYTES_PER_PIXEL
    }

    /// The application presents a frame, `elapsed_ms` after the context was
    /// made. While a recording is on, the frame is to be captured under the
    /// current frame number. A session that has been stopped is dropped,
    /// and the frame is not counted.
    pub fn capture_frame(&mut self, hub: &mut GlobalHub, elapsed_ms: u64) -> (step: CaptureStep)
        requires
            old(self).wf(),
        ensures
            final(self).wf(),
            step == old(self)@.step(old(hub)@, elapsed_ms),
            final(hub)@ == old(hub)@.reaped(),
            final(self)@ == (CaptureModel {
                frame_number: old(self)@.count(old(hub)@),
                ..old(self)@
            }),
    {
        let before = hub.session;
        let step = match hub.session() {
            Some(s) => if self.frame_number == u64::MAX {
                CaptureStep::Exhausted
            } else {
                match hub.get_video_source() {
                    Some(video) => CaptureStep::Capture(
                        FrameRequest {
                            sink: s.sink,
                            index: self.frame_number,
                            timestamp: elapsed_ms,
                            width: self.width,
                            height: self.height,
                            pitch: video.pitch,
                            vflip: video.vflip,
                            bytes: self.bytes_per_frame(),
                        },
                    ),
                    None => CaptureStep::Idle,
                }
            },
            None => if before.is_some() {
                return CaptureStep::SessionEnded;
            } else {
                CaptureStep::Idle
            },
        };
        if self.frame_number < u64::MAX {
            self.frame_number = self.frame_number + 1;
        }
        step
    }
}

/// One presented frame: the state in which it finds the hub, and the time
/// at which it is presented.
pub struct Present {
    pub hub: HubModel,
    pub elapsed_ms: u64,
}

/// The capture context after a run of presented frames.
pub open spec fn after_presents(c: CaptureModel, presents: Seq<Present>) -> CaptureModel
    decreases presents.len(),
{
    if presents.len() == 0 {
        c
    } else {
        let before = after_presents(c, presents.drop_last());
        CaptureModel { frame_number: before.count(presents.last().hub), ..before }
    }
}

/// The frames that the agent captures in a run of presented frames, in the
/// order in which it captures them.
pub open spec fn captured(c: CaptureModel, presents: Seq<Present>) -> Seq<FrameRequest>
    decreases presents.len(),
{
    if presents.len() == 0 {
        Seq::empty()
    } else {
        let before = captured(c, presents.drop_last());
        match after_presents(c, presents.drop_last()).step(
            presents.last().hub,
            presents.last().elapsed_ms,
        ) {
            CaptureStep::Capture(request) => before.push(request),
            _ => before,
        }
    }
}

/// The agent numbers its frames in the order in which it captures them:
/// whatever becomes of the session between two presented frames, each
/// captured frame has a greater sequence index than the one captured
/// before it, and all lie below the frame counter.
pub proof fn lemma_captured_indices_grow(c: CaptureModel, presents: Seq<Present>)
    ensures
        forall|a: int, b: int|
            0 <= a < b < captured(c, presents).len() ==> (#[trigger] captured(c, presents)[a]).index
                < (#[trigger] captured(c, presents)[b]).index,
        forall|a: int|
            0 <= a < captured(c, presents).len() ==> (#[trigger] captured(c, presents)[a]).index
                < after_presents(c, presents).frame_number,
        after_presents(c, presents).frame_number >= c.frame_number,
    decreases presents.len(),
{
    if presents.len() > 0 {
        let head = presents.drop_last();
        lemma_captured_indices_grow(c, head);
        let seen = captured(c, head);
        let all = captured(c, presents);
        assert forall|a: int, b: int| 0 <= a < b < all.len() implies (#[trigger] all[a]).index < (
        #[trigger] all[b]).index by {
            assert(all[a] == seen[a]);
            if b < seen.len() {
                assert(all[b] == seen[b]);
            }
        }
        assert forall|a: int| 0 <= a < all.len() implies (#[trigger] all[a]).index
            < after_presents(c, presents).frame_number by {
            if a < seen.len() {
                assert(all[a] == seen[a]);
            }
        }
    }
}

} // verus!
