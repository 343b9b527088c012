use capsule::conversation::{
    clock, connection_closed, encoder_opened, frame_message, frame_written, reason, receive, reply,
    Action,
};
use capsule::host::HostImpl;
use capsule::host_model::HostError;
use capsule::hub::{new_hub, CaptureContext, CaptureStep, GlobalHub};
use capsule::registry::{Capability, TargetId};
use capsule::session::{SessionId, SessionState, StopPolicy};
use capsule::sink::SinkError;
use capsule::source::{VideoSource, VideoSourceKind};
use capsule::wire::Message;

/// Stands in for the caller: carries out the actions as it is told, with
/// encoders that only count, and keeps what was sent.
struct World {
    host: HostImpl,
    sent: Vec<(u64, Message)>,
    opened: Vec<u64>,
    written: Vec<(u64, u64, u64)>,
    closed: Vec<u64>,
    dropped: Vec<u64>,
    /// Whether encoders open, and whether they take frames.
    opens: bool,
    writes: bool,
}

impl World {
    fn new(host: HostImpl) -> World {
        World {
            host,
            sent: vec![],
            opened: vec![],
            written: vec![],
            closed: vec![],
            dropped: vec![],
            opens: true,
            writes: true,
        }
    }

    fn perform(&mut self, actions: Vec<Action>) {
        for action in actions {
            let next = match action {
                Action::Send { connection, message } => {
                    self.sent.push((connection, message));
                    vec![]
                }
                Action::OpenEncoder { connection, session, video } => {
                    if self.opens {
                        self.opened.push(session);
                    }
                    encoder_opened(&mut self.host, connection, session, video, self.opens)
                }
                Action::WriteFrame { connection, session, index, timestamp, last, data: _ } => {
                    if self.writes {
                        assert!(self.opened.contains(&session));
                        assert!(!self.closed.contains(&session));
                        self.written.push((session, index, timestamp));
                    }
                    frame_written(&mut self.host, connection, session, index, last, self.writes)
                }
                Action::CloseEncoder { session } => {
                    self.closed.push(session);
                    vec![]
                }
                Action::Disconnect { connection } => {
                    self.dropped.push(connection);
                    vec![]
                }
            };
            self.perform(next);
        }
    }

    fn receive(&mut self, connection: u64, message: Message, now: u64) {
        let actions = receive(&mut self.host, connection, message, now);
        self.perform(actions);
    }

    fn clock(&mut self, now: u64) {
        let actions = clock(&mut self.host, now);
        self.perform(actions);
    }

    fn last_sent(&self) -> String {
        format!("{:?}", self.sent.last())
    }
}

fn small_surface() -> VideoSource {
    VideoSource { kind: VideoSourceKind::OpenGL, width: 2, height: 2, pitch: 8, vflip: true }
}

fn wire_frame(session: u64, index: u64, timestamp: u64) -> Message {
    Message::Frame {
        session,
        index,
        timestamp,
        width: 2,
        height: 2,
        pitch: 8,
        vflip: true,
        data: vec![0u8; 16],
    }
}

fn registered() -> World {
    let mut world = World::new(HostImpl::new());
    world.receive(7, Message::Register { pid: 4242, exe: String::from("game.exe") }, 0);
    assert!(world.sent.is_empty());
    world
}

fn recording_world() -> World {
    let mut world = registered();
    world.receive(7, Message::Hotkey, 10);
    world.receive(
        7,
        Message::Accepted { session: 0, width: 2, height: 2, pitch: 8, vflip: true },
        20,
    );
    assert_eq!(world.opened, vec![0]);
    world
}

#[test]
fn a_connection_registers_once() {
    let mut world = registered();
    assert_eq!(world.host.holder(Capability(7)), Some(TargetId(0)));
    assert_eq!(world.host.registry().get(TargetId(0)).unwrap().exe, "game.exe");
    world.receive(7, Message::Register { pid: 4242, exe: String::from("game.exe") }, 0);
    assert_eq!(world.last_sent(), "Some((7, Malformed { reason: \"already registered\" }))");
    assert_eq!(world.host.registry().len(), 1);
    world.receive(8, Message::Register { pid: 0, exe: String::from("game.exe") }, 0);
    assert_eq!(world.last_sent(), "Some((8, Malformed { reason: \"malformed request\" }))");
    assert_eq!(world.host.registry().len(), 1);
}

#[test]
fn the_trigger_starts_a_negotiation() {
    let mut world = registered();
    world.receive(7, Message::Hotkey, 10);
    assert_eq!(world.last_sent(), "Some((7, StartCapture { session: 0 }))");
    assert_eq!(world.host.session_state(TargetId(0)), SessionState::Negotiating);
    // A trigger from a connection without an agent is dropped.
    world.receive(9, Message::Hotkey, 10);
    assert_eq!(world.sent.len(), 1);
}

#[test]
fn the_encoder_is_opened_before_the_session_is_active() {
    let mut world = registered();
    world.receive(7, Message::Hotkey, 10);
    let actions = receive(
        &mut world.host,
        7,
        Message::Accepted { session: 0, width: 2, height: 2, pitch: 8, vflip: true },
        20,
    );
    assert_eq!(world.host.session_state(TargetId(0)), SessionState::Negotiating);
    assert!(matches!(
        actions.as_slice(),
        [Action::OpenEncoder { connection: 7, session: 0, video }] if *video == small_surface()
    ));
    world.perform(actions);
    assert_eq!(world.host.session_state(TargetId(0)), SessionState::Active);
    assert_eq!(world.host.session(SessionId(0)).unwrap().source(), Some(small_surface()));
}

#[test]
fn an_encoder_that_does_not_open_fails_the_negotiation() {
    let mut world = registered();
    world.opens = false;
    world.receive(7, Message::Hotkey, 10);
    world.receive(
        7,
        Message::Accepted { session: 0, width: 2, height: 2, pitch: 8, vflip: true },
        20,
    );
    assert_eq!(world.host.session_state(TargetId(0)), SessionState::Absent);
    assert_eq!(world.last_sent(), "Some((7, Stop { session: 0 }))");
    assert!(world.closed.is_empty());
}

#[test]
fn a_rejected_negotiation_leaves_no_session() {
    let mut world = registered();
    world.receive(7, Message::Hotkey, 10);
    world.receive(
        7,
        Message::Rejected { session: 0, reason: String::from("No viable video context!") },
        20,
    );
    assert_eq!(world.host.session_state(TargetId(0)), SessionState::Absent);
    assert_eq!(world.sent.len(), 1);
}

#[test]
fn an_agent_speaks_for_its_own_sessions_alone() {
    let mut world = recording_world();
    world.receive(8, Message::Register { pid: 1, exe: String::from("other") }, 30);
    world.receive(8, wire_frame(0, 0, 0), 31);
    assert_eq!(world.last_sent(), "Some((8, FrameRefused { index: 0, reason: \"not your session\" }))");
    world.receive(8, Message::Stop { session: 0 }, 32);
    assert_eq!(world.last_sent(), "Some((8, Malformed { reason: \"not your session\" }))");
    world.receive(
        8,
        Message::Accepted { session: 0, width: 2, height: 2, pitch: 8, vflip: true },
        33,
    );
    assert_eq!(world.last_sent(), "Some((8, Malformed { reason: \"not your session\" }))");
    world.receive(8, Message::Stopped { session: 0 }, 34);
    world.receive(8, Message::Rejected { session: 0, reason: String::new() }, 35);
    let s = world.host.session(SessionId(0)).unwrap();
    assert_eq!(s.state(), SessionState::Active);
    assert_eq!(s.frames(), 0);
    assert!(world.written.is_empty());
    assert!(world.closed.is_empty());
}

#[test]
fn a_frame_is_acknowledged_after_it_is_written() {
    let mut world = recording_world();
    let actions = receive(&mut world.host, 7, wire_frame(0, 5, 80), 30);
    assert!(matches!(
        actions.as_slice(),
        [Action::WriteFrame { connection: 7, session: 0, index: 5, timestamp: 80, last: false, data }]
            if data.len() == 16
    ));
    // Nothing has been sent yet.
    let before = world.sent.len();
    world.perform(actions);
    assert_eq!(world.written, vec![(0, 5, 80)]);
    assert_eq!(world.sent.len(), before + 1);
    assert_eq!(world.last_sent(), "Some((7, FrameAck { index: 5 }))");
}

#[test]
fn a_refused_frame_is_answered_at_once() {
    let mut world = recording_world();
    world.receive(7, wire_frame(0, 5, 80), 30);
    world.receive(7, wire_frame(0, 5, 96), 31);
    assert_eq!(world.last_sent(), "Some((7, FrameRefused { index: 5, reason: \"out of order\" }))");
    let mut short = wire_frame(0, 6, 96);
    if let Message::Frame { data, .. } = &mut short {
        data.pop();
    }
    world.receive(7, short, 32);
    assert_eq!(world.last_sent(), "Some((7, FrameRefused { index: 6, reason: \"malformed frame\" }))");
    assert_eq!(world.written, vec![(0, 5, 80)]);
}

#[test]
fn an_encoder_that_fails_ends_the_session() {
    let mut world = recording_world();
    world.receive(7, wire_frame(0, 0, 0), 30);
    world.writes = false;
    world.receive(7, wire_frame(0, 1, 16), 31);
    assert_eq!(world.host.session(SessionId(0)).unwrap().state(), SessionState::Stopped);
    assert_eq!(world.closed, vec![0]);
    let tail: Vec<String> =
        world.sent.iter().rev().take(2).rev().map(|m| format!("{:?}", m)).collect();
    assert_eq!(
        tail,
        vec![
            "(7, Stop { session: 0 })".to_string(),
            "(7, FrameRefused { index: 1, reason: \"encoder failed\" })".to_string(),
        ]
    );
    world.writes = true;
    world.receive(7, wire_frame(0, 2, 32), 32);
    assert_eq!(world.last_sent(), "Some((7, FrameRefused { index: 2, reason: \"session stopped\" }))");
    assert_eq!(world.closed, vec![0]);
}

#[test]
fn the_frame_budget_closes_the_encoder_after_the_last_frame() {
    let mut world = World::new(HostImpl::with_policy(StopPolicy::frame_budget(2)));
    world.receive(7, Message::Register { pid: 1, exe: String::from("a") }, 0);
    world.receive(7, Message::Hotkey, 1);
    world.receive(7, Message::Accepted { session: 0, width: 2, height: 2, pitch: 8, vflip: true }, 2);
    world.receive(7, wire_frame(0, 0, 0), 3);
    world.receive(7, wire_frame(0, 1, 16), 4);
    assert_eq!(world.written, vec![(0, 0, 0), (0, 1, 16)]);
    assert_eq!(world.closed, vec![0]);
    let tail: Vec<String> =
        world.sent.iter().rev().take(2).rev().map(|m| format!("{:?}", m)).collect();
    assert_eq!(
        tail,
        vec!["(7, Stop { session: 0 })".to_string(), "(7, FrameAck { index: 1 })".to_string()]
    );
    world.receive(7, wire_frame(0, 2, 32), 5);
    assert_eq!(world.written.len(), 2);
    assert_eq!(world.closed, vec![0]);
}

#[test]
fn stop_from_the_agent_is_idempotent() {
    let mut world = recording_world();
    world.receive(7, Message::Stop { session: 0 }, 30);
    assert_eq!(world.closed, vec![0]);
    assert_eq!(world.last_sent(), "Some((7, Stopped { session: 0 }))");
    world.receive(7, Message::Stop { session: 0 }, 31);
    assert_eq!(world.closed, vec![0]);
    assert_eq!(world.last_sent(), "Some((7, Stopped { session: 0 }))");
    world.receive(7, Message::Stopped { session: 0 }, 32);
    assert_eq!(world.host.session_count(), 0);
}

#[test]
fn the_trigger_stops_the_recording() {
    let mut world = recording_world();
    world.receive(7, wire_frame(0, 0, 0), 30);
    world.receive(7, Message::Hotkey, 40);
    assert_eq!(world.closed, vec![0]);
    assert_eq!(world.last_sent(), "Some((7, Stop { session: 0 }))");
    assert_eq!(world.host.session_state(TargetId(0)), SessionState::Stopped);
}

#[test]
fn messages_that_only_the_supervisor_sends_are_refused() {
    let mut world = registered();
    world.receive(7, Message::Probe, 1);
    assert_eq!(world.last_sent(), "Some((7, Malformed { reason: \"unexpected message\" }))");
    world.receive(7, Message::StartCapture { session: 0 }, 1);
    world.receive(7, Message::FrameAck { index: 0 }, 1);
    world.receive(7, Message::FrameRefused { index: 0, reason: String::new() }, 1);
    assert_eq!(world.sent.len(), 4);
    // A complaint is not answered with another.
    world.receive(7, Message::Malformed { reason: String::from("what?") }, 1);
    assert_eq!(world.sent.len(), 4);
}

#[test]
fn a_lost_connection_stops_the_recording() {
    let mut world = recording_world();
    let actions = connection_closed(&mut world.host, 7, 30);
    assert!(matches!(actions.as_slice(), [Action::CloseEncoder { session: 0 }]));
    world.perform(actions);
    assert_eq!(world.host.session(SessionId(0)).unwrap().state(), SessionState::Stopped);
    assert!(connection_closed(&mut world.host, 7, 31).is_empty());
    assert!(connection_closed(&mut world.host, 99, 31).is_empty());
}

#[test]
fn the_clock_runs_the_sweep() {
    let mut world = recording_world();
    world.receive(8, Message::Register { pid: 1, exe: String::from("other") }, 30);
    world.clock(1000);
    let probes: Vec<String> =
        world.sent.iter().rev().take(2).rev().map(|m| format!("{:?}", m)).collect();
    assert_eq!(probes, vec!["(7, Probe)".to_string(), "(8, Probe)".to_string()]);
    world.receive(8, Message::ProbeAnswer { pid: 1, exe: String::from("other") }, 1100);
    world.clock(1249);
    assert_eq!(world.host.registry().len(), 2);
    assert!(world.dropped.is_empty());
    world.clock(1250);
    assert_eq!(world.host.registry().len(), 1);
    assert!(!world.host.registry().contains(TargetId(0)));
    assert_eq!(world.dropped, vec![7]);
    assert_eq!(world.closed, vec![0]);
    assert_eq!(world.host.session(SessionId(0)).unwrap().state(), SessionState::Stopped);
    assert_eq!(world.host.registry().get(TargetId(1)).unwrap().last_heartbeat, 1100);
    // The next sweep is a second after the last.
    let sent = world.sent.len();
    world.clock(1999);
    assert_eq!(world.sent.len(), sent);
    world.clock(2000);
    assert_eq!(world.sent.len(), sent + 1);
    assert_eq!(world.last_sent(), "Some((8, Probe))");
}

#[test]
fn the_clock_ends_recordings_whose_time_is_up() {
    let mut world = World::new(HostImpl::with_policy(StopPolicy::time_budget(500)));
    world.receive(7, Message::Register { pid: 1, exe: String::from("a") }, 0);
    world.receive(7, Message::Hotkey, 100);
    world.receive(7, Message::Accepted { session: 0, width: 2, height: 2, pitch: 8, vflip: true }, 110);
    world.receive(7, Message::ProbeAnswer { pid: 1, exe: String::from("a") }, 120);
    world.clock(599);
    assert!(world.closed.is_empty());
    world.clock(600);
    assert_eq!(world.closed, vec![0]);
    assert_eq!(world.last_sent(), "Some((7, Stop { session: 0 }))");
}

#[test]
fn reasons_in_words() {
    assert_eq!(reason(HostError::MalformedRequest), "malformed request");
    assert_eq!(reason(HostError::IdentifiersExhausted), "identifiers exhausted");
    assert_eq!(reason(HostError::UnknownTarget), "unknown target");
    assert_eq!(reason(HostError::Conflict), "conflict");
    assert_eq!(reason(HostError::UnknownSession), "unknown session");
    assert_eq!(reason(HostError::NotNegotiating), "not negotiating");
    assert_eq!(reason(HostError::Frame(SinkError::SessionNotActive)), "session not active");
    assert_eq!(reason(HostError::Frame(SinkError::SessionStopped)), "session stopped");
    assert_eq!(reason(HostError::Frame(SinkError::MalformedFrame)), "malformed frame");
    assert_eq!(reason(HostError::Frame(SinkError::OutOfOrder)), "out of order");
}

fn agent() -> GlobalHub {
    let mut hub = new_hub(false);
    hub.set_video_source(VideoSource {
        kind: VideoSourceKind::OpenGL,
        width: 1920,
        height: 1080,
        pitch: 7680,
        vflip: true,
    });
    hub
}

#[test]
fn the_agent_answers_a_probe() {
    let mut hub = agent();
    assert!(matches!(
        reply(&mut hub, Message::Probe, 4242, "game.exe"),
        Some(Message::ProbeAnswer { pid: 4242, exe }) if exe == "game.exe"
    ));
}

#[test]
fn the_agent_accepts_or_rejects_a_start() {
    let mut hub = new_hub(false);
    assert!(matches!(
        reply(&mut hub, Message::StartCapture { session: 3 }, 1, "a"),
        Some(Message::Rejected { session: 3, reason }) if reason == "No viable video context!"
    ));
    let mut hub = agent();
    assert!(matches!(
        reply(&mut hub, Message::StartCapture { session: 3 }, 1, "a"),
        Some(Message::Accepted { session: 3, width: 1920, height: 1080, pitch: 7680, vflip: true })
    ));
    assert_eq!(hub.peek().unwrap().sink, Capability(3));
    assert!(matches!(
        reply(&mut hub, Message::StartCapture { session: 4 }, 1, "a"),
        Some(Message::Rejected { session: 4, reason }) if reason == "A capture session is already active"
    ));
    assert_eq!(hub.peek().unwrap().sink, Capability(3));
}

#[test]
fn the_agent_stops_the_session_that_is_meant() {
    let mut hub = agent();
    reply(&mut hub, Message::StartCapture { session: 3 }, 1, "a");
    assert!(matches!(
        reply(&mut hub, Message::Stop { session: 4 }, 1, "a"),
        Some(Message::Stopped { session: 4 })
    ));
    assert!(hub.peek().unwrap().alive);
    assert!(matches!(
        reply(&mut hub, Message::Stop { session: 3 }, 1, "a"),
        Some(Message::Stopped { session: 3 })
    ));
    assert!(!hub.peek().unwrap().alive);
    assert!(matches!(
        reply(&mut hub, Message::Stop { session: 3 }, 1, "a"),
        Some(Message::Stopped { session: 3 })
    ));
}

#[test]
fn the_agent_has_no_answer_to_the_rest() {
    let mut hub = agent();
    assert!(reply(&mut hub, Message::Hotkey, 1, "a").is_none());
    assert!(reply(&mut hub, Message::FrameAck { index: 1 }, 1, "a").is_none());
    assert!(reply(&mut hub, Message::Malformed { reason: String::new() }, 1, "a").is_none());
    assert!(reply(&mut hub, Message::Stopped { session: 1 }, 1, "a").is_none());
}

#[test]
fn sixty_frames_from_agent_to_encoder() {
    let mut world = World::new(HostImpl::new());
    let mut hub = agent();
    let mut context = CaptureContext::new(1920, 1080).unwrap();

    // The agent registers, and the sweep at one second finds it alive.
    world.receive(3, Message::Register { pid: 4242, exe: String::from("game.exe") }, 0);
    world.clock(1000);
    let (to, probe) = world.sent.pop().unwrap();
    assert_eq!(to, 3);
    let answer = reply(&mut hub, probe, 4242, "game.exe").unwrap();
    world.receive(3, answer, 1010);
    world.clock(1250);
    assert!(world.dropped.is_empty());
    assert!(world.host.registry().contains(TargetId(0)));

    // The trigger fires, and the capture is negotiated.
    world.receive(3, Message::Hotkey, 1500);
    let (_, start) = world.sent.pop().unwrap();
    let accepted = reply(&mut hub, start, 4242, "game.exe").unwrap();
    world.receive(3, accepted, 1510);
    assert_eq!(world.opened, vec![0]);
    let session = world.host.session(SessionId(0)).unwrap();
    assert_eq!(session.state(), SessionState::Active);
    assert_eq!(
        session.source(),
        Some(VideoSource {
            kind: VideoSourceKind::OpenGL,
            width: 1920,
            height: 1080,
            pitch: 7680,
            vflip: true
        })
    );

    // Sixty frames, sixteen milliseconds apart.
    for i in 0..60u64 {
        let request = match context.capture_frame(&mut hub, i * 16) {
            CaptureStep::Capture(request) => request,
            other => panic!("unexpected {:?}", other),
        };
        world.receive(3, frame_message(request, vec![0u8; request.bytes as usize]), 1600 + i * 16);
        assert_eq!(world.last_sent(), format!("Some((3, FrameAck {{ index: {} }}))", i));
    }
    assert_eq!(world.written.len(), 60);
    assert_eq!(world.written[0], (0, 0, 0));
    assert_eq!(world.written[59], (0, 59, 944));
    assert!(world.written.windows(2).all(|w| w[0].1 < w[1].1 && w[0].2 < w[1].2));
    assert!(world.closed.is_empty());

    // The explicit stop.
    world.receive(3, Message::Hotkey, 3000);
    assert_eq!(world.closed, vec![0]);
    let (_, stop) = world.sent.pop().unwrap();
    let stopped = reply(&mut hub, stop, 4242, "game.exe").unwrap();
    assert_eq!(world.host.session(SessionId(0)).unwrap().state(), SessionState::Stopped);

    // A frame that is late is refused, and nothing more is written or
    // closed.
    world.receive(
        3,
        Message::Frame {
            session: 0,
            index: 60,
            timestamp: 960,
            width: 1920,
            height: 1080,
            pitch: 7680,
            vflip: true,
            data: vec![0u8; 7680 * 1080],
        },
        3010,
    );
    assert_eq!(world.last_sent(), "Some((3, FrameRefused { index: 60, reason: \"session stopped\" }))");
    assert_eq!(world.written.len(), 60);
    assert_eq!(world.closed, vec![0]);

    // The agent has seen the stop too: its next frame is not captured, and
    // the session is forgotten.
    assert_eq!(context.capture_frame(&mut hub, 976), CaptureStep::SessionEnded);
    world.receive(3, stopped, 3020);
    assert_eq!(world.host.session_count(), 0);
}
