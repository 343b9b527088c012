use capsule::frame::{FrameLayout, PixelFormat, VideoFrameEnvelope};
use capsule::registry::{Capability, TargetId};
use capsule::session::{
    Ack, CaptureSession, SessionId, SessionState, StopPolicy, StopReason, DEFAULT_FRAME_BUDGET,
};
use capsule::sink::{FrameSink, SinkError};
use capsule::source::{VideoSource, VideoSourceKind};

fn surface() -> VideoSource {
    VideoSource { kind: VideoSourceKind::OpenGL, width: 4, height: 2, pitch: 16, vflip: true }
}

fn frame(index: u64, timestamp: u64) -> VideoFrameEnvelope {
    VideoFrameEnvelope {
        index,
        timestamp,
        data: vec![0u8; 32],
        layout: FrameLayout {
            width: 4,
            height: 2,
            pitch: 16,
            vflip: true,
            format: PixelFormat::Rgba,
        },
    }
}

fn active(policy: StopPolicy) -> CaptureSession {
    let mut s = CaptureSession::negotiate(SessionId(3), TargetId(8), policy, 100);
    assert!(s.activate(surface(), Capability(5)));
    s
}

#[test]
fn a_new_session_negotiates() {
    let s = CaptureSession::negotiate(SessionId(3), TargetId(8), StopPolicy::unlimited(), 100);
    assert_eq!(s.id(), SessionId(3));
    assert_eq!(s.target(), TargetId(8));
    assert_eq!(s.state(), SessionState::Negotiating);
    assert_eq!(s.created_at(), 100);
    assert_eq!(s.frames(), 0);
    assert_eq!(s.last_index(), None);
    assert_eq!(s.source(), None);
    assert_eq!(s.stop_capability(), None);
    assert_eq!(s.stop_reason(), None);
    assert!(!s.alive());
    assert!(s.live());
}

#[test]
fn activation_opens_the_sink() {
    let s = active(StopPolicy::unlimited());
    assert_eq!(s.state(), SessionState::Active);
    assert_eq!(s.source(), Some(surface()));
    assert_eq!(s.stop_capability(), Some(Capability(5)));
    assert!(s.alive());
}

#[test]
fn activation_happens_once() {
    let mut s = active(StopPolicy::unlimited());
    let other = VideoSource { width: 8, ..surface() };
    assert!(!s.activate(other, Capability(6)));
    assert_eq!(s.source(), Some(surface()));
    assert_eq!(s.stop_capability(), Some(Capability(5)));
    s.stop(StopReason::Explicit);
    assert!(!s.activate(other, Capability(6)));
    assert_eq!(s.state(), SessionState::Stopped);
}

#[test]
fn frames_are_refused_before_activation() {
    let mut s = CaptureSession::negotiate(SessionId(3), TargetId(8), StopPolicy::unlimited(), 0);
    assert_eq!(s.submit_frame(&frame(0, 0)), Err(SinkError::SessionNotActive));
    assert_eq!(s.frames(), 0);
    assert_eq!(s.state(), SessionState::Negotiating);
}

#[test]
fn frames_are_acknowledged_in_order() {
    let mut s = active(StopPolicy::unlimited());
    assert_eq!(s.submit_frame(&frame(0, 0)), Ok(Ack { index: 0, timestamp: 0, stopped: None }));
    assert_eq!(s.submit_frame(&frame(1, 16)), Ok(Ack { index: 1, timestamp: 16, stopped: None }));
    assert_eq!(s.submit_frame(&frame(5, 32)), Ok(Ack { index: 5, timestamp: 32, stopped: None }));
    assert_eq!(s.frames(), 3);
    assert_eq!(s.last_index(), Some(5));
}

#[test]
fn the_first_frame_may_have_any_index() {
    let mut s = active(StopPolicy::unlimited());
    assert!(s.submit_frame(&frame(57, 0)).is_ok());
    assert_eq!(s.last_index(), Some(57));
}

#[test]
fn a_repeated_or_earlier_index_is_refused() {
    let mut s = active(StopPolicy::unlimited());
    assert!(s.submit_frame(&frame(4, 0)).is_ok());
    assert_eq!(s.submit_frame(&frame(4, 16)), Err(SinkError::OutOfOrder));
    assert_eq!(s.submit_frame(&frame(3, 16)), Err(SinkError::OutOfOrder));
    assert_eq!(s.frames(), 1);
    assert_eq!(s.last_index(), Some(4));
    assert_eq!(s.state(), SessionState::Active);
    assert!(s.submit_frame(&frame(5, 16)).is_ok());
}

#[test]
fn the_encoder_sees_growing_indices_whatever_is_submitted() {
    let mut s = active(StopPolicy::unlimited());
    let submitted = [3u64, 1, 4, 1, 5, 9, 2, 6, 5, 3, 5, 8, 9, 7, 9];
    let mut seen: Vec<u64> = Vec::new();
    for index in submitted {
        if let Ok(ack) = s.submit_frame(&frame(index, 0)) {
            seen.push(ack.index);
        }
    }
    assert_eq!(seen, vec![3, 4, 5, 9]);
    assert_eq!(s.frames(), 4);
}

#[test]
fn a_frame_of_another_layout_is_refused() {
    let mut s = active(StopPolicy::unlimited());
    let mut wide = frame(0, 0);
    wide.layout.width = 3;
    assert_eq!(s.submit_frame(&wide), Err(SinkError::MalformedFrame));
    let mut tall = frame(0, 0);
    tall.layout.height = 1;
    assert_eq!(s.submit_frame(&tall), Err(SinkError::MalformedFrame));
    let mut pitched = frame(0, 0);
    pitched.layout.pitch = 20;
    assert_eq!(s.submit_frame(&pitched), Err(SinkError::MalformedFrame));
    let mut upright = frame(0, 0);
    upright.layout.vflip = false;
    assert_eq!(s.submit_frame(&upright), Err(SinkError::MalformedFrame));
    assert_eq!(s.frames(), 0);
    assert_eq!(s.last_index(), None);
}

#[test]
fn a_short_buffer_is_refused() {
    let mut s = active(StopPolicy::unlimited());
    let mut short = frame(0, 0);
    short.data = vec![0u8; 31];
    assert_eq!(s.submit_frame(&short), Err(SinkError::MalformedFrame));
    let mut long = frame(0, 0);
    long.data = vec![0u8; 40];
    assert!(s.submit_frame(&long).is_ok());
}

#[test]
fn a_pitch_shorter_than_a_row_is_refused() {
    let narrow = VideoSource { kind: VideoSourceKind::DXGI, width: 4, height: 2, pitch: 15, vflip: false };
    let mut s = CaptureSession::negotiate(SessionId(0), TargetId(0), StopPolicy::unlimited(), 0);
    s.activate(narrow, Capability(1));
    let f = VideoFrameEnvelope {
        index: 0,
        timestamp: 0,
        data: vec![0u8; 64],
        layout: FrameLayout { width: 4, height: 2, pitch: 15, vflip: false, format: PixelFormat::Bgra },
    };
    assert_eq!(s.submit_frame(&f), Err(SinkError::MalformedFrame));
}

#[test]
fn a_malformed_frame_is_reported_before_its_order() {
    let mut s = active(StopPolicy::unlimited());
    assert!(s.submit_frame(&frame(4, 0)).is_ok());
    let mut bad = frame(2, 0);
    bad.data = vec![];
    assert_eq!(s.submit_frame(&bad), Err(SinkError::MalformedFrame));
}

#[test]
fn stop_ends_the_session() {
    let mut s = active(StopPolicy::unlimited());
    assert!(s.submit_frame(&frame(0, 0)).is_ok());
    assert!(s.stop(StopReason::Explicit));
    assert_eq!(s.state(), SessionState::Stopped);
    assert_eq!(s.stop_reason(), Some(StopReason::Explicit));
    assert!(!s.alive());
    assert!(!s.live());
    assert_eq!(s.submit_frame(&frame(1, 16)), Err(SinkError::SessionStopped));
    assert_eq!(s.frames(), 1);
}

#[test]
fn a_second_stop_changes_nothing() {
    let mut s = active(StopPolicy::unlimited());
    assert!(s.stop(StopReason::Explicit));
    assert!(!s.stop(StopReason::TransportClosed));
    assert_eq!(s.state(), SessionState::Stopped);
    assert_eq!(s.stop_reason(), Some(StopReason::Explicit));
}

#[test]
fn stop_does_not_touch_a_negotiating_session() {
    let mut s = CaptureSession::negotiate(SessionId(3), TargetId(8), StopPolicy::unlimited(), 0);
    assert!(!s.stop(StopReason::Explicit));
    assert_eq!(s.state(), SessionState::Negotiating);
    assert_eq!(s.stop_reason(), None);
}

#[test]
fn the_frame_budget_stops_the_session() {
    let mut s = active(StopPolicy::frame_budget(3));
    assert_eq!(s.submit_frame(&frame(0, 0)).unwrap().stopped, None);
    assert_eq!(s.submit_frame(&frame(1, 16)).unwrap().stopped, None);
    assert_eq!(
        s.submit_frame(&frame(2, 32)),
        Ok(Ack { index: 2, timestamp: 32, stopped: Some(StopReason::FrameLimit) })
    );
    assert_eq!(s.state(), SessionState::Stopped);
    assert_eq!(s.stop_reason(), Some(StopReason::FrameLimit));
    assert_eq!(s.frames(), 3);
    assert_eq!(s.submit_frame(&frame(3, 48)), Err(SinkError::SessionStopped));
    assert!(!s.stop(StopReason::Explicit));
}

#[test]
fn refused_frames_do_not_count_against_the_budget() {
    let mut s = active(StopPolicy::frame_budget(2));
    assert!(s.submit_frame(&frame(5, 0)).is_ok());
    assert!(s.submit_frame(&frame(5, 0)).is_err());
    assert!(s.submit_frame(&frame(1, 0)).is_err());
    assert_eq!(s.state(), SessionState::Active);
    assert_eq!(s.submit_frame(&frame(6, 0)).unwrap().stopped, Some(StopReason::FrameLimit));
}

#[test]
fn a_budget_of_no_frames_stops_with_the_first() {
    let mut s = active(StopPolicy::frame_budget(0));
    assert_eq!(s.state(), SessionState::Active);
    assert_eq!(s.submit_frame(&frame(0, 0)).unwrap().stopped, Some(StopReason::FrameLimit));
    assert_eq!(s.state(), SessionState::Stopped);
}

#[test]
fn the_historical_budget() {
    assert_eq!(DEFAULT_FRAME_BUDGET, 240);
    let mut s = active(StopPolicy::frame_budget(DEFAULT_FRAME_BUDGET));
    for i in 0..239u64 {
        assert_eq!(s.submit_frame(&frame(i, i * 16)).unwrap().stopped, None);
    }
    assert_eq!(
        s.submit_frame(&frame(239, 239 * 16)).unwrap().stopped,
        Some(StopReason::FrameLimit)
    );
    assert_eq!(s.frames(), 240);
}

#[test]
fn the_time_budget_stops_with_a_late_frame() {
    let mut s = active(StopPolicy::time_budget(100));
    assert_eq!(s.submit_frame(&frame(0, 99)).unwrap().stopped, None);
    assert_eq!(s.submit_frame(&frame(1, 100)).unwrap().stopped, Some(StopReason::TimeLimit));
    assert_eq!(s.stop_reason(), Some(StopReason::TimeLimit));
}

#[test]
fn the_frame_budget_is_named_before_the_time_budget() {
    let mut s = active(StopPolicy { max_frames: 1, max_millis: 10 });
    assert_eq!(s.submit_frame(&frame(0, 50)).unwrap().stopped, Some(StopReason::FrameLimit));
}

#[test]
fn the_clock_stops_a_session_whose_time_is_up() {
    let mut s = active(StopPolicy::time_budget(1000));
    assert!(!s.expired(1099));
    assert!(!s.tick(1099));
    assert_eq!(s.state(), SessionState::Active);
    assert!(s.expired(1100));
    assert!(s.tick(1100));
    assert_eq!(s.state(), SessionState::Stopped);
    assert_eq!(s.stop_reason(), Some(StopReason::TimeLimit));
    assert!(!s.tick(5000));
}

#[test]
fn a_clock_before_the_creation_counts_as_no_time() {
    let mut s = active(StopPolicy::time_budget(1));
    assert!(!s.tick(50));
    assert_eq!(s.state(), SessionState::Active);
}

#[test]
fn the_clock_leaves_a_negotiating_session_alone() {
    let mut s = CaptureSession::negotiate(SessionId(3), TargetId(8), StopPolicy::time_budget(0), 0);
    assert!(!s.tick(10));
    assert_eq!(s.state(), SessionState::Negotiating);
}

#[test]
fn policies() {
    assert_eq!(StopPolicy::unlimited(), StopPolicy { max_frames: u64::MAX, max_millis: u64::MAX });
    assert_eq!(StopPolicy::frame_budget(7), StopPolicy { max_frames: 7, max_millis: u64::MAX });
    assert_eq!(StopPolicy::time_budget(7), StopPolicy { max_frames: u64::MAX, max_millis: 7 });
}

#[test]
fn a_sink_lets_nothing_through_until_it_is_opened() {
    let mut sink = FrameSink::new();
    assert_eq!(sink.source(), None);
    assert_eq!(sink.offer(&frame(0, 0)), Err(SinkError::SessionNotActive));
    sink.open(surface());
    assert_eq!(sink.source(), Some(surface()));
    assert_eq!(sink.offer(&frame(0, 0)), Ok(()));
    assert_eq!(sink.last_index(), Some(0));
    assert_eq!(sink.offer(&frame(0, 0)), Err(SinkError::OutOfOrder));
    assert_eq!(sink.offer(&frame(u64::MAX, 0)), Ok(()));
    assert_eq!(sink.offer(&frame(u64::MAX, 0)), Err(SinkError::OutOfOrder));
}

#[test]
fn layout_of_a_surface() {
    let l = FrameLayout::of_source(&surface(), PixelFormat::Bgra);
    assert_eq!(
        l,
        FrameLayout { width: 4, height: 2, pitch: 16, vflip: true, format: PixelFormat::Bgra }
    );
    assert!(l.fits(&surface(), 32));
    assert!(!l.fits(&surface(), 31));
    assert_eq!(surface().byte_len(), 32);
}

#[test]
fn the_largest_surface_has_a_size() {
    let huge = VideoSource {
        kind: VideoSourceKind::DXGI,
        width: 1,
        height: u32::MAX,
        pitch: u32::MAX,
        vflip: false,
    };
    assert_eq!(huge.byte_len(), 18446744065119617025);
}
