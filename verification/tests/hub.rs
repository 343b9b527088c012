use capsule::hub::{new_hub, AgentError, CaptureContext, CaptureStep, FrameRequest, Session};
use capsule::registry::Capability;
use capsule::source::{AudioSource, VideoSource, VideoSourceKind};

fn game_surface() -> VideoSource {
    VideoSource { kind: VideoSourceKind::OpenGL, width: 1920, height: 1080, pitch: 7680, vflip: true }
}

#[test]
fn a_new_hub_knows_nothing() {
    let mut hub = new_hub(false);
    assert!(!hub.in_test());
    assert_eq!(hub.get_video_source(), None);
    assert_eq!(hub.get_audio_source(), None);
    assert_eq!(hub.session(), None);
    assert!(new_hub(true).in_test());
}

#[test]
fn the_first_video_source_asks_for_registration() {
    let mut hub = new_hub(false);
    assert!(hub.set_video_source(game_surface()));
    assert_eq!(hub.get_video_source(), Some(&game_surface()));
    // The surface is set once.
    let resized = VideoSource { width: 1280, height: 720, pitch: 5120, ..game_surface() };
    assert!(!hub.set_video_source(resized));
    assert_eq!(hub.get_video_source(), Some(&game_surface()));
}

#[test]
fn the_first_audio_source_is_kept() {
    let mut hub = new_hub(false);
    hub.set_audio_source(AudioSource { sample_rate: 44100 });
    assert_eq!(hub.get_audio_source(), Some(&AudioSource { sample_rate: 44100 }));
    hub.set_audio_source(AudioSource { sample_rate: 48000 });
    assert_eq!(hub.get_audio_source(), Some(&AudioSource { sample_rate: 44100 }));
    assert_eq!(hub.get_video_source(), None);
}

#[test]
fn start_capture_without_a_surface_fails() {
    let mut hub = new_hub(false);
    assert_eq!(hub.start_capture(Capability(1)), Err(AgentError::NoVideoSource));
    assert_eq!(hub.session(), None);
    assert_eq!(AgentError::NoVideoSource.message(), "No viable video context!");
}

#[test]
fn start_capture_answers_with_the_surface() {
    let mut hub = new_hub(false);
    hub.set_video_source(game_surface());
    assert_eq!(hub.start_capture(Capability(4)), Ok(game_surface()));
    assert_eq!(hub.session(), Some(Session { sink: Capability(4), alive: true }));
}

#[test]
fn a_second_start_capture_conflicts() {
    let mut hub = new_hub(false);
    hub.set_video_source(game_surface());
    hub.start_capture(Capability(4)).unwrap();
    assert_eq!(hub.start_capture(Capability(5)), Err(AgentError::Conflict));
    assert_eq!(hub.session(), Some(Session { sink: Capability(4), alive: true }));
    assert_eq!(AgentError::Conflict.message(), "A capture session is already active");
}

#[test]
fn stop_is_idempotent_on_the_agent() {
    let mut hub = new_hub(false);
    assert!(!hub.stop());
    hub.set_video_source(game_surface());
    hub.start_capture(Capability(4)).unwrap();
    assert!(hub.stop());
    assert!(!hub.stop());
    assert_eq!(hub.session(), None);
    assert!(!hub.stop());
}

#[test]
fn a_stopped_session_makes_room_for_the_next() {
    let mut hub = new_hub(false);
    hub.set_video_source(game_surface());
    hub.start_capture(Capability(4)).unwrap();
    hub.stop();
    assert_eq!(hub.start_capture(Capability(5)), Ok(game_surface()));
    assert_eq!(hub.session(), Some(Session { sink: Capability(5), alive: true }));
}

#[test]
fn a_session_stops_once() {
    let mut s = Session { sink: Capability(1), alive: true };
    assert!(s.stop());
    assert_eq!(s, Session { sink: Capability(1), alive: false });
    assert!(!s.stop());
    assert_eq!(s, Session { sink: Capability(1), alive: false });
}

#[test]
fn a_viewport_has_no_negative_side() {
    assert!(CaptureContext::new(-1, 10).is_none());
    assert!(CaptureContext::new(10, -1).is_none());
    let c = CaptureContext::new(0, 0).unwrap();
    assert_eq!(c.bytes_per_frame(), 0);
    let c = CaptureContext::new(1920, 1080).unwrap();
    assert_eq!(c.width(), 1920);
    assert_eq!(c.height(), 1080);
    assert_eq!(c.frame_number(), 0);
    assert_eq!(c.bytes_per_frame(), 8294400);
    let c = CaptureContext::new(i32::MAX, i32::MAX).unwrap();
    assert_eq!(c.bytes_per_frame(), 18446744056529682436);
}

#[test]
fn frames_are_counted_without_a_recording() {
    let mut hub = new_hub(false);
    let mut c = CaptureContext::new(4, 4).unwrap();
    assert_eq!(c.capture_frame(&mut hub, 0), CaptureStep::Idle);
    assert_eq!(c.capture_frame(&mut hub, 16), CaptureStep::Idle);
    assert_eq!(c.frame_number(), 2);
}

#[test]
fn frames_are_captured_while_recording() {
    let mut hub = new_hub(false);
    hub.set_video_source(game_surface());
    let mut c = CaptureContext::new(1920, 1080).unwrap();
    c.capture_frame(&mut hub, 0);
    hub.start_capture(Capability(4)).unwrap();
    for i in 0..60u64 {
        let step = c.capture_frame(&mut hub, 100 + i * 16);
        assert_eq!(
            step,
            CaptureStep::Capture(FrameRequest {
                sink: Capability(4),
                index: 1 + i,
                timestamp: 100 + i * 16,
                width: 1920,
                height: 1080,
                pitch: 7680,
                vflip: true,
                bytes: 8294400,
            })
        );
    }
    assert_eq!(c.frame_number(), 61);
}

#[test]
fn a_frame_that_finds_the_session_stopped_is_not_counted() {
    let mut hub = new_hub(false);
    hub.set_video_source(game_surface());
    let mut c = CaptureContext::new(4, 4).unwrap();
    hub.start_capture(Capability(4)).unwrap();
    assert!(matches!(c.capture_frame(&mut hub, 0), CaptureStep::Capture(_)));
    hub.stop();
    assert_eq!(c.capture_frame(&mut hub, 16), CaptureStep::SessionEnded);
    assert_eq!(c.frame_number(), 1);
    assert_eq!(hub.session(), None);
    assert_eq!(c.capture_frame(&mut hub, 32), CaptureStep::Idle);
    assert_eq!(c.frame_number(), 2);
}

#[test]
fn captured_frames_are_numbered_in_order_across_sessions() {
    let mut hub = new_hub(false);
    hub.set_video_source(game_surface());
    let mut c = CaptureContext::new(2, 2).unwrap();
    let mut indices: Vec<u64> = Vec::new();
    for round in 0..3u64 {
        hub.start_capture(Capability(round)).unwrap();
        for _ in 0..4 {
            if let CaptureStep::Capture(request) = c.capture_frame(&mut hub, 0) {
                assert_eq!(request.sink, Capability(round));
                indices.push(request.index);
            }
        }
        hub.stop();
        assert_eq!(c.capture_frame(&mut hub, 0), CaptureStep::SessionEnded);
        assert_eq!(c.capture_frame(&mut hub, 0), CaptureStep::Idle);
    }
    assert_eq!(indices, vec![0, 1, 2, 3, 5, 6, 7, 8, 10, 11, 12, 13]);
}
