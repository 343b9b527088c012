use capsule::encoder::{
    Context, DrainStep, EncoderError, EncoderSettings, ScalePlan, AVERROR_EOF, FRAME_RATE, TIME_BASE,
};
use capsule::source::{VideoSource, VideoSourceKind};

fn encoder_surface(vflip: bool) -> VideoSource {
    VideoSource { kind: VideoSourceKind::OpenGL, width: 1920, height: 1080, pitch: 7680, vflip }
}

#[test]
fn settings_follow_the_surface() {
    let c = Context::new("capture.h264", &encoder_surface(true)).unwrap();
    assert_eq!(c.file_name(), "capture.h264");
    assert_eq!(c.video(), encoder_surface(true));
    assert!(c.is_open());
    assert_eq!(
        c.settings(),
        EncoderSettings { width: 1920, height: 1080, time_base: 1000, frame_rate: 60 }
    );
    assert_eq!(TIME_BASE, 1000);
    assert_eq!(FRAME_RATE, 60);
}

#[test]
fn a_surface_without_area_cannot_be_encoded() {
    let flat = VideoSource { height: 0, ..encoder_surface(false) };
    assert!(matches!(Context::new("x", &flat), Err(EncoderError::InvalidDimensions)));
    let thin = VideoSource { width: 0, ..encoder_surface(false) };
    assert!(matches!(Context::new("x", &thin), Err(EncoderError::InvalidDimensions)));
}

#[test]
fn a_surface_beyond_the_codecs_range_cannot_be_encoded() {
    let wide = VideoSource { width: 0x8000_0000, ..encoder_surface(false) };
    assert!(matches!(Context::new("x", &wide), Err(EncoderError::InvalidDimensions)));
    let tall = VideoSource { height: 0x8000_0000, ..encoder_surface(false) };
    assert!(matches!(Context::new("x", &tall), Err(EncoderError::InvalidDimensions)));
    let pitched = VideoSource { pitch: 0x8000_0000, ..encoder_surface(false) };
    assert!(matches!(Context::new("x", &pitched), Err(EncoderError::InvalidDimensions)));
    let edge = VideoSource { width: 0x7FFF_FFFF, height: 1, pitch: 0x7FFF_FFFF, ..encoder_surface(false) };
    assert!(Context::new("x", &edge).is_ok());
}

#[test]
fn an_upright_frame_is_read_from_its_start() {
    let c = Context::new("x", &encoder_surface(false)).unwrap();
    let data = vec![0u8; 7680 * 1080];
    assert_eq!(c.write_frame(&data, 944), Ok(ScalePlan { offset: 0, stride: 7680, pts: 944 }));
}

#[test]
fn a_flipped_frame_is_read_from_its_last_row_upwards() {
    let c = Context::new("x", &encoder_surface(true)).unwrap();
    let data = vec![0u8; 7680 * 1080];
    assert_eq!(
        c.write_frame(&data, 16),
        Ok(ScalePlan { offset: 7680 * 1079, stride: -7680, pts: 16 })
    );
}

#[test]
fn a_short_buffer_is_not_written() {
    let c = Context::new("x", &encoder_surface(true)).unwrap();
    let data = vec![0u8; 7680 * 1080 - 1];
    assert_eq!(c.write_frame(&data, 16), Err(EncoderError::BufferTooShort));
    assert_eq!(c.write_frame(&[], 16), Err(EncoderError::BufferTooShort));
}

#[test]
fn a_timestamp_beyond_the_codecs_range_is_not_written() {
    let small = VideoSource { kind: VideoSourceKind::DXGI, width: 1, height: 1, pitch: 4, vflip: false };
    let c = Context::new("x", &small).unwrap();
    assert_eq!(
        c.write_frame(&[0, 0, 0, 0], i64::MAX as u64),
        Ok(ScalePlan { offset: 0, stride: 4, pts: i64::MAX })
    );
    assert_eq!(c.write_frame(&[0, 0, 0, 0], i64::MAX as u64 + 1), Err(EncoderError::TimestampTooLarge));
    // A short buffer is named first.
    assert_eq!(c.write_frame(&[0, 0, 0], u64::MAX), Err(EncoderError::BufferTooShort));
}

#[test]
fn the_encoder_closes_once() {
    let mut c = Context::new("x", &encoder_surface(true)).unwrap();
    assert!(c.close());
    assert!(!c.is_open());
    assert!(!c.close());
    let data = vec![0u8; 7680 * 1080];
    assert_eq!(c.write_frame(&data, 0), Err(EncoderError::Closed));
    assert_eq!(c.write_frame(&[], 0), Err(EncoderError::Closed));
}

#[test]
fn the_codecs_answers() {
    assert_eq!(AVERROR_EOF, -0x20464F45);
    assert_eq!(Context::encode(0, 11), DrainStep::WritePacket);
    assert_eq!(Context::encode(7, 11), DrainStep::WritePacket);
    assert_eq!(Context::encode(-11, 11), DrainStep::Done);
    assert_eq!(Context::encode(-35, 35), DrainStep::Done);
    assert_eq!(Context::encode(-35, 11), DrainStep::Failed(-35));
    assert_eq!(Context::encode(AVERROR_EOF, 11), DrainStep::Done);
    assert_eq!(Context::encode(-22, 11), DrainStep::Failed(-22));
    assert_eq!(Context::encode(i32::MIN, i32::MIN), DrainStep::Failed(i32::MIN));
    assert_eq!(Context::encode(5, -5), DrainStep::Done);
}
