//! What the supervisor settles before it hands a frame to the video
//! encoder: the encoder's settings for a surface, where in a pixel buffer
//! the scaler starts to read and in which direction, and what each answer
//! of the codec means for the loop that drains it.
//!
//! The codec itself is driven by the caller.

use crate::source::VideoSource;
use vstd::prelude::*;
use vstd::string::*;

verus! {

/// The codec's answer when it has given out everything: the tag `EOF `,
/// negated.
pub const AVERROR_EOF: i32 = -541478725;

/// Ticks of the encoder's clock in a second: timestamps are milliseconds.
pub const TIME_BASE: i32 = 1000;

/// Frames per second that the encoder is told to expect.
pub const FRAME_RATE: i32 = 60;

/// Why the encoder cannot take a surface or a frame.
#[derive(Clone, Copy, Debug, PartialEq, Eq, Structural)]
pub enum EncoderError {
    /// A side of the surface is zero, or the width, the height or the pitch
    /// is beyond what the codec can count.
    InvalidDimensions,
    /// The encoder has been closed.
    Closed,
    /// The buffer does not hold every row of the surface.
    BufferTooShort,
    /// The timestamp is beyond what the codec can count.
    TimestampTooLarge,
}

/// What the codec is opened with.
#[derive(Clone, Copy, Debug, PartialEq, Eq, Structural)]
pub struct EncoderSettings {
    pub width: i32,
    pub height: i32,
    pub time_base: i32,
    pub frame_rate: i32,
}

/// How the scaler reads a frame: the offset of the first row it reads, the
/// step from one row to the next (negative where it reads upwards), and the
/// frame's presentation timestamp.
#[derive(Clone, Copy, Debug, PartialEq, Eq, Structural)]
pub struct ScalePlan {
    pub offset: usize,
    pub stride: i32,
    pub pts: i64,
}

/// What to do after asking the codec for a packet.
#[derive(Clone, Copy, Debug, PartialEq, Eq, Structural)]
pub enum DrainStep {
    /// The codec has no packet for now: the frame is done.
    Done,
    /// The codec gave a packet: write it out and ask again.
    WritePacket,
    /// The codec failed with the given code.
    Failed(i32),
}

/// Whether the encoder can take the surface.
pub open spec fn encodable(video: VideoSource) -> bool {
    &&& 0 < video.width <= i32::MAX
    &&& 0 < video.height <= i32::MAX
    &&& video.pitch <= i32::MAX
}

/// The settings for a surface.
pub open spec fn settings_for(video: VideoSource) -> EncoderSettings {
    EncoderSettings {
        width: video.width as i32,
        height: video.height as i32,
        time_base: TIME_BASE,
        frame_rate: FRAME_RATE,
    }
}

/// How to read a frame of `video`: from the first row downwards, or from
/// the last row upwards where the surface is stored bottom-up.
pub open spec fn plan_for(video: VideoSource, timestamp: u64) -> ScalePlan {
    if video.vflip {
        ScalePlan {
            offset: (video.pitch * (video.height - 1)) as usize,
            stride: (-(video.pitch as int)) as i32,
            pts: timestamp as i64,
        }
    } else {
        ScalePlan { offset: 0, stride: video.pitch as i32, pts: timestamp as i64 }
    }
}

/// What the codec's answer `ret` to a request for a packet means, where
/// `eagain` is the platform's code for "try again".
pub open spec fn drain_step(ret: i32, eagain: i32) -> DrainStep {
    if ret == -eagain || ret == AVERROR_EOF {
        DrainStep::Done
    } else if ret < 0 {
        DrainStep::Failed(ret)
    } else {
        DrainStep::WritePacket
    }
}

/// The mathematical content of an encoder context.
pub struct EncoderModel {
    pub file_name: Seq<char>,
    pub video: VideoSource,
    pub open: bool,
}

/// The supervisor's record of one open encoder.
pub struct Context {
    file_name: String,
    video: VideoSource,
    open: bool,
}

impl View for Context {
    type V = EncoderModel;

    closed spec fn view(&self) -> EncoderModel {
        EncoderModel { file_name: self.file_name@, video: self.video, open: self.open }
    }
}

impl Context {
    /// The surface can be encoded.
    pub open spec fn wf(&self) -> bool {
        encodable(self@.video)
    }

    /// The record of an encoder for `video` that writes to `file_name`.
    pub fn new(file_name: &str, video: &VideoSource) -> (r: Result<Context, EncoderError>)
        ensures
            match r {
                Ok(c) => {
                    &&& encodable(*video)
                    &&& c.wf()
                    &&& c@ == (EncoderModel { file_name: file_name@, video: *video, open: true })
                },
                Err(e) => e == EncoderError::InvalidDimensions && !encodable(*video),
            },
    {
        if video.width == 0 || video.height == 0 || video.width > 0x7FFF_FFFF || video.height
            > 0x7FFF_FFFF || video.pitch > 0x7FFF_FFFF {
            return Err(EncoderError::InvalidDimensions);
        }
        Ok(Context { file_name: String::from_str(file_name), video: *video, open: true })
    }

    /// The surface that is encoded.
    pub fn video(&self) -> (v: VideoSource)
        ensures
            v == self@.video,
    {
        self.video
    }

    /// The file that the stream goes to.
    pub fn file_name(&self) -> (s: &str)
        ensures
            s@ == self@.file_name,
    {
        self.file_name.as_str()
    }

    /// Whether the encoder is still open.
    pub fn is_open(&self) -> (b: bool)
        ensures
            b == self@.open,
    {
        self.open
    }

    /// What the codec is opened with.
    pub fn settings(&self) -> (s: EncoderSettings)
        requires
            self.wf(),
        ensures
            s == settings_for(self@.video),
    {
        EncoderSettings {
            width: self.video.width as i32,
            height: self.video.height as i32,
            time_base: TIME_BASE,
            frame_rate: FRAME_RATE,
        }
    }

    /// Why the frame cannot be written, if it cannot.
    pub open spec fn refusal(&self, len: nat, timestamp: u64) -> Option<EncoderError> {
        if !self@.open {
            Some(EncoderError::Closed)
        } else if len < self@.video.frame_bytes() {
            Some(EncoderError::BufferTooShort)
        } else if timestamp > i64::MAX {
            Some(EncoderError::TimestampTooLarge)
        } else {
            None
        }
    }

    /// How the scaler is to read the frame in `data`. The plan stays within
    /// the buffer: every row that the scaler reads lies in it.
    pub fn write_frame(&self, data: &[u8], timestamp: u64) -> (r: Result<ScalePlan, EncoderError>)
        requires
            self.wf(),
        ensures
            match r {
                Ok(plan) => {
                    &&& self.refusal(data@.len(), timestamp).is_none()
                    &&& plan == plan_for(self@.video, timestamp)
                    &&& plan.offset + self@.video.pitch <= data@.len()
                },
                Err(e) => self.refusal(data@.len(), timestamp) == Some(e),
            },
    {
        if !self.open {
            return Err(EncoderError::Closed);
        }
        let pitch: u64 = self.video.pitch as u64;
        let height: u64 = self.video.height as u64;
        assert(pitch * height <= 0x7FFF_FFFF * 0x7FFF_FFFF) by (nonlinear_arith)
            requires
                pitch <= 0x7FFF_FFFF,
                height <= 0x7FFF_FFFF,
        ;
        assert(pitch * (height - 1) + pitch == pitch * height) by (nonlinear_arith);
        if (data.len() as u64) < pitch * height {
            return Err(EncoderError::BufferTooShort);
        }
        if timestamp > 0x7FFF_FFFF_FFFF_FFFF {
            return Err(EncoderError::TimestampTooLarge);
        }
        let stride: i32 = self.video.pitch as i32;
        if self.video.vflip {
            Ok(
                ScalePlan {
                    offset: (pitch * (height - 1)) as usize,
                    stride: -stride,
                    pts: timestamp as i64,
                },
            )
        } else {
            Ok(ScalePlan { offset: 0, stride, pts: timestamp as i64 })
        }
    }

    /// What the codec's answer to a request for a packet means.
    pub fn encode(ret: i32, eagain: i32) -> (step: DrainStep)
        ensures
            step == drain_step(ret, eagain),
    {
        if ret as i64 == -(eagain as i64) || ret == AVERROR_EOF {
            DrainStep::Done
        } else if ret < 0 {
            DrainStep::Failed(ret)
        } else {
            DrainStep::WritePacket
        }
    }

    /// Closes the encoder. Returns whether this call closed it, in which
    /// case the caller flushes the codec and frees it; a second call
    /// changes nothing.
    pub fn close(&mut self) -> (closed: bool)
        ensures
            final(self)@ == (EncoderModel { open: false, ..old(self)@ }),
            closed == old(self)@.open,
    {
        let closed = self.open;
        self.open = false;
        closed
    }
}

/// Where the scaler starts to read row `k` of a frame, counting the rows
/// in the order in which it reads them.
pub open spec fn row_start(plan: ScalePlan, k: int) -> int {
    plan.offset + k * plan.stride
}

/// Every row lies in the buffer: a scaler that follows the plan for a
/// surface reads each row of the surface from within any buffer that holds
/// a frame of it.
pub proof fn lemma_rows_lie_in_buffer(video: VideoSource, timestamp: u64, len: nat, k: int)
    requires
        encodable(video),
        video.frame_bytes() <= len <= usize::MAX,
        0 <= k < video.height,
    ensures
        0 <= row_start(plan_for(video, timestamp), k),
        row_start(plan_for(video, timestamp), k) + video.pitch <= len,
{
    let p = video.pitch as int;
    let h = video.height as int;
    assert(p * (h - 1 - k) >= 0 && p * (h - 1 - k) + p <= p * h && p * (k + 1) <= p * h && p
        * (h - 1) <= p * h) by (nonlinear_arith)
        requires
            0 <= p,
            0 <= k < h,
    ;
    assert(p * (h - 1) + k * (-p) == p * (h - 1 - k)) by (nonlinear_arith);
    assert(k * p + p == p * (k + 1)) by (nonlinear_arith);
}

} // verus!
