//! Captured frames as they travel from the agent to the supervisor.

use crate::source::VideoSource;
use vstd::prelude::*;

verus! {

/// Every supported pixel format takes four bytes per pixel.
pub const BYTES_PER_PIXEL: u64 = 4;

/// Order of the colour channels within a pixel.
#[derive(Clone, Copy, Debug, PartialEq, Eq, Structural)]
pub enum PixelFormat {
    Bgra,
    Rgba,
}

/// How the pixels of a frame lie in its buffer.
#[derive(Clone, Copy, Debug, PartialEq, Eq, Structural)]
pub struct FrameLayout {
    pub width: u32,
    pub height: u32,
    pub pitch: u32,
    pub vflip: bool,
    pub format: PixelFormat,
}

impl FrameLayout {
    /// Bytes that a buffer of this layout spans: one pitch per row.
    pub open spec fn required_bytes(self) -> nat {
        (self.pitch as nat) * (self.height as nat)
    }

    /// A row of pixels fits in one pitch.
    pub open spec fn holds_rows(self) -> bool {
        self.pitch as nat >= BYTES_PER_PIXEL as nat * self.width as nat
    }

    /// The layout is that of the surface `source`.
    pub open spec fn matches(self, source: VideoSource) -> bool {
        &&& self.width == source.width
        &&& self.height == source.height
        &&& self.pitch == source.pitch
        &&& self.vflip == source.vflip
    }

    /// The layout of frames captured from `source`.
    pub fn of_source(source: &VideoSource, format: PixelFormat) -> (l: FrameLayout)
        ensures
            l.matches(*source),
            l.format == format,
    {
        FrameLayout {
            width: source.width,
            height: source.height,
            pitch: source.pitch,
            vflip: source.vflip,
            format,
        }
    }

    /// Whether a buffer of `len` bytes can hold a frame of this layout as
    /// captured from `source`.
    pub fn fits(&self, source: &VideoSource, len: usize) -> (b: bool)
        ensures
            b == (self.matches(*source) && self.holds_rows() && len >= self.required_bytes()),
    {
        let same = self.width == source.width && self.height == source.height && self.pitch
            == source.pitch && self.vflip == source.vflip;
        if !same {
            return false;
        }
        let row: u64 = BYTES_PER_PIXEL * (self.width as u64);
        if (self.pitch as u64) < row {
            return false;
        }
        let p: u64 = self.pitch as u64;
        let h: u64 = self.height as u64;
        assert(p * h <= 0xFFFF_FFFF * 0xFFFF_FFFF) by (nonlinear_arith)
            requires
                p <= 0xFFFF_FFFF,
                h <= 0xFFFF_FFFF,
        ;
        len as u64 >= p * h
    }
}

/// One captured frame.
#[derive(Debug)]
pub struct VideoFrameEnvelope {
    /// Sequence number, growing from frame to frame.
    pub index: u64,
    /// Presentation time in milliseconds since the session started.
    pub timestamp: u64,
    /// The raw pixels.
    pub data: Vec<u8>,
    pub layout: FrameLayout,
}

/// The mathematical content of an envelope.
pub struct FrameView {
    pub index: u64,
    pub timestamp: u64,
    pub data: Seq<u8>,
    pub layout: FrameLayout,
}

impl View for VideoFrameEnvelope {
    type V = FrameView;

    open spec fn view(&self) -> FrameView {
        FrameView {
            index: self.index,
            timestamp: self.timestamp,
            data: self.data@,
            layout: self.layout,
        }
    }
}

impl FrameView {
    /// The frame was captured from `source` and its buffer holds every row.
    pub open spec fn well_formed_for(self, source: VideoSource) -> bool {
        &&& self.layout.matches(source)
        &&& self.layout.holds_rows()
        &&& self.data.len() >= self.layout.required_bytes()
    }
}

} // verus!
