//! Descriptors of the agent-local capture surfaces.

use vstd::prelude::*;

verus! {

/// An audio capture surface. Audio has no frame path; only its attributes
/// are carried.
#[derive(Clone, Copy, Debug, PartialEq, Eq, Structural)]
pub struct AudioSource {
    pub sample_rate: u32,
}

/// The graphics API a video surface was found on.
#[derive(Clone, Copy, Debug, PartialEq, Eq, Structural)]
pub enum VideoSourceKind {
    OpenGL,
    DXGI,
}

/// A video capture surface: its dimensions in pixels, the length of one row
/// in bytes, and whether rows are stored bottom-up.
#[derive(Clone, Copy, Debug, PartialEq, Eq, Structural)]
pub struct VideoSource {
    pub kind: VideoSourceKind,
    pub width: u32,
    pub height: u32,
    pub pitch: u32,
    pub vflip: bool,
}

impl VideoSource {
    /// Number of bytes a frame of this surface occupies: one pitch per row.
    pub open spec fn frame_bytes(&self) -> nat {
        (self.pitch as nat) * (self.height as nat)
    }

    /// Bytes per frame, computed without overflow.
    pub fn byte_len(&self) -> (n: u64)
        ensures
            n as nat == self.frame_bytes(),
    {
        let p: u64 = self.pitch as u64;
        let h: u64 = self.height as u64;
        assert(p * h <= 0xFFFF_FFFF * 0xFFFF_FFFF) by (nonlinear_arith)
            requires
                p <= 0xFFFF_FFFF,
                h <= 0xFFFF_FFFF,
        ;
        p * h
    }
}

} // verus!
