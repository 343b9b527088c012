//! The frame sink: the one point through which captured frames pass from
//! an agent to the encoder.
//!
//! The sink itself never touches the encoder. It decides whether a frame
//! may pass and remembers the last sequence index it let through; the
//! caller hands such a frame to the encoder before it submits the
//! next one.

use crate::frame::{FrameView, VideoFrameEnvelope};
use crate::source::VideoSource;
use vstd::prelude::*;

verus! {

/// Why a frame was turned away.
#[derive(Clone, Copy, Debug, PartialEq, Eq, Structural)]
pub enum SinkError {
    /// The session has not finished negotiating.
    SessionNotActive,
    /// The session has stopped.
    SessionStopped,
    /// The frame's layout is not the negotiated one, or its buffer is too
    /// short for it.
    MalformedFrame,
    /// The frame's index does not exceed that of the frame before it.
    OutOfOrder,
}

/// State of a sink: the surface it was opened for, and the index of the
/// last frame it let through.
pub struct SinkModel {
    pub source: Option<VideoSource>,
    pub last_index: Option<u64>,
}

impl SinkModel {
    pub open spec fn closed() -> SinkModel {
        SinkModel { source: None, last_index: None }
    }

    pub open spec fn open(self, source: VideoSource) -> SinkModel {
        SinkModel { source: Some(source), ..self }
    }

    /// The frame's index exceeds that of every frame let through so far.
    pub open spec fn in_order(self, frame: FrameView) -> bool {
        match self.last_index {
            Some(last) => last < frame.index,
            None => true,
        }
    }

    /// The verdict on a frame.
    pub open spec fn verdict(self, frame: FrameView) -> Result<(), SinkError> {
        match self.source {
            None => Err(SinkError::SessionNotActive),
            Some(source) => if !frame.well_formed_for(source) {
                Err(SinkError::MalformedFrame)
            } else if !self.in_order(frame) {
                Err(SinkError::OutOfOrder)
            } else {
                Ok(())
            },
        }
    }

    /// The sink after `frame` was offered to it.
    pub open spec fn offer(self, frame: FrameView) -> SinkModel {
        if self.verdict(frame).is_ok() {
            SinkModel { last_index: Some(frame.index), ..self }
        } else {
            self
        }
    }
}

/// The receiving end for the frames of one session.
#[derive(Clone, Copy, Debug)]
pub struct FrameSink {
    source: Option<VideoSource>,
    last_index: Option<u64>,
}

impl View for FrameSink {
    type V = SinkModel;

    closed spec fn view(&self) -> SinkModel {
        SinkModel { source: self.source, last_index: self.last_index }
    }
}

impl FrameSink {
    /// A sink that lets nothing through yet.
    pub fn new() -> (s: FrameSink)
        ensures
            s@ == SinkModel::closed(),
    {
        FrameSink { source: None, last_index: None }
    }

    /// Opens the sink for frames captured from `source`.
    pub fn open(&mut self, source: VideoSource)
        ensures
            final(self)@ == old(self)@.open(source),
    {
        self.source = Some(source);
    }

    /// Index of the last frame let through.
    pub fn last_index(&self) -> (i: Option<u64>)
        ensures
            i == self@.last_index,
    {
        self.last_index
    }

    /// The surface the sink was opened for.
    pub fn source(&self) -> (s: Option<VideoSource>)
        ensures
            s == self@.source,
    {
        self.source
    }

    /// Decides on a frame. A frame let through becomes the last one seen; a
    /// frame turned away leaves the sink as it was.
    pub fn offer(&mut self, frame: &VideoFrameEnvelope) -> (r: Result<(), SinkError>)
        ensures
            r == old(self)@.verdict(frame@),
            final(self)@ == old(self)@.offer(frame@),
    {
        match self.source {
            None => Err(SinkError::SessionNotActive),
            Some(source) => {
                if !frame.layout.fits(&source, frame.data.len()) {
                    return Err(SinkError::MalformedFrame);
                }
                match self.last_index {
                    Some(last) => {
                        if frame.index <= last {
                            return Err(SinkError::OutOfOrder);
                        }
                    },
                    None => {},
                }
                self.last_index = Some(frame.index);
                Ok(())
            },
        }
    }
}

} // verus!
