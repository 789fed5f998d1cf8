//! Frames as a hub hands them to its front ends: a timestamped
//! payload of one of the three media kinds.

use vstd::prelude::*;

verus! {

/// One frame of a relayed stream.
#[derive(Clone, Debug)]
pub enum FrameData {
    /// A video frame.
    Video {
        /// Presentation timestamp.
        timestamp: u32,
        /// The frame's bytes.
        data: Vec<u8>,
    },
    /// An audio frame.
    Audio {
        /// Presentation timestamp.
        timestamp: u32,
        /// The frame's bytes.
        data: Vec<u8>,
    },
    /// A metadata record.
    MetaData {
        /// Presentation timestamp.
        timestamp: u32,
        /// The record's bytes.
        data: Vec<u8>,
    },
}

/// The bytes a frame carries, whatever its kind.
pub open spec fn spec_frame_payload(f: FrameData) -> Seq<u8> {
    match f {
        FrameData::Video { data, .. } => data@,
        FrameData::Audio { data, .. } => data@,
        FrameData::MetaData { data, .. } => data@,
    }
}

/// The timestamp a frame carries, whatever its kind.
pub open spec fn spec_frame_timestamp(f: FrameData) -> u32 {
    match f {
        FrameData::Video { timestamp, .. } => timestamp,
        FrameData::Audio { timestamp, .. } => timestamp,
        FrameData::MetaData { timestamp, .. } => timestamp,
    }
}

/// Takes the bytes out of a frame: what a front end writes to its
/// connection, whatever the frame's kind.
pub fn frame_payload(f: FrameData) -> (r: Vec<u8>)
    ensures
        r@ == spec_frame_payload(f),
{
    match f {
        FrameData::Video { data, .. } => data,
        FrameData::Audio { data, .. } => data,
        FrameData::MetaData { data, .. } => data,
    }
}

} // verus!
