//! RTMP protocol definitions and utilities: message types, chunk
//! headers, commands, and the fixed sizes around them.

use vstd::prelude::*;
use vstd::string::{StrSliceExecFns, StringSliceAdditionalSpecFns};

use crate::error::Error;

verus! {

/// RTMP protocol version.
pub const RTMP_VERSION: u8 = 3;

/// RTMP handshake size.
pub const HANDSHAKE_SIZE: usize = 1536;

/// Default chunk size.
pub const DEFAULT_CHUNK_SIZE: u32 = 128;

/// Default window acknowledgement size.
pub const DEFAULT_WINDOW_ACK_SIZE: u32 = 2500000;

/// Default peer bandwidth.
pub const DEFAULT_PEER_BANDWIDTH: u32 = 2500000;

/// Bandwidth limit type: hard.
pub const BANDWIDTH_LIMIT_HARD: u8 = 0;

/// Bandwidth limit type: soft.
pub const BANDWIDTH_LIMIT_SOFT: u8 = 1;

/// Bandwidth limit type: dynamic.
pub const BANDWIDTH_LIMIT_DYNAMIC: u8 = 2;

/// RTMP message types.
#[derive(Debug, Clone, Copy, PartialEq, Eq, Structural)]
pub enum MessageType {
    /// Set chunk size.
    SetChunkSize,
    /// Abort message.
    AbortMessage,
    /// Acknowledgement.
    Acknowledgement,
    /// User control message.
    UserControl,
    /// Window acknowledgement size.
    WindowAcknowledgementSize,
    /// Set peer bandwidth.
    SetPeerBandwidth,
    /// Audio data.
    Audio,
    /// Video data.
    Video,
    /// Data message (AMF3).
    DataAmf3,
    /// Shared object message (AMF3).
    SharedObjectAmf3,
    /// Command message (AMF3).
    CommandAmf3,
    /// Data message (AMF0).
    DataAmf0,
    /// Shared object message (AMF0).
    SharedObjectAmf0,
    /// Command message (AMF0).
    CommandAmf0,
    /// Aggregate message.
    Aggregate,
}

/// The message type a wire byte denotes, if any.
pub open spec fn spec_message_type(value: u8) -> Option<MessageType> {
    match value {
        1u8 => Some(MessageType::SetChunkSize),
        2u8 => Some(MessageType::AbortMessage),
        3u8 => Some(MessageType::Acknowledgement),
        4u8 => Some(MessageType::UserControl),
        5u8 => Some(MessageType::WindowAcknowledgementSize),
        6u8 => Some(MessageType::SetPeerBandwidth),
        8u8 => Some(MessageType::Audio),
        9u8 => Some(MessageType::Video),
        15u8 => Some(MessageType::DataAmf3),
        16u8 => Some(MessageType::SharedObjectAmf3),
        17u8 => Some(MessageType::CommandAmf3),
        18u8 => Some(MessageType::DataAmf0),
        19u8 => Some(MessageType::SharedObjectAmf0),
        20u8 => Some(MessageType::CommandAmf0),
        22u8 => Some(MessageType::Aggregate),
        _ => None,
    }
}

impl MessageType {
    /// Reads a message type from its wire byte; a byte that denotes
    /// none is a protocol error, exactly then.
    pub fn try_from(value: u8) -> (r: Result<MessageType, Error>)
        ensures
            match spec_message_type(value) {
                Some(t) => r == Ok::<MessageType, Error>(t),
                None => r matches Err(e) && e.is_protocol(),
            },
    {
        match value {
            1u8 => Ok(MessageType::SetChunkSize),
            2u8 => Ok(MessageType::AbortMessage),
            3u8 => Ok(MessageType::Acknowledgement),
            4u8 => Ok(MessageType::UserControl),
            5u8 => Ok(MessageType::WindowAcknowledgementSize),
            6u8 => Ok(MessageType::SetPeerBandwidth),
            8u8 => Ok(MessageType::Audio),
            9u8 => Ok(MessageType::Video),
            15u8 => Ok(MessageType::DataAmf3),
            16u8 => Ok(MessageType::SharedObjectAmf3),
            17u8 => Ok(MessageType::CommandAmf3),
            18u8 => Ok(MessageType::DataAmf0),
            19u8 => Ok(MessageType::SharedObjectAmf0),
            20u8 => Ok(MessageType::CommandAmf0),
            22u8 => Ok(MessageType::Aggregate),
            _ => Err(Error::Protocol(String::from_str("invalid message type"))),
        }
    }
}

/// RTMP chunk header formats.
#[derive(Debug, Clone, Copy, PartialEq, Eq, Structural)]
pub enum ChunkHeaderFormat {
    /// 11 bytes: timestamp (3), message length (3), message type (1),
    /// stream id (4).
    Format0,
    /// 7 bytes: timestamp delta (3), message length (3), message type
    /// (1).
    Format1,
    /// 3 bytes: timestamp delta (3).
    Format2,
    /// 0 bytes: the previous header is reused.
    Format3,
}

/// RTMP chunk header.
#[derive(Debug, Clone)]
pub struct ChunkHeader {
    /// Basic header format.
    pub format: ChunkHeaderFormat,
    /// Chunk stream id.
    pub chunk_stream_id: u32,
    /// Timestamp or timestamp delta.
    pub timestamp: u32,
    /// Message length.
    pub message_length: u32,
    /// Message type.
    pub message_type: MessageType,
    /// Message stream id.
    pub message_stream_id: u32,
    /// Extended timestamp, present once the 24-bit field saturates.
    pub extended_timestamp: Option<u32>,
}

impl ChunkHeader {
    /// A chunk header with the given fields and no extended timestamp.
    pub fn new(
        format: ChunkHeaderFormat,
        chunk_stream_id: u32,
        timestamp: u32,
        message_length: u32,
        message_type: MessageType,
        message_stream_id: u32,
    ) -> (r: ChunkHeader)
        ensures
            r.format == format,
            r.chunk_stream_id == chunk_stream_id,
            r.timestamp == timestamp,
            r.message_length == message_length,
            r.message_type == message_type,
            r.message_stream_id == message_stream_id,
            r.extended_timestamp == Option::<u32>::None,
    {
        ChunkHeader {
            format,
            chunk_stream_id,
            timestamp,
            message_length,
            message_type,
            message_stream_id,
            extended_timestamp: None,
        }
    }
}

/// RTMP message.
#[derive(Debug, Clone)]
pub struct Message {
    /// Message type.
    pub message_type: MessageType,
    /// Message stream id.
    pub message_stream_id: u32,
    /// Timestamp.
    pub timestamp: u32,
    /// Payload.
    pub payload: Vec<u8>,
}

impl Message {
    /// A message with the given fields.
    pub fn new(
        message_type: MessageType,
        message_stream_id: u32,
        timestamp: u32,
        payload: Vec<u8>,
    ) -> (r: Message)
        ensures
            r.message_type == message_type,
            r.message_stream_id == message_stream_id,
            r.timestamp == timestamp,
            r.payload@ == payload@,
    {
        Message { message_type, message_stream_id, timestamp, payload }
    }
}

/// RTMP command types.
#[derive(Debug, Clone, PartialEq, Eq, Structural)]
pub enum CommandType {
    /// Connect command.
    Connect,
    /// Call command.
    Call,
    /// Create stream command.
    CreateStream,
    /// Play command.
    Play,
    /// Publish command.
    Publish,
    /// Seek command.
    Seek,
    /// Pause command.
    Pause,
    /// Close stream command.
    CloseStream,
    /// Delete stream command.
    DeleteStream,
    /// Receive audio command.
    ReceiveAudio,
    /// Receive video command.
    ReceiveVideo,
    /// Release stream command.
    ReleaseStream,
    /// FCPublish command.
    FCPublish,
    /// FCUnpublish command.
    FCUnpublish,
    /// Get stream length command.
    GetStreamLength,
}

/// The command a name's bytes denote.  A name nobody knows is read,
/// leniently, as a connect command.
pub open spec fn spec_command_of(b: Seq<u8>) -> CommandType {
    if b == "connect".spec_bytes() {
        CommandType::Connect
    } else if b == "call".spec_bytes() {
        CommandType::Call
    } else if b == "createStream".spec_bytes() {
        CommandType::CreateStream
    } else if b == "play".spec_bytes() {
        CommandType::Play
    } else if b == "publish".spec_bytes() {
        CommandType::Publish
    } else if b == "seek".spec_bytes() {
        CommandType::Seek
    } else if b == "pause".spec_bytes() {
        CommandType::Pause
    } else if b == "closeStream".spec_bytes() {
        CommandType::CloseStream
    } else if b == "deleteStream".spec_bytes() {
        CommandType::DeleteStream
    } else if b == "receiveAudio".spec_bytes() {
        CommandType::ReceiveAudio
    } else if b == "receiveVideo".spec_bytes() {
        CommandType::ReceiveVideo
    } else if b == "releaseStream".spec_bytes() {
        CommandType::ReleaseStream
    } else if b == "FCPublish".spec_bytes() {
        CommandType::FCPublish
    } else if b == "FCUnpublish".spec_bytes() {
        CommandType::FCUnpublish
    } else if b == "getStreamLength".spec_bytes() {
        CommandType::GetStreamLength
    } else {
        CommandType::Connect
    }
}

impl CommandType {
    /// Reads a command from its name.  An unrecognized name falls
    /// back, leniently, to the connect command.
    pub fn from(s: &str) -> (r: CommandType)
        ensures
            r == spec_command_of(s.spec_bytes()),
    {
        let b = s.as_bytes_vec();
        if bytes_match(&b, "connect".as_bytes_vec()) {
            CommandType::Connect
        } else if bytes_match(&b, "call".as_bytes_vec()) {
            CommandType::Call
        } else if bytes_match(&b, "createStream".as_bytes_vec()) {
            CommandType::CreateStream
        } else if bytes_match(&b, "play".as_bytes_vec()) {
            CommandType::Play
        } else if bytes_match(&b, "publish".as_bytes_vec()) {
            CommandType::Publish
        } else if bytes_match(&b, "seek".as_bytes_vec()) {
            CommandType::Seek
        } else if bytes_match(&b, "pause".as_bytes_vec()) {
            CommandType::Pause
        } else if bytes_match(&b, "closeStream".as_bytes_vec()) {
            CommandType::CloseStream
        } else if bytes_match(&b, "deleteStream".as_bytes_vec()) {
            CommandType::DeleteStream
        } else if bytes_match(&b, "receiveAudio".as_bytes_vec()) {
            CommandType::ReceiveAudio
        } else if bytes_match(&b, "receiveVideo".as_bytes_vec()) {
            CommandType::ReceiveVideo
        } else if bytes_match(&b, "releaseStream".as_bytes_vec()) {
            CommandType::ReleaseStream
        } else if bytes_match(&b, "FCPublish".as_bytes_vec()) {
            CommandType::FCPublish
        } else if bytes_match(&b, "FCUnpublish".as_bytes_vec()) {
            CommandType::FCUnpublish
        } else if bytes_match(&b, "getStreamLength".as_bytes_vec()) {
            CommandType::GetStreamLength
        } else {
            CommandType::Connect
        }
    }
}

/// Compares two byte strings for equality.
fn bytes_match(a: &Vec<u8>, b: Vec<u8>) -> (r: bool)
    ensures
        r == (a@ == b@),
{
    if a.len() != b.len() {
        proof {
            assert(a@.len() != b@.len());
        }
        return false;
    }
    let n = a.len();
    let mut i: usize = 0;
    while i < n
        invariant
            n == a@.len() == b@.len(),
            i <= n,
            forall|j: int| 0 <= j < i ==> a@[j] == b@[j],
        decreases n - i,
    {
        if a[i] != b[i] {
            return false;
        }
        i = i + 1;
    }
    proof {
        assert(a@ =~= b@);
    }
    true
}

/// One parsed 11-byte RTMP message header: the chunk kind bits, the
/// three-byte big-endian timestamp and body length, the type byte, and
/// the three-byte little-endian stream id.
#[derive(Debug, Clone, Copy, PartialEq, Eq, Structural)]
pub struct MessageHeader {
    /// The low two bits of the first byte.
    pub chunk_type: u8,
    /// Timestamp, three bytes big-endian.
    pub timestamp: u32,
    /// Declared body length, three bytes big-endian.
    pub body_length: u32,
    /// Message type byte, as received.
    pub message_type_id: u8,
    /// Message stream id, three bytes little-endian.
    pub message_stream_id: u32,
}

/// Parses the fixed 11-byte message header a client sends before each
/// message body.
pub fn parse_message_header(h: &Vec<u8>) -> (r: MessageHeader)
    requires
        h@.len() >= 11,
    ensures
        r.chunk_type == h@[0] & 0x03,
        r.timestamp == (h@[1] as int) * 0x10000 + (h@[2] as int) * 0x100 + (h@[3] as int),
        r.body_length == (h@[4] as int) * 0x10000 + (h@[5] as int) * 0x100 + (h@[6] as int),
        r.message_type_id == h@[7],
        r.message_stream_id == (h@[10] as int) * 0x10000 + (h@[9] as int) * 0x100 + (h@[8] as int),
{
    let chunk_type = h[0] & 0x03;
    let timestamp = (h[1] as u32) * 0x10000 + (h[2] as u32) * 0x100 + (h[3] as u32);
    let body_length = (h[4] as u32) * 0x10000 + (h[5] as u32) * 0x100 + (h[6] as u32);
    let message_type_id = h[7];
    let message_stream_id = (h[10] as u32) * 0x10000 + (h[9] as u32) * 0x100 + (h[8] as u32);
    MessageHeader { chunk_type, timestamp, body_length, message_type_id, message_stream_id }
}

/// Calculates the chunk header size for a format.
pub fn chunk_header_size(format: &ChunkHeaderFormat) -> (n: usize)
    ensures
        n == match format {
            ChunkHeaderFormat::Format0 => 11usize,
            ChunkHeaderFormat::Format1 => 7usize,
            ChunkHeaderFormat::Format2 => 3usize,
            ChunkHeaderFormat::Format3 => 0usize,
        },
{
    match format {
        ChunkHeaderFormat::Format0 => 11,
        ChunkHeaderFormat::Format1 => 7,
        ChunkHeaderFormat::Format2 => 3,
        ChunkHeaderFormat::Format3 => 0,
    }
}

/// Whether a timestamp needs the extended field: the 24-bit one
/// saturates at `0xFFFFFF`.
pub fn needs_extended_timestamp(timestamp: u32) -> (r: bool)
    ensures
        r == (timestamp >= 0xFFFFFF),
{
    timestamp >= 0xFFFFFF
}

} // verus!
