//! The byte layout of the container format: the stream header and the tags.
//!
//! A stream starts with a 13-byte container header (3-byte magic, 1-byte
//! version, 1-byte flags, 4-byte back reference, 4-byte zero trailer).
//! Every tag is an 11-byte header (1-byte kind, 3-byte big-endian payload
//! size, 3-byte timestamp, 3-byte stream id), the payload, and a 4-byte
//! trailer.

use vstd::prelude::*;

verus! {

/// Total length of the container header, trailer included.
pub const CONTAINER_HEADER_LEN: usize = 13;

/// Length of a tag's header.
pub const TAG_HEADER_LEN: usize = 11;

/// Length of a tag's trailer.
pub const TAG_TRAILER_LEN: usize = 4;

/// Header byte announcing an audio tag.
pub const AUDIO_TAG_BYTE: u8 = 8;

/// Header byte announcing a video tag.
pub const VIDEO_TAG_BYTE: u8 = 9;

/// Header byte announcing a script-data (metadata) tag.
pub const SCRIPT_TAG_BYTE: u8 = 18;

/// The kind of a tag, read from the first byte of its header.
#[derive(Clone, Copy, Debug, PartialEq, Eq, Structural)]
pub enum TagKind {
    Audio,
    Video,
    Script,
    Unknown,
}

/// The kind that a tag's first header byte announces.
pub open spec fn kind_of_byte(b: u8) -> TagKind {
    if b == AUDIO_TAG_BYTE {
        TagKind::Audio
    } else if b == VIDEO_TAG_BYTE {
        TagKind::Video
    } else if b == SCRIPT_TAG_BYTE {
        TagKind::Script
    } else {
        TagKind::Unknown
    }
}

/// The kind of the tag whose raw bytes are `t`.
pub open spec fn kind_of_tag(t: Seq<u8>) -> TagKind
    recommends
        t.len() >= 1,
{
    kind_of_byte(t[0])
}

/// The payload size a tag declares: a big-endian 3-byte integer at
/// offsets 1 to 3 of its raw bytes.
pub open spec fn spec_payload_size(t: Seq<u8>) -> int
    recommends
        t.len() >= 4,
{
    (t[1] as int) * 0x10000 + (t[2] as int) * 0x100 + (t[3] as int)
}

/// The whole length of the tag whose raw bytes start `t`: header,
/// declared payload, trailer.
pub open spec fn spec_tag_total_len(t: Seq<u8>) -> int
    recommends
        t.len() >= 4,
{
    TAG_HEADER_LEN + spec_payload_size(t) + TAG_TRAILER_LEN
}

/// Whether the buffer `s` starts with one complete tag.
pub open spec fn has_complete_tag(s: Seq<u8>) -> bool {
    s.len() >= TAG_HEADER_LEN && s.len() >= spec_tag_total_len(s)
}

/// The complete tags at the front of `s`, split at the boundaries their
/// headers declare, each with its header and trailer.
pub open spec fn complete_tags(s: Seq<u8>) -> Seq<Seq<u8>>
    decreases s.len(),
{
    if has_complete_tag(s) {
        seq![s.take(spec_tag_total_len(s))] + complete_tags(s.skip(spec_tag_total_len(s)))
    } else {
        seq![]
    }
}

/// What remains of `s` after its complete tags: a partial tag, or less
/// than a tag header.
pub open spec fn tags_rest(s: Seq<u8>) -> Seq<u8>
    decreases s.len(),
{
    if has_complete_tag(s) {
        tags_rest(s.skip(spec_tag_total_len(s)))
    } else {
        s
    }
}

/// The byte sequences a vector of byte buffers holds, in order.
pub open spec fn raw_outputs(v: Seq<Vec<u8>>) -> Seq<Seq<u8>> {
    v.map_values(|x: Vec<u8>| x@)
}

/// One complete tag, exactly as received.
#[derive(Clone, Debug)]
pub struct Tag {
    /// The kind its header byte announces.
    pub kind: TagKind,
    /// The payload length its header declares.
    pub payload_size: usize,
    /// The raw bytes: header, payload and trailer.
    pub bytes: Vec<u8>,
}

impl Tag {
    /// The `kind` and `payload_size` fields repeat what the raw bytes
    /// say, and the raw bytes are whole.
    pub open spec fn wf(&self) -> bool {
        &&& self.bytes@.len() >= TAG_HEADER_LEN
        &&& self.bytes@.len() == spec_tag_total_len(self.bytes@)
        &&& self.kind == kind_of_tag(self.bytes@)
        &&& self.payload_size == spec_payload_size(self.bytes@)
    }

    /// The raw bytes, as a sequence.
    pub open spec fn raw(&self) -> Seq<u8> {
        self.bytes@
    }
}

/// Whether the raw bytes `t` are a video configuration record: a video
/// tag whose payload opens with the reserved codec id 7 in its low
/// nibble and a zero packet-type byte.
pub open spec fn spec_is_config(t: Seq<u8>) -> bool {
    &&& t.len() >= TAG_HEADER_LEN + 2
    &&& kind_of_tag(t) == TagKind::Video
    &&& t[11] & 0x0f == 7
    &&& t[12] == 0
}

/// Reads the kind a tag's first header byte announces.
pub fn read_kind(b: u8) -> (k: TagKind)
    ensures
        k == kind_of_byte(b),
{
    if b == AUDIO_TAG_BYTE {
        TagKind::Audio
    } else if b == VIDEO_TAG_BYTE {
        TagKind::Video
    } else if b == SCRIPT_TAG_BYTE {
        TagKind::Script
    } else {
        TagKind::Unknown
    }
}

/// Reads the declared payload size from a tag's raw bytes.
pub fn read_payload_size(buf: &Vec<u8>) -> (n: usize)
    requires
        buf@.len() >= 4,
    ensures
        n == spec_payload_size(buf@),
        n <= 0xffffff,
{
    let b1 = buf[1] as usize;
    let b2 = buf[2] as usize;
    let b3 = buf[3] as usize;
    b1 * 0x10000 + b2 * 0x100 + b3
}

impl Tag {
    /// Whether this tag is a video configuration record.
    pub fn is_config(&self) -> (r: bool)
        requires
            self.wf(),
        ensures
            r == spec_is_config(self.bytes@),
    {
        if self.bytes.len() < TAG_HEADER_LEN + 2 {
            return false;
        }
        match self.kind {
            TagKind::Video => self.bytes[11] & 0x0f == 7 && self.bytes[12] == 0,
            _ => false,
        }
    }
}

/// Takes the complete tag at the front of the buffer, if one is there,
/// leaving the bytes after it; otherwise leaves the buffer unchanged.
pub fn take_tag(buf: &mut Vec<u8>) -> (r: Option<Tag>)
    ensures
        match r {
            Some(t) => {
                &&& has_complete_tag(old(buf)@)
                &&& t.wf()
                &&& t.bytes@ == old(buf)@.take(spec_tag_total_len(old(buf)@))
                &&& final(buf)@ == old(buf)@.skip(spec_tag_total_len(old(buf)@))
            },
            None => {
                &&& !has_complete_tag(old(buf)@)
                &&& *final(buf) == *old(buf)
            },
        },
{
    if buf.len() < TAG_HEADER_LEN {
        return None;
    }
    let payload_size = read_payload_size(buf);
    let total = TAG_HEADER_LEN + payload_size + TAG_TRAILER_LEN;
    if buf.len() < total {
        return None;
    }
    let kind = read_kind(buf[0]);
    let mut rest = buf.split_off(total);
    core::mem::swap(buf, &mut rest);
    let tag = Tag { kind, payload_size, bytes: rest };
    proof {
        assert(tag.bytes@ == old(buf)@.take(spec_tag_total_len(old(buf)@)));
        assert(tag.bytes@[0] == old(buf)@[0]);
        assert(tag.bytes@[1] == old(buf)@[1]);
        assert(tag.bytes@[2] == old(buf)@[2]);
        assert(tag.bytes@[3] == old(buf)@[3]);
    }
    Some(tag)
}

} // verus!
