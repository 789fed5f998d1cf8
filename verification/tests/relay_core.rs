use flv_relay::reader::{ReadEvent, TagReader};
use flv_relay::session::run_publish_session;
use flv_relay::tag::{take_tag, Tag, TagKind};

fn container_header(flags: u8) -> Vec<u8> {
    vec![0x46, 0x4c, 0x56, 0x01, flags, 0x00, 0x00, 0x00, 0x09, 0x00, 0x00, 0x00, 0x00]
}

fn tag_bytes(kind: u8, payload: &[u8]) -> Vec<u8> {
    let n = payload.len();
    let mut out = vec![
        kind,
        ((n >> 16) & 0xff) as u8,
        ((n >> 8) & 0xff) as u8,
        (n & 0xff) as u8,
        0,
        0,
        0,
        0,
        0,
        0,
        0,
    ];
    out.extend_from_slice(payload);
    let total = 11 + n as u32;
    out.extend_from_slice(&total.to_be_bytes());
    out
}

fn drain(reader: &mut TagReader) -> (Option<Vec<u8>>, Vec<Tag>, bool) {
    let mut header = None;
    let mut tags = Vec::new();
    let mut corrupt = false;
    loop {
        match reader.poll() {
            ReadEvent::Header(h) => header = Some(h),
            ReadEvent::TagReady(t) => tags.push(t),
            ReadEvent::NeedData => break,
            ReadEvent::Corrupt => {
                corrupt = true;
                break;
            },
        }
    }
    (header, tags, corrupt)
}

#[test]
fn reader_single_feed_yields_header_and_tags() {
    let mut stream = container_header(0x05);
    stream.extend_from_slice(&tag_bytes(8, &[0xaa, 0xbb]));
    stream.extend_from_slice(&tag_bytes(9, &[0x17, 0x01, 0x00]));

    let mut reader = TagReader::new();
    reader.feed(&stream);
    let (header, tags, corrupt) = drain(&mut reader);
    assert!(!corrupt);
    assert_eq!(header.unwrap(), container_header(0x05));
    assert_eq!(tags.len(), 2);
    assert!(matches!(tags[0].kind, TagKind::Audio));
    assert!(matches!(tags[1].kind, TagKind::Video));
    assert_eq!(tags[0].payload_size, 2);
    assert_eq!(tags[1].payload_size, 3);
}

#[test]
fn reader_fragmented_feed_matches_whole_feed() {
    let mut stream = container_header(0x04);
    stream.extend_from_slice(&tag_bytes(9, &[0x17, 0x00, 0x00, 0x01, 0x02]));
    stream.extend_from_slice(&tag_bytes(18, &[0x02, 0x00, 0x0a]));
    stream.extend_from_slice(&tag_bytes(9, &[0x27, 0x01]));

    let mut whole = TagReader::new();
    whole.feed(&stream);
    let (wh, wt, wc) = drain(&mut whole);

    // Feed the same bytes one at a time, draining between chunks.
    let mut pieces = TagReader::new();
    let mut ph = None;
    let mut pt: Vec<Tag> = Vec::new();
    for b in stream.iter() {
        pieces.feed(&[*b]);
        let (h, mut t, c) = drain(&mut pieces);
        assert!(!c);
        if h.is_some() {
            ph = h;
        }
        pt.append(&mut t);
    }
    assert!(!wc);
    assert_eq!(wh, ph);
    assert_eq!(wt.len(), pt.len());
    for (a, b) in wt.iter().zip(pt.iter()) {
        assert_eq!(a.bytes, b.bytes);
    }
}

#[test]
fn reader_rejects_bad_magic() {
    let mut reader = TagReader::new();
    reader.feed(&[0x00; 16]);
    let (_, _, corrupt) = drain(&mut reader);
    assert!(corrupt);
    // Once corrupt, always corrupt.
    reader.feed(&container_header(0x05));
    assert!(matches!(reader.poll(), ReadEvent::Corrupt));
}

#[test]
fn reader_waits_for_more_data() {
    let mut reader = TagReader::new();
    reader.feed(&[0x46, 0x4c, 0x56, 0x01]);
    assert!(matches!(reader.poll(), ReadEvent::NeedData));
}

#[test]
fn reader_keeps_partial_tag_bytes() {
    let mut stream = container_header(0x04);
    let tag = tag_bytes(9, &[0x17, 0x00]);
    stream.extend_from_slice(&tag[..tag.len() - 3]);
    let mut reader = TagReader::new();
    reader.feed(&stream);
    let (h, tags, corrupt) = drain(&mut reader);
    assert!(h.is_some());
    assert!(tags.is_empty());
    assert!(!corrupt);
    assert_eq!(reader.buffered_len(), tag.len() - 3);
    // The rest of the tag completes it.
    reader.feed(&tag[tag.len() - 3..]);
    let (_, tags2, _) = drain(&mut reader);
    assert_eq!(tags2.len(), 1);
    assert_eq!(tags2[0].bytes, tag);
}

#[test]
fn take_tag_splits_at_declared_boundary() {
    let mut buf = tag_bytes(18, &[1, 2, 3]);
    buf.extend_from_slice(&[9, 9, 9]);
    let got = take_tag(&mut buf).unwrap();
    assert_eq!(got.bytes, tag_bytes(18, &[1, 2, 3]));
    assert_eq!(buf, vec![9, 9, 9]);
    assert!(take_tag(&mut buf).is_none());
}

// A publisher sends a header claiming audio and video, one audio tag,
// one video configuration record, one video data tag.  Subscribers see
// the header with the audio flag cleared, then the configuration
// record, then the data tag; the audio tag is gone.
#[test]
fn session_filters_audio_and_rewrites_flags() {
    let audio = tag_bytes(8, &[0xaf, 0x01]);
    let config = tag_bytes(9, &[0x17, 0x00, 0x00, 0x00, 0x00, 0x01, 0x64]);
    let data = tag_bytes(9, &[0x27, 0x01, 0x00, 0x00, 0x00]);

    let mut input = container_header(0x05);
    input.extend_from_slice(&audio);
    input.extend_from_slice(&config);
    input.extend_from_slice(&data);

    let out = run_publish_session(&input).unwrap();
    assert_eq!(out.outputs.len(), 3);
    assert_eq!(out.outputs[0], container_header(0x04));
    assert_eq!(out.outputs[1], config);
    assert_eq!(out.outputs[2], data);
    assert_eq!(out.leftover, 0);
    assert_eq!(out.state.header.as_ref().unwrap(), &container_header(0x04));
    assert_eq!(out.state.config.as_ref().unwrap().bytes, config);
}

#[test]
fn session_clears_video_flag_without_video() {
    let audio = tag_bytes(8, &[0xaf]);
    let meta = tag_bytes(18, &[0x02]);
    let mut input = container_header(0x05);
    input.extend_from_slice(&audio);
    input.extend_from_slice(&meta);

    let out = run_publish_session(&input).unwrap();
    // Audio flag cleared by policy, video flag clear because no video
    // tag is coming.
    assert_eq!(out.outputs[0], container_header(0x00));
    assert_eq!(out.outputs.len(), 2);
    assert_eq!(out.outputs[1], meta);
    assert!(out.state.config.is_none());
}

#[test]
fn session_latest_config_wins() {
    let cfg1 = tag_bytes(9, &[0x17, 0x00, 0x01]);
    let cfg2 = tag_bytes(9, &[0x17, 0x00, 0x02]);
    let mut input = container_header(0x05);
    input.extend_from_slice(&cfg1);
    input.extend_from_slice(&cfg2);

    let out = run_publish_session(&input).unwrap();
    assert_eq!(out.state.config.as_ref().unwrap().bytes, cfg2);
}

#[test]
fn session_short_input_is_not_an_error() {
    let input = vec![0x46, 0x4c, 0x56];
    let out = run_publish_session(&input).unwrap();
    assert!(out.outputs.is_empty());
    assert!(out.state.header.is_none());
    assert_eq!(out.leftover, 3);
}

#[test]
fn session_bad_magic_is_a_protocol_error() {
    let input = vec![0u8; 20];
    let err = match run_publish_session(&input) {
        Err(e) => e,
        Ok(_) => panic!("a bad magic marker must be rejected"),
    };
    assert!(matches!(err, flv_relay::error::Error::Protocol(_)));
}

// A publisher that disconnects mid-tag: the partial bytes are retained
// by the reader, counted as leftover, and never forwarded.
#[test]
fn session_discards_trailing_partial_tag() {
    let data = tag_bytes(9, &[0x27, 0x01]);
    let partial = tag_bytes(9, &[0x27, 0x02, 0x03]);
    let mut input = container_header(0x05);
    input.extend_from_slice(&data);
    input.extend_from_slice(&partial[..7]);

    let out = run_publish_session(&input).unwrap();
    assert_eq!(out.outputs.len(), 2);
    assert_eq!(out.outputs[1], data);
    assert_eq!(out.leftover, 7);
}

#[test]
fn config_detection_needs_reserved_codec_and_zero_packet_type() {
    let config = Tag {
        kind: TagKind::Video,
        payload_size: 2,
        bytes: tag_bytes(9, &[0x17, 0x00]),
    };
    assert!(config.is_config());
    let frame = Tag {
        kind: TagKind::Video,
        payload_size: 2,
        bytes: tag_bytes(9, &[0x17, 0x01]),
    };
    assert!(!frame.is_config());
    let other_codec = Tag {
        kind: TagKind::Video,
        payload_size: 2,
        bytes: tag_bytes(9, &[0x12, 0x00]),
    };
    assert!(!other_codec.is_config());
}
