use flv_relay::capture::{capture_args, shot_output_path, shot_output_path_stamped};
use flv_relay::config::{ServerConfig, DEFAULT_RTMP_PORT, MAX_CONNECTIONS, MAX_STREAM_BUFFER_SIZE};
use flv_relay::error::Error;
use flv_relay::frame::{frame_payload, FrameData};
use flv_relay::live::live_url_from_reply;
use flv_relay::protocol::{
    chunk_header_size, needs_extended_timestamp, parse_message_header, ChunkHeader,
    ChunkHeaderFormat, CommandType, Message, MessageType,
};
use flv_relay::rtsp::{camera_line_url, collect_camera_urls, collect_plain_urls, plain_line_url};
use flv_relay::stream::{StreamData, StreamManager};
use flv_relay::util::{flag_bits, hex_preview, starts_with_bytes};

#[test]
fn message_type_try_from_known_bytes() {
    assert_eq!(MessageType::try_from(1).unwrap(), MessageType::SetChunkSize);
    assert_eq!(MessageType::try_from(8).unwrap(), MessageType::Audio);
    assert_eq!(MessageType::try_from(9).unwrap(), MessageType::Video);
    assert_eq!(MessageType::try_from(20).unwrap(), MessageType::CommandAmf0);
    assert_eq!(MessageType::try_from(22).unwrap(), MessageType::Aggregate);
}

#[test]
fn message_type_try_from_rejects_unknown() {
    let err = MessageType::try_from(7).unwrap_err();
    assert!(matches!(err, Error::Protocol(_)));
    assert!(MessageType::try_from(0).is_err());
    assert!(MessageType::try_from(23).is_err());
}

#[test]
fn chunk_header_new_sets_fields() {
    let h = ChunkHeader::new(ChunkHeaderFormat::Format0, 3, 1000, 512, MessageType::Video, 1);
    assert_eq!(h.chunk_stream_id, 3);
    assert_eq!(h.timestamp, 1000);
    assert_eq!(h.message_length, 512);
    assert_eq!(h.message_type, MessageType::Video);
    assert_eq!(h.message_stream_id, 1);
    assert!(h.extended_timestamp.is_none());
}

#[test]
fn message_new_keeps_payload() {
    let m = Message::new(MessageType::Audio, 1, 42, vec![1, 2, 3]);
    assert_eq!(m.message_type, MessageType::Audio);
    assert_eq!(m.message_stream_id, 1);
    assert_eq!(m.timestamp, 42);
    assert_eq!(m.payload, vec![1, 2, 3]);
}

#[test]
fn chunk_header_sizes_by_format() {
    assert_eq!(chunk_header_size(&ChunkHeaderFormat::Format0), 11);
    assert_eq!(chunk_header_size(&ChunkHeaderFormat::Format1), 7);
    assert_eq!(chunk_header_size(&ChunkHeaderFormat::Format2), 3);
    assert_eq!(chunk_header_size(&ChunkHeaderFormat::Format3), 0);
}

#[test]
fn extended_timestamp_threshold() {
    assert!(!needs_extended_timestamp(0xFFFFFE));
    assert!(needs_extended_timestamp(0xFFFFFF));
    assert!(needs_extended_timestamp(0x01000000));
}

#[test]
fn command_type_from_names() {
    assert_eq!(CommandType::from("connect"), CommandType::Connect);
    assert_eq!(CommandType::from("createStream"), CommandType::CreateStream);
    assert_eq!(CommandType::from("play"), CommandType::Play);
    assert_eq!(CommandType::from("publish"), CommandType::Publish);
    assert_eq!(CommandType::from("FCPublish"), CommandType::FCPublish);
    assert_eq!(CommandType::from("getStreamLength"), CommandType::GetStreamLength);
}

#[test]
fn command_type_unknown_name_is_lenient() {
    assert_eq!(CommandType::from("no-such-command"), CommandType::Connect);
    assert_eq!(CommandType::from(""), CommandType::Connect);
}

#[test]
fn message_header_fields_are_exact() {
    let h = vec![0x07, 0x00, 0x01, 0x02, 0x00, 0x00, 0x05, 0x09, 0x01, 0x00, 0x00];
    let parsed = parse_message_header(&h);
    assert_eq!(parsed.chunk_type, 0x03);
    assert_eq!(parsed.timestamp, 0x0102);
    assert_eq!(parsed.body_length, 5);
    assert_eq!(parsed.message_type_id, 9);
    assert_eq!(parsed.message_stream_id, 1);
}

#[test]
fn hex_preview_formats_and_caps() {
    assert_eq!(hex_preview(&[0x00, 0xff, 0x1a], 16), "00 ff 1a");
    assert_eq!(hex_preview(&[0x46, 0x4c, 0x56, 0x01], 2), "46 4c");
    assert_eq!(hex_preview(&[], 4), "");
}

#[test]
fn flag_bits_renders_each_bit() {
    assert_eq!(flag_bits(0x05), "A-V");
    assert_eq!(flag_bits(0x04), "--V");
    assert_eq!(flag_bits(0x01), "A--");
    assert_eq!(flag_bits(0x02), "-R-");
    assert_eq!(flag_bits(0x00), "---");
    assert_eq!(flag_bits(0x07), "ARV");
}

#[test]
fn byte_prefix_check() {
    assert!(starts_with_bytes(b"GET / HTTP/1.1\r\nHost: x", b"GET / HTTP/1.1\r\n"));
    assert!(!starts_with_bytes(b"POST / HTTP/1.1\r\n", b"GET / HTTP/1.1\r\n"));
    assert!(!starts_with_bytes(b"GET", b"GET / HTTP/1.1\r\n"));
    assert!(starts_with_bytes(b"anything", b""));
}

#[test]
fn stream_data_activity_window() {
    let mut d = StreamData::new(String::from("cam"), 1000);
    assert_eq!(d.created_at, 1000);
    assert!(d.is_active(1000, 500));
    assert!(d.is_active(1499, 500));
    assert!(!d.is_active(1500, 500));
    d.update_activity(2000);
    assert!(d.is_active(2400, 500));
    // A clock that went backwards counts as inactive.
    assert!(!d.is_active(1999, 500));
}

#[test]
fn stream_manager_create_and_duplicate() {
    let mut m = StreamManager::new();
    assert!(m.create_stream(String::from("a"), 0).is_ok());
    let err = m.create_stream(String::from("a"), 1).unwrap_err();
    assert!(matches!(err, Error::Stream(_)));
    assert!(m.create_stream(String::from("b"), 2).is_ok());
    let names = m.list_streams();
    assert_eq!(names, vec![String::from("a"), String::from("b")]);
}

#[test]
fn stream_manager_subscribe_and_count() {
    let mut m = StreamManager::new();
    m.create_stream(String::from("a"), 0).unwrap();
    m.subscribe(&String::from("a"), String::from("s1"), 1).unwrap();
    m.subscribe(&String::from("a"), String::from("s2"), 2).unwrap();
    let s = m.get_stream(&String::from("a")).unwrap();
    assert_eq!(s.subscriber_count(), 2);
    m.unsubscribe(&String::from("a"), &String::from("s1"), 3).unwrap();
    let s = m.get_stream(&String::from("a")).unwrap();
    assert_eq!(s.subscriber_count(), 1);
    let err = m.subscribe(&String::from("nope"), String::from("x"), 4).unwrap_err();
    assert!(matches!(err, Error::Stream(_)));
}

#[test]
fn stream_manager_remove_and_publish() {
    let mut m = StreamManager::new();
    m.create_stream(String::from("a"), 0).unwrap();
    assert!(m.publish(&String::from("a"), &vec![1, 2], 5).is_ok());
    assert!(m.publish(&String::from("zz"), &vec![1], 5).is_err());
    assert!(m.remove_stream(&String::from("a")).is_ok());
    assert!(m.remove_stream(&String::from("a")).is_err());
    assert!(m.get_stream(&String::from("a")).is_none());
}

#[test]
fn stream_manager_cleanup_removes_stale() {
    let mut m = StreamManager::new();
    m.create_stream(String::from("fresh"), 1_000_000).unwrap();
    m.create_stream(String::from("stale"), 0).unwrap();
    // Five minutes is 300000 ms: "stale" is far out of the window.
    let removed = m.cleanup_inactive(1_000_100);
    assert_eq!(removed, 1);
    assert!(m.get_stream(&String::from("fresh")).is_some());
    assert!(m.get_stream(&String::from("stale")).is_none());
}

#[test]
fn server_config_defaults() {
    let c = ServerConfig::default();
    assert_eq!(c.address, "0.0.0.0:1935");
    assert_eq!(c.max_connections, MAX_CONNECTIONS);
    assert_eq!(c.stream_buffer_size, MAX_STREAM_BUFFER_SIZE);
    assert!(c.enable_logging);
    assert_eq!(DEFAULT_RTMP_PORT, 1935);
    assert_eq!(MAX_STREAM_BUFFER_SIZE, 10 * 1024 * 1024);
}

#[test]
fn error_from_string_and_message() {
    let e = Error::from(String::from("boom"));
    assert!(matches!(e, Error::Internal(_)));
    assert_eq!(e.message().as_str(), "boom");
    let p = Error::Protocol(String::from("bad magic"));
    assert_eq!(p.message().as_str(), "bad magic");
}

#[test]
fn frame_payload_by_kind() {
    let v = FrameData::Video { timestamp: 1, data: vec![1, 2] };
    let a = FrameData::Audio { timestamp: 2, data: vec![3] };
    let m = FrameData::MetaData { timestamp: 3, data: vec![] };
    assert_eq!(frame_payload(v), vec![1, 2]);
    assert_eq!(frame_payload(a), vec![3]);
    assert_eq!(frame_payload(m), Vec::<u8>::new());
}

#[test]
fn capture_argument_list_is_exact() {
    let args = capture_args(&String::from("rtsp://cam/1"), &String::from("img/rtsp_1.jpg"));
    let expect = vec![
        "-y",
        "-rtsp_transport",
        "tcp",
        "-i",
        "rtsp://cam/1",
        "-vframes",
        "1",
        "-q:v",
        "2",
        "img/rtsp_1.jpg",
    ];
    let got: Vec<&str> = args.iter().map(|s| s.as_str()).collect();
    assert_eq!(got, expect);
}

#[test]
fn shot_paths_are_numbered_and_stamped() {
    assert_eq!(shot_output_path(1), "img/rtsp_1.jpg");
    assert_eq!(shot_output_path(12), "img/rtsp_12.jpg");
    assert_eq!(shot_output_path(105), "img/rtsp_105.jpg");
    assert_eq!(
        shot_output_path_stamped(3, &String::from("250909_120101")),
        "img/rtsp_3_250909_120101.jpg"
    );
}

#[test]
fn camera_lines_split_and_trim() {
    assert_eq!(
        camera_line_url(&b"49325491131253683,rtsp://cam/1 \r".to_vec()),
        Some(b"rtsp://cam/1".to_vec())
    );
    assert_eq!(camera_line_url(&b"id-only-no-comma".to_vec()), None);
    assert_eq!(camera_line_url(&b"id,   ".to_vec()), None);
    assert_eq!(plain_line_url(&b"  rtsp://cam/2\t".to_vec()), Some(b"rtsp://cam/2".to_vec()));
    assert_eq!(plain_line_url(&b"   ".to_vec()), None);
}

#[test]
fn url_collection_deduplicates() {
    let lines = vec![
        b"a,rtsp://cam/1".to_vec(),
        b"b,rtsp://cam/2".to_vec(),
        b"c,rtsp://cam/1".to_vec(),
        b"broken line".to_vec(),
    ];
    let urls = collect_camera_urls(&lines);
    assert_eq!(urls, vec![b"rtsp://cam/1".to_vec(), b"rtsp://cam/2".to_vec()]);

    let plain = vec![
        b"rtsp://cam/1".to_vec(),
        b" rtsp://cam/1 ".to_vec(),
        b"".to_vec(),
        b"rtsp://cam/3".to_vec(),
    ];
    let urls = collect_plain_urls(&plain);
    assert_eq!(urls, vec![b"rtsp://cam/1".to_vec(), b"rtsp://cam/3".to_vec()]);
}

#[test]
fn live_reply_needs_code_200_and_url() {
    let ok = r#"{"code": 200, "data": {"url": "rtsp://live/1"}}"#;
    assert_eq!(live_url_from_reply(ok).unwrap(), "rtsp://live/1");

    let wrong_code = r#"{"code": 500, "data": {"url": "rtsp://live/1"}}"#;
    assert!(matches!(live_url_from_reply(wrong_code).unwrap_err(), Error::Network(_)));

    let no_url = r#"{"code": 200, "data": {}}"#;
    assert!(live_url_from_reply(no_url).is_err());

    let not_json = "plainly not json";
    assert!(live_url_from_reply(not_json).is_err());
}
