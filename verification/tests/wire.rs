//! The wire format.

use crane_wyoming::error::{IoStage, ProtocolError};
use crane_wyoming::event::{
    AudioChunkData, AudioStartData, AudioStopData, ErrorData, Event, PingData, PongData,
    SynthesizeData,
};
use crane_wyoming::json::{read_record, Json};
use crane_wyoming::wire::{
    MAX_DATA_LENGTH, MAX_HEADER_LINE, MAX_PAYLOAD_LENGTH, VERSION, LineProgress, open_frame,
    read_event, take_line, write_event,
};
use serde_json::Value;

fn write_to_vec(event: &Event) -> Vec<u8> {
    write_event(event).expect("write_event")
}

fn read_one(bytes: &[u8]) -> Event {
    let (event, used) = read_event(bytes).unwrap().unwrap();
    assert_eq!(used, bytes.len());
    event
}

fn header_of(bytes: &[u8]) -> (Value, usize) {
    let newline = bytes.iter().position(|&b| b == b'\n').unwrap();
    (serde_json::from_slice(&bytes[..newline]).unwrap(), newline)
}

fn raw(header: &str, rest: &[u8]) -> Vec<u8> {
    let mut bytes = header.as_bytes().to_vec();
    bytes.push(b'\n');
    bytes.extend_from_slice(rest);
    bytes
}

#[test]
fn test_round_trip_audio_start() {
    let event = Event::AudioStart(AudioStartData {
        rate: 22050,
        width: 2,
        channels: 1,
        timestamp: None,
    });
    assert_eq!(read_one(&write_to_vec(&event)), event);
}

#[test]
fn test_round_trip_synthesize() {
    let event = Event::Synthesize(SynthesizeData { text: "hello".to_string(), voice: None });
    assert_eq!(read_one(&write_to_vec(&event)), event);
}

#[test]
fn test_round_trip_describe_no_data() {
    let event = Event::Describe;
    assert_eq!(read_one(&write_to_vec(&event)), event);
}

#[test]
fn test_round_trip_audio_chunk_payload() {
    let audio = vec![0u8, 1, 2, 3, 255, 254];
    let event = Event::AudioChunk {
        data: AudioChunkData { rate: 24000, width: 2, channels: 1, timestamp: Some(10) },
        audio: audio.clone(),
    };
    match read_one(&write_to_vec(&event)) {
        Event::AudioChunk { audio: got, .. } => assert_eq!(got, audio),
        _ => panic!("expected AudioChunk"),
    }
}

#[test]
fn test_header_omits_data_length_when_no_data() {
    let bytes = write_to_vec(&Event::Describe);
    let (header, newline) = header_of(&bytes);
    assert!(header.get("data_length").is_none());
    assert!(header.get("payload_length").is_none());
    assert_eq!(&bytes[newline + 1..], b"" as &[u8]);
}

#[test]
fn test_round_trip_all_optional_fields_unset() {
    let events = vec![
        Event::AudioStop(AudioStopData { timestamp: None }),
        Event::Ping(PingData { text: None }),
        Event::Pong(PongData { text: None }),
    ];
    for event in events {
        let bytes = write_to_vec(&event);
        let (header, _) = header_of(&bytes);
        assert!(header.get("data_length").is_none());
        assert_eq!(read_one(&bytes), event);
    }
}

#[test]
fn test_header_has_expected_fields() {
    let event = Event::AudioStart(AudioStartData {
        rate: 24000,
        width: 2,
        channels: 1,
        timestamp: None,
    });
    let (header, _) = header_of(&write_to_vec(&event));
    assert_eq!(header.get("type").unwrap(), "audio-start");
    assert_eq!(header.get("version").unwrap(), VERSION);
    assert!(header.get("data_length").is_some());
    assert!(header.get("payload_length").is_none());
}

#[test]
fn test_audio_chunk_payload_length_matches() {
    let event = Event::AudioChunk {
        data: AudioChunkData { rate: 24000, width: 2, channels: 1, timestamp: None },
        audio: vec![7u8; 4096],
    };
    let (header, _) = header_of(&write_to_vec(&event));
    assert_eq!(header.get("payload_length").unwrap(), 4096);
}

#[test]
fn test_inline_data_merge() {
    let external = br#"{"text":"new"}"#;
    let header = format!(
        r#"{{"type":"test-merge","version":"1.0.0","data_length":{},"data":{{"text":"old","extra":"kept"}}}}"#,
        external.len()
    );
    match read_one(&raw(&header, external)) {
        Event::Unknown { data, .. } => assert_eq!(
            data,
            Json::Object(vec![
                ("text".to_string(), Json::Text("new".to_string())),
                ("extra".to_string(), Json::Text("kept".to_string())),
            ])
        ),
        other => panic!("unexpected event: {other:?}"),
    }
}

#[test]
fn test_read_header_too_long() {
    let mut bytes = vec![b'a'; MAX_HEADER_LINE + 1];
    bytes.push(b'\n');
    assert!(matches!(read_event(&bytes), Err(ProtocolError::HeaderTooLong { .. })));
}

#[test]
fn test_read_data_length_too_large() {
    let header = format!(r#"{{"type":"ping","data_length":{}}}"#, MAX_DATA_LENGTH + 1);
    assert!(matches!(
        read_event(&raw(&header, b"")),
        Err(ProtocolError::DataLengthExceeded { .. })
    ));
}

#[test]
fn test_read_payload_length_too_large() {
    let header = format!(r#"{{"type":"audio-chunk","payload_length":{}}}"#, MAX_PAYLOAD_LENGTH + 1);
    assert!(matches!(
        read_event(&raw(&header, b"")),
        Err(ProtocolError::PayloadLengthExceeded { .. })
    ));
}

#[test]
fn test_read_non_object_data_error() {
    let bytes = raw(r#"{"type":"ping","data":["not","an","object"]}"#, b"");
    assert!(matches!(read_event(&bytes), Err(ProtocolError::NonObjectData(_))));
}

#[test]
fn test_read_non_object_external_data_error() {
    let external = br#"["not","an","object"]"#;
    let header = format!(r#"{{"type":"ping","data_length":{}}}"#, external.len());
    assert!(matches!(
        read_event(&raw(&header, external)),
        Err(ProtocolError::NonObjectData(_))
    ));
}

#[test]
fn test_read_eof_returns_none() {
    assert!(read_event(&[]).unwrap().is_none());
}

#[test]
fn test_read_malformed_header() {
    assert!(matches!(
        read_event(b"not json\n"),
        Err(ProtocolError::HeaderInvalidJson(_))
    ));
}

#[test]
fn test_read_truncated_data() {
    let bytes = raw(r#"{"type":"ping","data_length":100}"#, b"{}");
    match read_event(&bytes) {
        Err(ProtocolError::Io { source, stage }) => {
            assert_eq!(source, "early eof");
            assert_eq!(stage, IoStage::ReadData);
        }
        other => panic!("unexpected {other:?}"),
    }
}

#[test]
fn test_read_truncated_payload() {
    let bytes = raw(r#"{"type":"audio-chunk","payload_length":100}"#, &[0u8; 10]);
    match read_event(&bytes) {
        Err(ProtocolError::Io { stage, .. }) => assert_eq!(stage, IoStage::ReadPayload),
        other => panic!("unexpected {other:?}"),
    }
}

#[test]
fn wire_test_multiple_events_sequential() {
    let events = vec![
        Event::Ping(PingData { text: Some("a".to_string()) }),
        Event::Pong(PongData { text: Some("b".to_string()) }),
        Event::Describe,
    ];
    let mut buf = Vec::new();
    for event in &events {
        buf.extend(write_to_vec(event));
    }
    let mut rest = &buf[..];
    for expected in &events {
        let (got, used) = read_event(rest).unwrap().unwrap();
        assert_eq!(&got, expected);
        rest = &rest[used..];
    }
    assert!(read_event(rest).unwrap().is_none());
}

#[test]
fn test_large_payload() {
    let audio = vec![42u8; 1024 * 1024];
    let event = Event::AudioChunk {
        data: AudioChunkData { rate: 24000, width: 2, channels: 1, timestamp: None },
        audio: audio.clone(),
    };
    match read_one(&write_to_vec(&event)) {
        Event::AudioChunk { audio: got, .. } => assert_eq!(got, audio),
        _ => panic!("expected AudioChunk"),
    }
}

#[test]
fn test_unicode_data() {
    let event = Event::Error(ErrorData { text: "エラー 😀".to_string(), code: None });
    assert_eq!(read_one(&write_to_vec(&event)), event);
}

#[test]
fn test_version_string_in_header() {
    let (header, _) = header_of(&write_to_vec(&Event::Describe));
    assert_eq!(header.get("version").unwrap().as_str().unwrap(), VERSION);
}

#[test]
fn test_interop_python_format() {
    let data = br#"{"text":"data"}"#;
    let payload = b"test\npayload";
    let header = format!(
        r#"{{"type":"error","version":"1.5.4","data_length":{},"payload_length":{}}}"#,
        data.len(),
        payload.len()
    );
    let mut rest = data.to_vec();
    rest.extend_from_slice(payload);
    match read_one(&raw(&header, &rest)) {
        Event::Error(ErrorData { text, .. }) => assert_eq!(text, "data"),
        other => panic!("unexpected event: {other:?}"),
    }
}

#[test]
fn an_event_is_written_as_header_data_and_payload() {
    let event = Event::AudioChunk {
        data: AudioChunkData { rate: 16000, width: 2, channels: 1, timestamp: None },
        audio: vec![1, 2, 3],
    };
    let data = br#"{"rate":16000,"width":2,"channels":1}"#;
    let header = format!(
        r#"{{"type":"audio-chunk","version":"{VERSION}","data_length":{},"payload_length":3}}"#,
        data.len()
    );
    let mut expected = raw(&header, data);
    expected.extend_from_slice(&[1, 2, 3]);
    assert_eq!(write_to_vec(&event), expected);
}

#[test]
fn what_follows_an_event_is_left_alone() {
    let event = Event::Ping(PingData::with_text("hi"));
    let bytes = write_to_vec(&event);
    let mut more = bytes.clone();
    more.extend_from_slice(b"\n\xffgarbage");
    assert_eq!(read_event(&more).unwrap().unwrap(), (event, bytes.len()));
}

#[test]
fn a_header_that_is_not_utf8_is_refused() {
    assert!(matches!(
        read_event(b"\xff\xfe\n"),
        Err(ProtocolError::HeaderNotUtf8(_))
    ));
}

#[test]
fn event_data_of_the_wrong_type_is_refused() {
    let bytes = raw(r#"{"type":"audio-start","data":{"rate":"x"}}"#, b"");
    assert!(matches!(read_event(&bytes), Err(ProtocolError::InvalidEventData(_))));
    let bytes = raw(r#"{"type":"ping","data_length":3}"#, b"{x}");
    assert!(matches!(read_event(&bytes), Err(ProtocolError::InvalidEventData(_))));
}

#[test]
fn a_line_comes_together_from_pieces() {
    let mut buf = Vec::new();
    assert_eq!(take_line(&mut buf, b"abc", 10), (3, LineProgress::Incomplete));
    assert_eq!(take_line(&mut buf, b"de\nrest", 10), (3, LineProgress::Complete));
    assert_eq!(buf, b"abcde\n".to_vec());
}

#[test]
fn a_frame_is_read_in_steps() {
    let frame = open_frame(br#"{"type":"audio-chunk","data_length":37,"payload_length":2}"#.to_vec()).unwrap();
    let frame = frame.accept_data(br#"{"rate":16000,"width":2,"channels":1}"#).unwrap();
    assert_eq!(frame.payload_needed().unwrap(), 2);
    match frame.finish(Some(vec![8, 9])).unwrap() {
        Event::AudioChunk { data, audio } => {
            assert_eq!(data.rate, 16000);
            assert_eq!(audio, vec![8, 9]);
        }
        other => panic!("unexpected {other:?}"),
    }
}

#[test]
fn errors_have_messages() {
    let error = read_event(&[b'a'; 70000]).unwrap_err();
    assert_eq!(error.message(), "header line exceeds maximum length of 65536 bytes");
    let error = read_event(&raw(r#"{"type":"ping","data":5}"#, b"")).unwrap_err();
    assert_eq!(error.message(), "expected event data to be a JSON object, got number");
    let header = format!(r#"{{"type":"ping","data_length":{}}}"#, MAX_DATA_LENGTH + 1);
    let error = read_event(&raw(&header, b"")).unwrap_err();
    assert_eq!(error.message(), "event data_length 1048577 exceeds maximum of 1048576");
    let error = ProtocolError::Io { source: "broken".to_string(), stage: IoStage::ReadPayload };
    assert!(error.message().starts_with("I/O error during "));
    assert!(error.message().ends_with(": broken"));
}

#[test]
fn every_shape_of_data_comes_through() {
    let decimal = match serde_json::from_str::<Value>("1.5").unwrap() {
        Value::Number(n) => Json::Decimal(n),
        other => panic!("expected a number, got {other:?}"),
    };
    let data = Json::Object(vec![
        ("null".to_string(), Json::Null),
        ("flag".to_string(), Json::Bool(false)),
        ("large".to_string(), Json::Unsigned(u64::MAX)),
        ("below".to_string(), Json::Negative(i64::MIN)),
        ("decimal".to_string(), decimal),
        ("text".to_string(), Json::Text("a\n\"b\" \u{e9}\u{1f600}".to_string())),
        (
            "list".to_string(),
            Json::Array(vec![
                Json::Object(vec![("z".to_string(), Json::Null), ("a".to_string(), Json::Null)]),
                Json::Array(vec![]),
            ]),
        ),
    ]);
    let event = Event::Unknown {
        event_type: "future-event".to_string(),
        data: data.clone(),
        payload: Some(vec![0, 10, 255]),
    };
    assert_eq!(data, data.clone());
    assert_eq!(read_one(&write_to_vec(&event)), event);
}

#[test]
fn a_repeated_name_counts_once_with_its_last_value() {
    match read_one(&raw(r#"{"type":"x","data":{"a":1,"b":2,"a":3}}"#, b"")) {
        Event::Unknown { data, .. } => assert_eq!(
            data,
            Json::Object(vec![
                ("a".to_string(), Json::Unsigned(3)),
                ("b".to_string(), Json::Unsigned(2)),
            ])
        ),
        other => panic!("expected Unknown, got {other:?}"),
    }
}

#[test]
fn a_header_that_gives_a_field_twice_is_malformed() {
    for header in [
        r#"{"type":"ping","type":"ping"}"#,
        r#"{"type":"ping","type":"pong"}"#,
        r#"{"type":"ping","version":null,"version":null}"#,
        r#"{"data_length":0,"type":"ping","data_length":0}"#,
        r#"{"payload_length":0,"type":"ping", "payload_length" : 0 }"#,
        r#"{"type":"ping","data":{},"data":{}}"#,
    ] {
        assert!(
            matches!(
                read_event(&raw(header, b"")),
                Err(ProtocolError::HeaderInvalidJson(_))
            ),
            "{header}"
        );
    }
}

#[test]
fn other_members_of_a_header_may_come_twice() {
    for header in [
        r#"{"x":1,"type":"ping","x":2}"#,
        r#"{"type":"ping","x":{"type":"a","type":"b"},"y":["type","type"]}"#,
        r#"{"x":",\"type\":\"a\"","type":"ping"}"#,
        r#"  {"type":"ping","x":"}\\","y":"{["}"#,
    ] {
        assert!(
            matches!(read_one(&raw(header, b"")), Event::Ping(_)),
            "{header}"
        );
    }
}

#[test]
fn a_record_holds_the_fields_that_are_known() {
    let known = vec!["a", "ab"];
    let text = br#" { "a" : [1, {"b": 2}], "x":"y,\"ab\":1", "\u0061b":null } "#;
    assert_eq!(
        read_record(text, &known),
        Some(Json::Object(vec![
            (
                "a".to_string(),
                Json::Array(vec![
                    Json::Unsigned(1),
                    Json::Object(vec![("b".to_string(), Json::Unsigned(2))]),
                ])
            ),
            ("ab".to_string(), Json::Null),
        ]))
    );
    assert_eq!(read_record(b"{}", &known), Some(Json::Object(vec![])));
    assert_eq!(read_record(b"[1]", &known), Some(Json::Array(vec![Json::Unsigned(1)])));
    assert_eq!(read_record(b"1", &known), None);
    assert_eq!(read_record(br#"{"x":}"#, &known), None);
    assert_eq!(read_record(br#"{"a":1e999}"#, &known), None);
    assert_eq!(read_record(br#"{"a":1,"x":1e999}"#, &known).is_some(), true);
    assert_eq!(read_record(br#"{"a":1,"a":1}"#, &known), None);
}

#[test]
fn what_a_header_holds_besides_its_fields_is_skipped() {
    let deep = format!("{}{}", "[".repeat(1000), "]".repeat(1000));
    for skipped in ["1e999", r#""\ud800""#, &deep] {
        let header = format!(r#"{{"x":{skipped},"type":"ping","y":{skipped}}}"#);
        assert!(
            matches!(read_one(&raw(&header, b"")), Event::Ping(_)),
            "{skipped}"
        );
        let header = format!(r#"{{"type":"x","data":{{"a":{skipped}}}}}"#);
        assert!(matches!(
            read_event(&raw(&header, b"")),
            Err(ProtocolError::HeaderInvalidJson(_))
        ));
    }
}

#[test]
fn a_message_gives_the_reason() {
    fn message(bytes: &[u8]) -> String {
        read_event(bytes).unwrap_err().message()
    }
    assert_eq!(
        message(b"{\n"),
        "header is not valid JSON: EOF while parsing an object at line 1 column 1"
    );
    assert!(message(b"\xff\n").starts_with("header is not valid UTF-8: invalid utf-8 sequence"));
    assert_eq!(
        message(b"{\"type\":\"ping\",\"data_length\":1}\n]"),
        "invalid event data: expected value at line 1 column 1"
    );
    assert_eq!(
        message(b"{\"type\":\"audio-start\"}\n"),
        "invalid event data: missing field `rate`"
    );
}

#[test]
fn a_malformed_header_is_reported_with_its_place() {
    for (header, reason) in [
        ("5", "invalid type: integer `5`, expected struct Header at line 1 column 1"),
        (r#" "a map""#, "invalid type: string \"a map\", expected struct Header at line 1 column 8"),
        ("@", "expected value at line 1 column 1"),
        ("{}", "missing field `type` at line 1 column 2"),
        ("{} x", "missing field `type` at line 1 column 2"),
        (r#"{"version":"1" }"#, "missing field `type` at line 1 column 16"),
        (r#"{"type":5}"#, "invalid type: integer `5`, expected a string at line 1 column 9"),
        (r#"{"type": null}"#, "invalid type: null, expected a string at line 1 column 13"),
        (r#"{"type":[1]}"#, "invalid type: sequence, expected a string at line 1 column 8"),
        (r#"{"type":5 "x":1}"#, "invalid type: integer `5`, expected a string at line 1 column 9"),
        (r#"{"type":"a" "x":1}"#, "expected `,` or `}` at line 1 column 13"),
        (r#"{"type":"a","x":}"#, "expected value at line 1 column 17"),
        (r#"{"type":"a",}"#, "trailing comma at line 1 column 13"),
        (r#"{"type":"a"} x"#, "trailing characters at line 1 column 14"),
        (r#"{"type":"a","type":5}"#, "duplicate field `type` at line 1 column 18"),
        (
            r#"{"type":"a","version":1}"#,
            "invalid type: integer `1`, expected a string at line 1 column 23",
        ),
        (
            r#"{"type":"a","data_length":-1}"#,
            "invalid value: integer `-1`, expected usize at line 1 column 28",
        ),
        (
            r#"{"type":"a","payload_length":1.5}"#,
            "invalid type: floating point `1.5`, expected usize at line 1 column 32",
        ),
        (r#"{"type":"a","data":{"b":1,}}"#, "trailing comma at line 1 column 27"),
        (r#"{"data":[}"#, "expected value at line 1 column 10"),
        ("[]", "invalid length 0, expected struct Header with 5 elements at line 1 column 2"),
        (r#"["a",5]"#, "invalid type: integer `5`, expected a string at line 1 column 6"),
        (r#"["a","b",1,2,{},3]"#, "trailing characters at line 1 column 17"),
        (r#"["a","b",1,2,{} x]"#, "trailing characters at line 1 column 17"),
        (r#"["a","b",1,2,{"c":1,}]"#, "trailing comma at line 1 column 21"),
        (r#"{"type":"a","type" 5}"#, "duplicate field `type` at line 1 column 19"),
        (r#"{"type":"a","type""#, "duplicate field `type` at line 1 column 18"),
        (r#"{"type" "a"}"#, "expected `:` at line 1 column 9"),
        (r#"["a",]"#, "trailing comma at line 1 column 6"),
        (r#"["a"] x"#, "trailing characters at line 1 column 7"),
    ] {
        assert_eq!(
            read_event(&raw(header, b"")).unwrap_err().message(),
            format!("header is not valid JSON: {reason}"),
            "{header}"
        );
    }
}

#[test]
fn nothing_is_wrong_with_a_header_that_leaves_fields_open() {
    for header in [
        r#"{"type":"ping","version":null,"data_length":null,"payload_length":null,"data":null}"#,
        r#"["ping"]"#,
        r#"["ping",null,null]"#,
        r#"["ping","1",0,0,{}]"#,
    ] {
        assert!(matches!(read_one(&raw(header, b"")), Event::Ping(_)), "{header}");
    }
}

#[test]
fn a_place_counts_lines() {
    let error = open_frame(b"{\n \"type\": 5}".to_vec()).unwrap_err();
    assert_eq!(
        error.message(),
        "header is not valid JSON: invalid type: integer `5`, expected a string at line 2 column 10"
    );
    let error = open_frame(b"{\n}".to_vec()).unwrap_err();
    assert_eq!(error.message(), "header is not valid JSON: missing field `type` at line 2 column 1");
}
