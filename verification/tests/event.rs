//! Events and their data.

use crane_wyoming::event::{
    AudioChunkData, AudioFormat, AudioStartData, AudioStopData, ErrorData, Event, InfoData,
    PingData, PongData, SynthesizeChunkData, SynthesizeData, SynthesizeStartData, SynthesizeVoice,
    TranscribeData, TranscriptChunkData, TranscriptData, TranscriptStartData, VoiceStartedData,
    VoiceStoppedData,
};
use crane_wyoming::json::Json;

fn from_value(value: serde_json::Value) -> Json {
    match value {
        serde_json::Value::Null => Json::Null,
        serde_json::Value::Bool(b) => Json::Bool(b),
        serde_json::Value::Number(n) => match (n.as_u64(), n.as_i64()) {
            (Some(u), _) => Json::Unsigned(u),
            (None, Some(i)) => Json::Negative(i),
            (None, None) => Json::Decimal(n),
        },
        serde_json::Value::String(s) => Json::Text(s),
        serde_json::Value::Array(items) => Json::Array(items.into_iter().map(from_value).collect()),
        serde_json::Value::Object(fields) => Json::Object(
            fields.into_iter().map(|(k, v)| (k, from_value(v))).collect(),
        ),
    }
}

fn json(text: &str) -> Json {
    from_value(serde_json::from_str(text).unwrap())
}

fn round_trip(event: &Event) -> Event {
    let event_type = event.event_type().to_string();
    let data_bytes = event.serialize_data().expect("serialize_data");
    let payload = event.payload().map(<[u8]>::to_vec);
    let data_value = match data_bytes {
        Some(bytes) => from_value(serde_json::from_slice(&bytes).expect("data json")),
        None => Json::Null,
    };
    Event::from_wire(&event_type, data_value, payload).expect("from_wire")
}

#[test]
fn event_test_audio_start_round_trip() {
    let event = Event::AudioStart(AudioStartData {
        rate: 22050,
        width: 2,
        channels: 1,
        timestamp: Some(123),
    });
    assert_eq!(round_trip(&event), event);
}

#[test]
fn event_test_audio_start_no_timestamp() {
    let event = Event::AudioStart(AudioStartData {
        rate: 24000,
        width: 2,
        channels: 1,
        timestamp: None,
    });
    assert_eq!(round_trip(&event), event);
}

#[test]
fn event_test_audio_chunk_round_trip() {
    let event = Event::AudioChunk {
        data: AudioChunkData { rate: 24000, width: 2, channels: 1, timestamp: None },
        audio: vec![1, 2, 3, 4],
    };
    let result = round_trip(&event);
    assert_eq!(result, event);
    match result {
        Event::AudioChunk { audio, .. } => assert_eq!(audio, vec![1, 2, 3, 4]),
        _ => panic!("expected AudioChunk"),
    }
}

#[test]
fn event_test_audio_chunk_data_excludes_audio_bytes() {
    let event = Event::AudioChunk {
        data: AudioChunkData { rate: 24000, width: 2, channels: 1, timestamp: None },
        audio: vec![9, 9, 9],
    };
    let bytes = event.serialize_data().unwrap().unwrap();
    let text = String::from_utf8(bytes).unwrap();
    assert!(!text.contains('9'));
}

#[test]
fn event_test_audio_stop_round_trip() {
    let event = Event::AudioStop(AudioStopData { timestamp: Some(42) });
    assert_eq!(round_trip(&event), event);

    let event_no_ts = Event::AudioStop(AudioStopData { timestamp: None });
    assert_eq!(round_trip(&event_no_ts), event_no_ts);
}

#[test]
fn event_test_synthesize_round_trip_full_voice() {
    let event = Event::Synthesize(SynthesizeData {
        text: "hello world".to_string(),
        voice: Some(SynthesizeVoice {
            name: Some("Chelsie".to_string()),
            language: Some("en".to_string()),
            speaker: Some("default".to_string()),
        }),
    });
    assert_eq!(round_trip(&event), event);
}

#[test]
fn event_test_synthesize_minimal() {
    let event = Event::Synthesize(SynthesizeData { text: "hi".to_string(), voice: None });
    assert_eq!(round_trip(&event), event);
}

#[test]
fn test_transcribe_round_trip() {
    let event = Event::Transcribe(TranscribeData {
        name: Some("Qwen3-ASR".to_string()),
        language: Some("en".to_string()),
    });
    assert_eq!(round_trip(&event), event);
}

#[test]
fn test_transcribe_minimal() {
    let event = Event::Transcribe(TranscribeData::default());
    assert_eq!(round_trip(&event), event);
}

#[test]
fn test_transcribe_name_only() {
    let event = Event::Transcribe(TranscribeData {
        name: Some("Qwen3-ASR".to_string()),
        language: None,
    });
    assert_eq!(round_trip(&event), event);
    let bytes = event.serialize_data().unwrap().unwrap();
    let text = String::from_utf8(bytes).unwrap();
    assert!(text.contains("name"));
    assert!(!text.contains("language"));
}

#[test]
fn test_transcript_round_trip() {
    let event = Event::Transcript(TranscriptData {
        text: "hello world".to_string(),
        language: Some("en".to_string()),
    });
    assert_eq!(round_trip(&event), event);
}

#[test]
fn test_transcript_minimal() {
    let event = Event::Transcript(TranscriptData::new("hi"));
    assert_eq!(
        event,
        Event::Transcript(TranscriptData { text: "hi".to_string(), language: None })
    );
    assert_eq!(round_trip(&event), event);
    let bytes = event.serialize_data().unwrap().unwrap();
    let text = String::from_utf8(bytes).unwrap();
    assert!(text.contains("text"));
    assert!(!text.contains("language"));
}

#[test]
fn event_test_describe_round_trip() {
    let event = Event::Describe;
    assert_eq!(event.serialize_data().unwrap(), None);
    assert_eq!(event.payload(), None);
    assert_eq!(round_trip(&event), event);
}

#[test]
fn event_test_info_round_trip() {
    let event = Event::Info(InfoData {
        tts: vec![json(r#"{"name": "Qwen3-TTS"}"#)],
        asr: vec![],
        wake: vec![],
    });
    assert_eq!(round_trip(&event), event);
}

#[test]
fn event_test_ping_pong_round_trip() {
    let keepalive_request = Event::Ping(PingData { text: Some("hi".to_string()) });
    assert_eq!(round_trip(&keepalive_request), keepalive_request);

    let keepalive_reply = Event::Pong(PongData { text: None });
    assert_eq!(round_trip(&keepalive_reply), keepalive_reply);
}

#[test]
fn event_test_error_round_trip() {
    let event = Event::Error(ErrorData {
        text: "bad voice".to_string(),
        code: Some("voice-not-found".to_string()),
    });
    assert_eq!(round_trip(&event), event);

    let event_no_code = Event::Error(ErrorData { text: "oops".to_string(), code: None });
    assert_eq!(round_trip(&event_no_code), event_no_code);
}

#[test]
fn event_test_unknown_event_preserves_data_and_payload() {
    let event = Event::Unknown {
        event_type: "future-event".to_string(),
        data: json(r#"{"foo": "bar"}"#),
        payload: Some(vec![5, 6, 7]),
    };
    assert_eq!(round_trip(&event), event);
}

#[test]
fn event_test_unknown_event_no_data() {
    let event = Event::Unknown {
        event_type: "future-event".to_string(),
        data: json("null"),
        payload: None,
    };
    assert_eq!(event.serialize_data().unwrap(), None);
    // An absent or null data segment reads as an empty object.
    let expected = Event::Unknown {
        event_type: "future-event".to_string(),
        data: json("{}"),
        payload: None,
    };
    assert_eq!(round_trip(&event), expected);
}

#[test]
fn event_test_event_type_strings() {
    assert_eq!(Event::Describe.event_type(), "describe");
    assert_eq!(Event::AudioStop(AudioStopData { timestamp: None }).event_type(), "audio-stop");
    assert_eq!(Event::Transcribe(TranscribeData::default()).event_type(), "transcribe");
    assert_eq!(Event::Transcript(TranscriptData::new("hi")).event_type(), "transcript");
}

#[test]
fn every_event_type_has_its_name() {
    let format = AudioFormat { rate: 16000, width: 2, channels: 1 };
    let events = vec![
        (Event::AudioStart(AudioStartData::new(format)), "audio-start"),
        (
            Event::AudioChunk { data: AudioChunkData::new(format), audio: vec![1] },
            "audio-chunk",
        ),
        (Event::AudioStop(AudioStopData::new()), "audio-stop"),
        (Event::VoiceStarted(VoiceStartedData::new()), "voice-started"),
        (Event::VoiceStopped(VoiceStoppedData::new()), "voice-stopped"),
        (Event::Synthesize(SynthesizeData::new("a")), "synthesize"),
        (Event::SynthesizeStart(SynthesizeStartData::new()), "synthesize-start"),
        (Event::SynthesizeChunk(SynthesizeChunkData::new("a")), "synthesize-chunk"),
        (Event::SynthesizeStop, "synthesize-stop"),
        (Event::SynthesizeStopped, "synthesize-stopped"),
        (Event::Transcribe(TranscribeData::new()), "transcribe"),
        (Event::TranscriptStart(TranscriptStartData::new()), "transcript-start"),
        (Event::TranscriptChunk(TranscriptChunkData::new("a")), "transcript-chunk"),
        (Event::Transcript(TranscriptData::new("a")), "transcript"),
        (Event::TranscriptStop, "transcript-stop"),
        (Event::Describe, "describe"),
        (Event::Info(InfoData::new()), "info"),
        (Event::Ping(PingData::new()), "ping"),
        (Event::Pong(PongData::new()), "pong"),
        (Event::Error(ErrorData::new("a")), "error"),
    ];
    for (event, name) in events {
        assert_eq!(event.event_type(), name);
        assert_eq!(round_trip(&event), event);
    }
}

#[test]
fn streamed_text_and_voice_activity_round_trip() {
    let start = SynthesizeStartData::new()
        .with_language("de")
        .with_voice(SynthesizeVoice::with_name("de_female"));
    let event = Event::SynthesizeStart(start);
    assert_eq!(round_trip(&event), event);

    let event = Event::TranscriptStart(TranscriptStartData::new().with_language("en"));
    assert_eq!(round_trip(&event), event);

    let event = Event::VoiceStarted(VoiceStartedData { timestamp: Some(7) });
    assert_eq!(round_trip(&event), event);
}

#[test]
fn from_wire_rejects_data_of_the_wrong_type() {
    let bad_rate = json(r#"{"rate": "fast", "width": 2, "channels": 1}"#);
    assert!(Event::from_wire("audio-start", bad_rate, None).is_err());
    let missing = json(r#"{"rate": 16000, "width": 2}"#);
    assert!(Event::from_wire("audio-start", missing, None).is_err());
    let large = json(r#"{"rate": 16000, "width": 65536, "channels": 1}"#);
    assert!(Event::from_wire("audio-start", large, None).is_err());
    assert!(Event::from_wire("synthesize", json("{}"), None).is_err());
}

#[test]
fn data_structs_build_up() {
    assert_eq!(SynthesizeVoice::new(), SynthesizeVoice { name: None, language: None, speaker: None });
    let data = TranscribeData::new().with_name("m").with_language("en");
    assert_eq!(data.name.as_deref(), Some("m"));
    assert_eq!(data.language.as_deref(), Some("en"));
    let error = ErrorData::new("no").with_code("c");
    assert_eq!((error.text.as_str(), error.code.as_deref()), ("no", Some("c")));
    assert_eq!(PingData::with_text("hi").text.as_deref(), Some("hi"));
    assert_eq!(PongData::with_text("hi").text.as_deref(), Some("hi"));
}

#[test]
fn data_is_refused_for_the_first_thing_that_is_wrong() {
    for (event_type, data, reason) in [
        ("audio-start", "{}", "missing field `rate`"),
        ("audio-start", r#"{"rate":1}"#, "missing field `width`"),
        (
            "audio-chunk",
            r#"{"width":-1,"rate":"x"}"#,
            "invalid value: integer `-1`, expected u16",
        ),
        (
            "audio-start",
            r#"{"rate":4294967296,"width":2,"channels":1}"#,
            "invalid value: integer `4294967296`, expected u32",
        ),
        ("audio-stop", r#"{"timestamp":1.5}"#, "invalid type: floating point `1.5`, expected u64"),
        ("synthesize", r#"{"text":null}"#, "invalid type: null, expected a string"),
        (
            "synthesize",
            r#"{"text":"a","voice":true}"#,
            "invalid type: boolean `true`, expected struct SynthesizeVoice",
        ),
        (
            "synthesize",
            r#"{"text":"a","voice":{"name":{}}}"#,
            "invalid type: map, expected a string",
        ),
        (
            "synthesize",
            r#"{"text":"a","voice":["b",null,null,1]}"#,
            "invalid length 4, expected fewer elements in array",
        ),
        ("transcript", r#"{"language":[]}"#, "invalid type: sequence, expected a string"),
        ("info", r#"{"asr":null}"#, "invalid type: null, expected a sequence"),
        ("ping", "5", "invalid type: integer `5`, expected struct PingData"),
        ("error", "[]", "invalid length 0, expected struct ErrorData with 2 elements"),
        ("synthesize-chunk", "[]", "invalid length 0, expected struct SynthesizeChunkData with 1 element"),
    ] {
        assert_eq!(
            Event::from_wire(event_type, json(data), None).unwrap_err().message(),
            format!("invalid event data: {reason}"),
            "{event_type} {data}"
        );
    }
}
