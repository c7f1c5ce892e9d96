//! The command-line client.

use crane_wyoming::client::SynthesizeResponse;
use crane_wyoming::event::{AudioFormat, InfoData, SynthesizeData, SynthesizeVoice};
use crane_wyoming::json::Json;
use crane_wyoming::say::{
    default_uri, get_member, iter_voices, output_file, print_languages, print_voices, resolve_text,
    response_file, synthesize_request, write_wav_header, OutputFormat, StdoutWriter,
};

fn format() -> AudioFormat {
    AudioFormat { rate: 24000, width: 2, channels: 1 }
}

#[test]
fn write_wav_header_streaming_uses_placeholder_sizes() {
    let mut buf = Vec::new();
    write_wav_header(&mut buf, format(), None);
    assert_eq!(buf.len(), 44);
    assert_eq!(&buf[0..4], b"RIFF");
    assert_eq!(&buf[4..8], &0xFFFF_FFFFu32.to_le_bytes());
    assert_eq!(&buf[8..12], b"WAVE");
    assert_eq!(&buf[36..40], b"data");
    assert_eq!(&buf[40..44], &0xFFFF_FFFFu32.to_le_bytes());
}

#[test]
fn write_wav_header_fixed_size_computes_riff_and_data_sizes() {
    let mut buf = Vec::new();
    write_wav_header(&mut buf, format(), Some(1000));
    assert_eq!(&buf[4..8], &1036u32.to_le_bytes());
    assert_eq!(&buf[40..44], &1000u32.to_le_bytes());
}

#[test]
fn write_wav_header_describes_the_format() {
    let mut buf = vec![9];
    write_wav_header(&mut buf, AudioFormat { rate: 44100, width: 2, channels: 2 }, Some(8));
    assert_eq!(buf[0], 9);
    let header = &buf[1..];
    assert_eq!(&header[12..16], b"fmt ");
    assert_eq!(&header[16..20], &16u32.to_le_bytes());
    assert_eq!(&header[20..22], &1u16.to_le_bytes());
    assert_eq!(&header[22..24], &2u16.to_le_bytes());
    assert_eq!(&header[24..28], &44100u32.to_le_bytes());
    assert_eq!(&header[28..32], &176400u32.to_le_bytes());
    assert_eq!(&header[32..34], &4u16.to_le_bytes());
    assert_eq!(&header[34..36], &16u16.to_le_bytes());
}

#[test]
fn write_wav_header_caps_what_does_not_fit() {
    let mut buf = Vec::new();
    let large = AudioFormat { rate: u32::MAX, width: 8191, channels: u16::MAX };
    write_wav_header(&mut buf, large, Some(u32::MAX - 36));
    assert_eq!(&buf[4..8], &u32::MAX.to_le_bytes());
    assert_eq!(&buf[28..32], &u32::MAX.to_le_bytes());
    assert_eq!(&buf[32..34], &u16::MAX.to_le_bytes());
    assert_eq!(&buf[34..36], &65528u16.to_le_bytes());
}

#[test]
fn default_uri_prefers_xdg_runtime_dir() {
    assert_eq!(
        default_uri(Some("/run/user/1000")),
        "unix:///run/user/1000/crane-wyoming/tts.sock"
    );
}

#[test]
fn default_uri_falls_back_to_tcp() {
    assert_eq!(default_uri(None), "tcp://127.0.0.1:10200");
}

#[test]
fn text_is_trimmed_and_must_not_be_empty() {
    assert_eq!(resolve_text("  hello \n"), Ok("hello".to_string()));
    assert_eq!(
        resolve_text(" \n"),
        Err("no text provided; use --text or pipe text to stdin".to_string())
    );
}

#[test]
fn a_request_names_a_voice_only_if_one_is_asked_for() {
    assert_eq!(synthesize_request("hi", None, None), SynthesizeData::new("hi"));
    let mut voice = SynthesizeVoice::with_name("alice");
    voice.language = Some("de".to_string());
    assert_eq!(
        synthesize_request("hi", Some("alice".to_string()), Some("de".to_string())),
        SynthesizeData::new("hi").with_voice(voice)
    );
}

#[test]
fn a_dash_is_standard_output() {
    assert_eq!(output_file(None), None);
    assert_eq!(output_file(Some("-".to_string())), None);
    assert_eq!(output_file(Some("a.wav".to_string())), Some("a.wav".to_string()));
}

#[test]
fn files_hold_the_audio() {
    let response = SynthesizeResponse { format: format(), audio: vec![1, 2, 3, 4] };
    assert_eq!(response_file(&response, OutputFormat::Raw).unwrap(), vec![1, 2, 3, 4]);
    let mut expected = Vec::new();
    write_wav_header(&mut expected, format(), Some(4));
    expected.extend_from_slice(&[1, 2, 3, 4]);
    assert_eq!(response_file(&response, OutputFormat::Wav).unwrap(), expected);
}

#[test]
fn streamed_output_has_one_header() {
    let mut header = Vec::new();
    write_wav_header(&mut header, format(), None);
    let mut writer = StdoutWriter::new(OutputFormat::Wav);
    let mut out = writer.chunk(format(), &[1, 2]);
    out.extend(writer.chunk(format(), &[3, 4]));
    out.extend(writer.end(format()));
    assert_eq!(out, [header, vec![1, 2, 3, 4]].concat());

    let mut raw = StdoutWriter::new(OutputFormat::Raw);
    assert_eq!(raw.chunk(format(), &[1, 2]), vec![1, 2]);
    assert!(raw.end(format()).is_empty());

    // Only a header limits the sample width.
    let wide = AudioFormat { rate: 24000, width: 8192, channels: 1 };
    assert_eq!(raw.chunk(wide, &[3]), vec![3]);
    assert!(raw.end(wide).is_empty());
    assert!(!writer.needs_header());
    assert_eq!(writer.chunk(wide, &[5]), vec![5]);

    let mut empty = Vec::new();
    write_wav_header(&mut empty, format(), Some(0));
    assert_eq!(StdoutWriter::new(OutputFormat::Wav).end(format()), empty);
}

fn text(s: &str) -> Json {
    Json::Text(s.to_string())
}

fn object(fields: Vec<(&str, Json)>) -> Json {
    Json::Object(fields.into_iter().map(|(k, v)| (k.to_string(), v)).collect())
}

fn voice(name: &str, languages: &[&str]) -> Json {
    object(vec![
        ("name", text(name)),
        ("languages", Json::Array(languages.iter().map(|l| text(l)).collect())),
    ])
}

fn info() -> InfoData {
    InfoData::new().with_tts(vec![
        object(vec![
            ("name", text("m1")),
            ("voices", Json::Array(vec![voice("alice", &["fr", "en"]), voice("bob", &["en"])])),
        ]),
        object(vec![("voices", Json::Array(vec![object(vec![])]))]),
        object(vec![("name", text("mute"))]),
    ])
}

#[test]
fn voices_are_listed_with_their_program() {
    let info = info();
    let listed = iter_voices(&info);
    let programs: Vec<&str> = listed.iter().map(|(program, _)| program.as_str()).collect();
    assert_eq!(programs, vec!["m1", "m1", "<unnamed>"]);
    assert_eq!(get_member(listed[1].1, "name"), Some(&text("bob")));
    assert_eq!(get_member(listed[1].1, "age"), None);
    assert_eq!(
        print_voices(&info),
        "Available voices:\n  - alice (m1, [\"fr\",\"en\"])\n  - bob (m1, [\"en\"])\n  - \
         <unnamed> (<unnamed>, null)\n"
    );
}

#[test]
fn languages_are_listed_once_and_in_order() {
    assert_eq!(print_languages(&info()), "Available languages:\n  - en\n  - fr\n");
    assert_eq!(print_languages(&InfoData::new()), "Available languages:\n");
}
