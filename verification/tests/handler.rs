//! Requests on a connection, from the bytes that come in to the bytes that go
//! out, with models that are stand-ins.

use crane_wyoming::client::{
    check_trailing_error, describe_response, ping_response, start_synthesis, ClientError,
    StreamStep, SynthesisStream, SynthesizeResponse,
};
use crane_wyoming::engine::runtime::{
    AsrModel, AudioInfo, Dispatch, ModelRuntime, TtsGenerateRequest, TtsModel, VoiceInfo,
};
use crane_wyoming::event::{
    AudioChunkData, AudioFormat, AudioStartData, AudioStopData, ErrorData, Event, InfoData,
    PingData, PongData, SynthesizeChunkData, SynthesizeData, SynthesizeStartData, SynthesizeVoice,
    TranscribeData, TranscriptChunkData, TranscriptData, TranscriptStartData,
};
use crane_wyoming::handler::connection::{Action, Connection};
use crane_wyoming::handler::info::crane_attribution;
use crane_wyoming::handler::speech::{
    audio_chunk_event, audio_format, audio_start_event, ends_speech, handle_synthesize_blob,
    model_language, SpeechItem, SpeechReply, SynthesizeParams,
};
use crane_wyoming::handler::transcription::{
    ends_transcript, handle_transcribe_batch, unsupported_audio_format_message, vad_decision,
    TranscriptItem, TranscriptReply, VadDecision, MAX_TRANSCRIBE_AUDIO_BYTES,
};
use crane_wyoming::handler::{
    base_language_subtag, error_data, refusal, resolve_asr_model, resolve_voice, AsrModelMap,
    AsrResolution, VoiceMap, VoiceResolution,
};
use crane_wyoming::json::Json;
use crane_wyoming::say::get_member;
use crane_wyoming::wire::{read_event, write_event};

fn pcm(samples: &[f32]) -> Vec<u8> {
    let mut bytes = Vec::new();
    for sample in samples {
        bytes.extend_from_slice(&((sample * 32767.0) as i16).to_le_bytes());
    }
    bytes
}

/// A stand-in for a TTS model.
enum Tts {
    /// One sample per character of the text.
    Mock,
    Failing,
    /// One chunk per sample.
    Chunks(Vec<f32>),
    MidStreamFailing,
}

impl Tts {
    fn stream(&self, text: &str) -> Vec<SpeechItem> {
        match self {
            Tts::Chunks(samples) => {
                let mut items: Vec<SpeechItem> =
                    samples.iter().map(|s| SpeechItem::Chunk(pcm(&[*s]))).collect();
                items.push(SpeechItem::End);
                items
            },
            Tts::MidStreamFailing => vec![
                SpeechItem::Chunk(pcm(&[0.5])),
                SpeechItem::Failed("mid-stream failure".to_string()),
            ],
            _ => match self.blob(text) {
                SpeechItem::Chunk(audio) => vec![SpeechItem::Chunk(audio), SpeechItem::End],
                item => vec![item],
            },
        }
    }

    fn blob(&self, text: &str) -> SpeechItem {
        match self {
            Tts::Mock => SpeechItem::Chunk(pcm(&vec![0.5; text.chars().count().max(1)])),
            Tts::Failing => SpeechItem::Failed("mock generation failure".to_string()),
            Tts::Chunks(samples) => SpeechItem::Chunk(pcm(samples)),
            Tts::MidStreamFailing => SpeechItem::Failed("should not be called".to_string()),
        }
    }
}

/// A stand-in for an ASR model.
enum Asr {
    /// Tells how many samples it heard.
    Mock,
    /// Tells its name, too.
    Named(&'static str),
    Failing,
    /// One part per text.
    Parts(Vec<&'static str>),
    MidStreamFailing,
}

impl Asr {
    fn batch(&self, samples: usize, language: &Option<String>) -> TranscriptItem {
        let text = match self {
            Asr::Mock | Asr::Parts(_) => format!("heard {samples} samples"),
            Asr::Named(name) => format!("{name}: heard {samples} samples"),
            Asr::Failing | Asr::MidStreamFailing => {
                return TranscriptItem::Failed("mock transcription failure".to_string());
            },
        };
        TranscriptItem::Text { text, language: language.clone(), is_final: true }
    }

    fn stream(&self, samples: usize, language: &Option<String>) -> Vec<TranscriptItem> {
        match self {
            Asr::Parts(parts) => {
                let mut items = Vec::new();
                for (i, text) in parts.iter().enumerate() {
                    let last = i + 1 == parts.len();
                    items.push(TranscriptItem::Text {
                        text: text.to_string(),
                        language: if last { language.clone() } else { None },
                        is_final: last,
                    });
                }
                items.push(TranscriptItem::End);
                items
            },
            Asr::MidStreamFailing => vec![
                TranscriptItem::Text {
                    text: "partial".to_string(),
                    language: None,
                    is_final: false,
                },
                TranscriptItem::Failed("mock mid-stream failure".to_string()),
            ],
            _ => vec![self.batch(samples, language), TranscriptItem::End],
        }
    }
}

/// A server without a socket.
struct Server {
    rt: ModelRuntime,
    vm: VoiceMap,
    am: AsrModelMap,
    tts: Vec<(String, Tts)>,
    asr: Vec<(String, Asr)>,
    /// The model and language of each request for speech.
    languages: Vec<(String, String)>,
}

fn names(given: &[&str]) -> Vec<String> {
    given.iter().map(|n| n.to_string()).collect()
}

fn voice(name: &str, languages: &[&str]) -> VoiceInfo {
    VoiceInfo { name: name.to_string(), languages: names(languages) }
}

fn voices(given: &[&str]) -> Vec<VoiceInfo> {
    given.iter().map(|n| voice(n, &["en"])).collect()
}

fn info(sample_rate: u32) -> AudioInfo {
    AudioInfo { sample_rate, channels: 1, bits_per_sample: 16 }
}

impl Server {
    fn new() -> Self {
        let rt = ModelRuntime::new();
        let vm = VoiceMap::new(&[], &rt);
        let am = AsrModelMap::new(&[], &rt);
        Server { rt, vm, am, tts: vec![], asr: vec![], languages: vec![] }
    }

    fn tts(
        &mut self,
        name: &str,
        model_type_name: &'static str,
        rate: u32,
        voices: Vec<VoiceInfo>,
        model: Tts,
    ) {
        self.rt.register_tts(
            name.to_string(),
            model_type_name,
            TtsModel { audio_info: info(rate), voices, supports_voice_cloning: false },
        );
        self.tts.push((name.to_string(), model));
    }

    fn asr_at(&mut self, name: &str, rate: u32, languages: &[&str], model: Asr) {
        self.rt.register_asr(
            name.to_string(),
            "qwen3_asr",
            AsrModel { input_sample_rate: rate, languages: names(languages) },
        );
        self.asr.push((name.to_string(), model));
    }

    fn asr(&mut self, name: &str, languages: &[&str], model: Asr) {
        self.asr_at(name, 16000, languages, model);
    }

    fn serve_models(&mut self, tts: &[&str], asr: &[&str]) {
        self.vm = VoiceMap::new(&names(tts), &self.rt);
        self.am = AsrModelMap::new(&names(asr), &self.rt);
    }

    fn speak(
        &mut self,
        name: String,
        params: SynthesizeParams,
        streaming: bool,
        streamed_text: bool,
    ) -> Vec<Event> {
        self.languages.push((name.clone(), params.language.clone()));
        let model = self.tts.iter().position(|(n, _)| *n == name).unwrap();
        let mut events = Vec::new();
        let id = self.rt.tts_handle(&name).unwrap().id;
        if streaming {
            assert_eq!(self.rt.generate_speech_stream(&name), Ok(id));
            self.rt.tts_sent(&name, id, true).unwrap();
            let mut reply = SpeechReply::new(params.audio_info, streamed_text);
            for item in self.tts[model].1.stream(&params.text) {
                events.extend(reply.step(item));
            }
        } else {
            let request = TtsGenerateRequest {
                text: params.text.clone(),
                language: params.language.clone(),
                voice: params.voice_name.clone(),
                reference_audio: None,
                reference_text: None,
            };
            assert_eq!(self.rt.generate_speech(&name, &request, false), Ok(Dispatch::Send(id)));
            self.rt.tts_sent(&name, id, true).unwrap();
            let item = self.tts[model].1.blob(&params.text);
            events.extend(handle_synthesize_blob(params.audio_info, item, streamed_text));
        }
        self.rt.tts_finished(&name, id);
        assert_eq!(self.rt.tts_handle(&name).unwrap().pending_count(), 0);
        events
    }

    fn transcribe(
        &mut self,
        name: &str,
        audio: Vec<u8>,
        language: Option<String>,
        vad: VadDecision,
        streaming: bool,
    ) -> Vec<Event> {
        if vad == VadDecision::Apply {
            let item = TranscriptItem::FilterFailed("no model".to_string());
            return vec![handle_transcribe_batch(item)];
        }
        let model = self.asr.iter().position(|(n, _)| n == name).unwrap();
        let samples = audio.len() / 2;
        let mut events = Vec::new();
        let id = self.rt.asr_handle(name).unwrap().id;
        if streaming {
            assert_eq!(self.rt.transcribe_stream(name), Ok(id));
            self.rt.asr_sent(name, id, true).unwrap();
            let mut reply = TranscriptReply::new();
            for item in self.asr[model].1.stream(samples, &language) {
                let last = ends_transcript(&item);
                events.extend(reply.step(item));
                if last {
                    break;
                }
            }
        } else {
            assert_eq!(self.rt.transcribe(name), Ok(id));
            self.rt.asr_sent(name, id, true).unwrap();
            events.push(handle_transcribe_batch(self.asr[model].1.batch(samples, &language)));
        }
        self.rt.asr_finished(name, id);
        assert_eq!(self.rt.asr_handle(name).unwrap().pending_count(), 0);
        events
    }

    fn run_bytes(&mut self, input: &[u8]) -> Vec<u8> {
        let mut at = 0;
        let mut output = Vec::new();
        let mut connection = Connection::new();
        while let Some((event, used)) = read_event(&input[at..]).unwrap() {
            at += used;
            let (next, action) = connection.step(&self.rt, &self.vm, &self.am, event);
            connection = next;
            let events = match action {
                Action::Wait => vec![],
                Action::Reply(events) => events,
                Action::Speak { model_name, params, streaming, streamed_text } => {
                    self.speak(model_name, params, streaming, streamed_text)
                },
                Action::Transcribe { model_name, audio, language, vad, streaming } => {
                    self.transcribe(&model_name, audio, language, vad, streaming)
                },
            };
            for event in &events {
                output.extend(write_event(event).unwrap());
            }
        }
        output
    }

    fn run(&mut self, events: Vec<Event>) -> Vec<Event> {
        let mut input = Vec::new();
        for event in &events {
            input.extend(write_event(event).unwrap());
        }
        let output = self.run_bytes(&input);
        let mut results = Vec::new();
        let mut at = 0;
        while let Some((event, used)) = read_event(&output[at..]).unwrap() {
            at += used;
            results.push(event);
        }
        results
    }
}

fn single(rate: u32, model: Tts) -> Server {
    let mut s = Server::new();
    s.tts("m1", "qwen3_tts", rate, voices(&["alice"]), model);
    s.serve_models(&["m1"], &[]);
    s
}

fn english_and_german() -> Server {
    let mut s = Server::new();
    s.tts("a", "qwen3_tts", 24000, vec![voice("casual", &["en"])], Tts::Mock);
    s.tts("b", "voxtral_tts", 16000, vec![voice("de_female", &["de"])], Tts::Mock);
    s.serve_models(&["a", "b"], &[]);
    s
}

fn single_asr(model: Asr) -> Server {
    let mut s = Server::new();
    s.asr("m1", &[], model);
    s.serve_models(&[], &["m1"]);
    s
}

fn rate_of(event: &Event) -> u32 {
    match event {
        Event::AudioStart(data) => data.rate,
        other => panic!("expected AudioStart, got {other:?}"),
    }
}

fn audio_of(event: &Event) -> &Vec<u8> {
    match event {
        Event::AudioChunk { audio, .. } => audio,
        other => panic!("expected AudioChunk, got {other:?}"),
    }
}

fn error_of(event: &Event) -> &ErrorData {
    match event {
        Event::Error(data) => data,
        other => panic!("expected Error, got {other:?}"),
    }
}

fn info_of(event: &Event) -> &InfoData {
    match event {
        Event::Info(data) => data,
        other => panic!("expected Info, got {other:?}"),
    }
}

fn member<'a>(value: &'a Json, name: &str) -> &'a Json {
    get_member(value, name).unwrap_or_else(|| panic!("missing {name}"))
}

fn array<'a>(value: &'a Json, name: &str) -> &'a Vec<Json> {
    match member(value, name) {
        Json::Array(items) => items,
        other => panic!("expected an array, got {other:?}"),
    }
}

fn text(s: &str) -> Json {
    Json::Text(s.to_string())
}

fn in_language(language: &str) -> SynthesizeVoice {
    let mut voice = SynthesizeVoice::new();
    voice.language = Some(language.to_string());
    voice
}

#[test]
fn handler_test_synthesize_default_voice() {
    let mut s = single(24000, Tts::Mock);
    let results = s.run(vec![Event::Synthesize(SynthesizeData::new("hello"))]);
    assert_eq!(results.len(), 3);
    match &results[0] {
        Event::AudioStart(data) => {
            assert_eq!(data.rate, 24000);
            assert_eq!(data.width, 2);
            assert_eq!(data.channels, 1);
        },
        other => panic!("expected AudioStart, got {other:?}"),
    }
    assert_eq!(*audio_of(&results[1]), pcm(&[0.5f32; 5]));
    assert!(matches!(results[2], Event::AudioStop(_)));
}

#[test]
fn handler_test_synthesize_named_voice() {
    let mut s = Server::new();
    s.tts("a", "qwen3_tts", 24000, voices(&["alice"]), Tts::Mock);
    s.tts("b", "voxtral_tts", 16000, voices(&["bob"]), Tts::Mock);
    s.serve_models(&["a", "b"], &[]);
    let results = s.run(vec![Event::Synthesize(
        SynthesizeData::new("hi").with_voice(SynthesizeVoice::with_name("bob")),
    )]);
    assert_eq!(rate_of(&results[0]), 16000);
}

#[test]
fn test_synthesize_language_fallback_voice() {
    let mut s = english_and_german();
    let results = s.run(vec![Event::Synthesize(
        SynthesizeData::new("hi").with_voice(in_language("de-DE")),
    )]);
    assert_eq!(rate_of(&results[0]), 16000);
}

#[test]
fn test_synthesize_named_voice_overrides_language() {
    let mut s = english_and_german();
    let mut voice = SynthesizeVoice::with_name("casual");
    voice.language = Some("de".to_string());
    let results = s.run(vec![Event::Synthesize(SynthesizeData::new("hi").with_voice(voice))]);
    assert_eq!(rate_of(&results[0]), 24000);
}

#[test]
fn test_synthesize_language_dispatch_by_model_type() {
    let mut s = Server::new();
    s.rt.set_streaming_enabled(false);
    s.tts("q", "qwen3_tts", 24000, voices(&["q_voice"]), Tts::Mock);
    s.tts("v", "voxtral_tts", 24000, voices(&["v_voice"]), Tts::Mock);
    s.serve_models(&["q", "v"], &[]);
    for name in ["q_voice", "v_voice"] {
        let mut voice = SynthesizeVoice::with_name(name);
        voice.language = Some("de-DE".to_string());
        s.run(vec![Event::Synthesize(SynthesizeData::new("hi").with_voice(voice))]);
    }
    assert_eq!(
        s.languages,
        vec![
            ("q".to_string(), "german".to_string()),
            ("v".to_string(), "de".to_string())
        ]
    );
}

#[test]
fn test_synthesize_unmatched_language_falls_back_to_default() {
    let mut s = english_and_german();
    let results = s.run(vec![Event::Synthesize(
        SynthesizeData::new("hi").with_voice(in_language("fr")),
    )]);
    assert_eq!(rate_of(&results[0]), 24000);
}

#[test]
fn handler_test_synthesize_unknown_voice() {
    let mut s = single(24000, Tts::Mock);
    let results = s.run(vec![Event::Synthesize(
        SynthesizeData::new("hi").with_voice(SynthesizeVoice::with_name("ghost")),
    )]);
    assert_eq!(results.len(), 1);
    assert_eq!(error_of(&results[0]).code.as_deref(), Some("voice-not-found"));
}

#[test]
fn handler_test_synthesize_no_model_loaded() {
    let results = Server::new().run(vec![Event::Synthesize(SynthesizeData::new("hi"))]);
    assert_eq!(results.len(), 1);
    assert!(matches!(&results[0], Event::Error(_)));
}

#[test]
fn handler_test_synthesize_generation_failure() {
    let mut s = Server::new();
    s.tts("m1", "qwen3_tts", 24000, vec![], Tts::Failing);
    s.serve_models(&["m1"], &[]);
    let results = s.run(vec![Event::Synthesize(SynthesizeData::new("hi"))]);
    assert_eq!(results.len(), 1);
    assert!(error_of(&results[0]).text.contains("mock generation failure"));
}

#[test]
fn test_synthesize_streams_multiple_chunks() {
    let mut s = single(24000, Tts::Chunks(vec![0.1, 0.2, 0.3]));
    let results = s.run(vec![Event::Synthesize(SynthesizeData::new("hello"))]);
    assert_eq!(results.len(), 5);
    assert!(matches!(results[0], Event::AudioStart(_)));
    for (i, expected) in [0.1f32, 0.2, 0.3].into_iter().enumerate() {
        assert_eq!(*audio_of(&results[i + 1]), pcm(&[expected]));
    }
    assert!(matches!(results[4], Event::AudioStop(_)));
}

#[test]
fn test_synthesize_streaming_empty_stream() {
    let mut s = single(24000, Tts::Chunks(vec![]));
    let results = s.run(vec![Event::Synthesize(SynthesizeData::new(""))]);
    assert_eq!(results.len(), 2);
    assert!(matches!(results[0], Event::AudioStart(_)));
    assert!(matches!(results[1], Event::AudioStop(_)));
}

#[test]
fn test_synthesize_blob_fallback_when_streaming_disabled() {
    let mut s = single(24000, Tts::Chunks(vec![0.1, 0.2, 0.3]));
    s.rt.set_streaming_enabled(false);
    let results = s.run(vec![Event::Synthesize(SynthesizeData::new("hello"))]);
    assert_eq!(results.len(), 3);
    assert!(matches!(results[0], Event::AudioStart(_)));
    assert_eq!(*audio_of(&results[1]), pcm(&[0.1, 0.2, 0.3]));
    assert!(matches!(results[2], Event::AudioStop(_)));
}

#[test]
fn test_synthesize_mid_stream_failure_sends_stop_then_error() {
    let mut s = Server::new();
    s.tts("m1", "qwen3_tts", 24000, vec![], Tts::MidStreamFailing);
    s.serve_models(&["m1"], &[]);
    let results = s.run(vec![Event::Synthesize(SynthesizeData::new("hi"))]);
    assert_eq!(results.len(), 4);
    assert!(matches!(results[0], Event::AudioStart(_)));
    assert!(matches!(results[1], Event::AudioChunk { .. }));
    assert!(matches!(results[2], Event::AudioStop(_)));
    assert!(error_of(&results[3]).text.contains("mid-stream failure"));
}

#[test]
fn test_synthesize_streamed_text_joins_chunks() {
    let mut s = single(24000, Tts::Mock);
    let results = s.run(vec![
        Event::SynthesizeStart(
            SynthesizeStartData::new().with_voice(SynthesizeVoice::with_name("alice")),
        ),
        Event::SynthesizeChunk(SynthesizeChunkData::new("hel")),
        Event::SynthesizeChunk(SynthesizeChunkData::new("lo")),
        Event::SynthesizeStop,
    ]);
    assert_eq!(results.len(), 4);
    assert!(matches!(results[0], Event::AudioStart(_)));
    assert_eq!(*audio_of(&results[1]), pcm(&[0.5f32; 5]));
    assert!(matches!(results[2], Event::AudioStop(_)));
    assert_eq!(results[3], Event::SynthesizeStopped);
}

#[test]
fn test_synthesize_streamed_text_language_selects_model() {
    let mut s = english_and_german();
    let results = s.run(vec![
        Event::SynthesizeStart(SynthesizeStartData::new().with_language("de-DE")),
        Event::SynthesizeChunk(SynthesizeChunkData::new("hallo")),
        Event::SynthesizeStop,
    ]);
    assert_eq!(rate_of(&results[0]), 16000);
}

#[test]
fn test_synthesize_no_synthesize_stopped_for_one_shot() {
    let mut s = single(24000, Tts::Mock);
    let results = s.run(vec![Event::Synthesize(
        SynthesizeData::new("hello").with_voice(SynthesizeVoice::with_name("alice")),
    )]);
    assert_eq!(results.len(), 3);
    assert!(matches!(results[0], Event::AudioStart(_)));
    assert!(matches!(results[1], Event::AudioChunk { .. }));
    assert!(matches!(results[2], Event::AudioStop(_)));
}

#[test]
fn test_synthesize_streamed_text_unexpected_event() {
    let mut s = single(24000, Tts::Mock);
    let results = s.run(vec![
        Event::SynthesizeStart(SynthesizeStartData::new()),
        Event::SynthesizeChunk(SynthesizeChunkData::new("hi")),
        Event::Ping(PingData::new()),
    ]);
    assert_eq!(results.len(), 1);
    assert!(error_of(&results[0]).text.contains("synthesize-chunk"));
}

#[test]
fn streamed_text_is_concluded_after_a_refusal_too() {
    let results = Server::new().run(vec![
        Event::SynthesizeStart(SynthesizeStartData::new()),
        Event::SynthesizeChunk(SynthesizeChunkData::new("hi")),
        Event::SynthesizeStop,
    ]);
    assert_eq!(
        results,
        vec![
            Event::Error(ErrorData::new("No TTS model loaded")),
            Event::SynthesizeStopped
        ]
    );
}

#[test]
fn handler_test_ping_pong() {
    let results = Server::new().run(vec![Event::Ping(PingData::with_text("hi"))]);
    assert_eq!(results, vec![Event::Pong(PongData::with_text("hi"))]);
}

#[test]
fn handler_test_ping_pong_no_text() {
    let results = Server::new().run(vec![Event::Ping(PingData::new())]);
    assert_eq!(results, vec![Event::Pong(PongData::new())]);
}

#[test]
fn handler_test_describe_no_models() {
    let results = Server::new().run(vec![Event::Describe]);
    assert_eq!(results, vec![Event::Info(InfoData::new())]);
}

#[test]
fn handler_test_describe_single_model() {
    let mut s = single(24000, Tts::Mock);
    let results = s.run(vec![Event::Describe]);
    assert_eq!(results.len(), 1);
    let data = info_of(&results[0]);
    assert_eq!(data.tts.len(), 1);
    assert!(data.asr.is_empty());
    assert!(data.wake.is_empty());
    let program = &data.tts[0];
    assert_eq!(*member(program, "name"), text("m1"));
    assert_eq!(*member(program, "supports_synthesize_streaming"), Json::Bool(true));
    let voices = array(program, "voices");
    assert_eq!(voices.len(), 1);
    assert_eq!(*member(&voices[0], "name"), text("alice"));
    assert_eq!(*array(&voices[0], "languages"), vec![text("en")]);
    assert_eq!(*member(program, "attribution"), crane_attribution());
}

#[test]
fn handler_test_describe_multiple_models() {
    let mut s = Server::new();
    s.tts("a", "qwen3_tts", 24000, voices(&["alice"]), Tts::Mock);
    s.tts("b", "voxtral_tts", 16000, voices(&["bob"]), Tts::Mock);
    s.serve_models(&["a", "b"], &[]);
    let results = s.run(vec![Event::Describe]);
    let data = info_of(&results[0]);
    assert_eq!(data.tts.len(), 2);
    let names: Vec<&Json> = data.tts.iter().map(|p| member(p, "name")).collect();
    assert_eq!(names, vec![&text("a"), &text("b")]);
}

#[test]
fn models_are_listed_by_name_whatever_order_they_came_in() {
    let mut s = Server::new();
    for name in ["m2", "m10", "m1"] {
        s.tts(name, "qwen3_tts", 24000, voices(&[name]), Tts::Mock);
        s.asr(name, &[], Asr::Mock);
    }
    s.serve_models(&["m2", "m10", "m1"], &["m2", "m10", "m1"]);
    assert_eq!(s.vm.default_model(), Some("m2"));
    assert_eq!(s.am.default_model(), Some("m2"));
    let results = s.run(vec![Event::Describe]);
    let data = info_of(&results[0]);
    for programs in [&data.tts, &data.asr] {
        let names: Vec<&Json> = programs.iter().map(|p| member(p, "name")).collect();
        assert_eq!(names, vec![&text("m1"), &text("m10"), &text("m2")]);
    }
}

#[test]
fn handler_test_describe_voice_conflict_excludes_duplicate() {
    let mut s = Server::new();
    s.tts("first", "qwen3_tts", 24000, voices(&["alice"]), Tts::Mock);
    s.tts("second", "voxtral_tts", 16000, voices(&["alice"]), Tts::Mock);
    s.serve_models(&["first", "second"], &[]);
    let results = s.run(vec![Event::Describe]);
    let data = info_of(&results[0]);
    let by_name = |name: &str| data.tts.iter().find(|p| *member(p, "name") == text(name)).unwrap();
    assert_eq!(array(by_name("first"), "voices").len(), 1);
    assert!(array(by_name("second"), "voices").is_empty());
}

#[test]
fn handler_test_describe_excludes_model_not_in_voice_map() {
    let mut s = Server::new();
    s.tts("configured", "qwen3_tts", 24000, voices(&["alice"]), Tts::Mock);
    s.tts("unconfigured", "voxtral_tts", 16000, voices(&["bob"]), Tts::Mock);
    s.serve_models(&["configured"], &[]);
    let results = s.run(vec![Event::Describe]);
    let data = info_of(&results[0]);
    assert_eq!(data.tts.len(), 1);
    assert_eq!(*member(&data.tts[0], "name"), text("configured"));
}

#[test]
fn test_describe_streaming_is_true() {
    let mut s = single(24000, Tts::Mock);
    let results = s.run(vec![Event::Describe]);
    assert_eq!(
        *member(&info_of(&results[0]).tts[0], "supports_synthesize_streaming"),
        Json::Bool(true)
    );
}

#[test]
fn test_describe_streaming_disabled() {
    let mut s = single(24000, Tts::Mock);
    s.rt.set_streaming_enabled(false);
    let results = s.run(vec![Event::Describe]);
    assert_eq!(
        *member(&info_of(&results[0]).tts[0], "supports_synthesize_streaming"),
        Json::Bool(false)
    );
}

#[test]
fn test_describe_asr_streaming_is_true() {
    let results = single_asr(Asr::Mock).run(vec![Event::Describe]);
    assert_eq!(
        *member(&info_of(&results[0]).asr[0], "supports_transcript_streaming"),
        Json::Bool(true)
    );
}

#[test]
fn test_describe_asr_streaming_disabled() {
    let mut s = single_asr(Asr::Mock);
    s.rt.set_streaming_enabled(false);
    let results = s.run(vec![Event::Describe]);
    assert_eq!(
        *member(&info_of(&results[0]).asr[0], "supports_transcript_streaming"),
        Json::Bool(false)
    );
}

#[test]
fn test_describe_single_asr_model() {
    let results = single_asr(Asr::Mock).run(vec![Event::Describe]);
    let data = info_of(&results[0]);
    assert!(data.tts.is_empty());
    assert_eq!(data.asr.len(), 1);
    let program = &data.asr[0];
    assert_eq!(*member(program, "name"), text("m1"));
    assert_eq!(*member(program, "supports_transcript_streaming"), Json::Bool(true));
    let models = array(program, "models");
    assert_eq!(models.len(), 1);
    assert_eq!(*member(&models[0], "name"), text("m1"));
    assert!(array(&models[0], "languages").is_empty());
}

#[test]
fn test_describe_asr_model_languages_populated() {
    let mut s = Server::new();
    s.asr("m1", &["de", "en"], Asr::Named("m1"));
    s.serve_models(&[], &["m1"]);
    let results = s.run(vec![Event::Describe]);
    let models = array(&info_of(&results[0]).asr[0], "models");
    assert_eq!(*array(&models[0], "languages"), vec![text("de"), text("en")]);
}

#[test]
fn test_describe_excludes_asr_model_not_in_asr_map() {
    let mut s = Server::new();
    s.asr("configured", &[], Asr::Mock);
    s.asr("unconfigured", &[], Asr::Mock);
    s.serve_models(&[], &["configured"]);
    let results = s.run(vec![Event::Describe]);
    let data = info_of(&results[0]);
    assert_eq!(data.asr.len(), 1);
    assert_eq!(*member(&data.asr[0], "name"), text("configured"));
}

#[test]
fn test_describe_tts_and_asr_together() {
    let mut s = Server::new();
    s.tts("t1", "qwen3_tts", 24000, voices(&["alice"]), Tts::Mock);
    s.asr("a1", &[], Asr::Mock);
    s.serve_models(&["t1"], &["a1"]);
    let results = s.run(vec![Event::Describe]);
    let data = info_of(&results[0]);
    assert_eq!(data.tts.len(), 1);
    assert_eq!(*member(&data.tts[0], "name"), text("t1"));
    assert_eq!(data.asr.len(), 1);
    assert_eq!(*member(&data.asr[0], "name"), text("a1"));
}

#[test]
fn handler_test_unknown_event() {
    let results = Server::new().run(vec![Event::Unknown {
        event_type: "future-event".to_string(),
        data: Json::Object(vec![]),
        payload: None,
    }]);
    assert_eq!(results.len(), 1);
    assert_eq!(error_of(&results[0]).code.as_deref(), Some("unknown-event"));
}

#[test]
fn an_event_of_no_exchange_is_ignored() {
    let results = Server::new().run(vec![
        Event::AudioStop(AudioStopData::new()),
        Event::SynthesizeStop,
        Event::Ping(PingData::new()),
    ]);
    assert_eq!(results, vec![Event::Pong(PongData::new())]);
}

#[test]
fn handler_test_eof_returns_ok() {
    assert!(Server::new().run_bytes(&[]).is_empty());
}

#[test]
fn handler_test_multiple_events_sequential() {
    let mut s = single(24000, Tts::Mock);
    let results = s.run(vec![
        Event::Ping(PingData::with_text("a")),
        Event::Synthesize(SynthesizeData::new("hi")),
        Event::Ping(PingData::with_text("b")),
    ]);
    assert_eq!(results.len(), 5);
    assert_eq!(results[0], Event::Pong(PongData::with_text("a")));
    assert!(matches!(results[1], Event::AudioStart(_)));
    assert!(matches!(results[2], Event::AudioChunk { .. }));
    assert!(matches!(results[3], Event::AudioStop(_)));
    assert_eq!(results[4], Event::Pong(PongData::with_text("b")));
}

#[test]
fn handler_test_voice_map_first_wins() {
    let mut s = Server::new();
    s.tts("first", "qwen3_tts", 24000, voices(&["alice"]), Tts::Mock);
    s.tts("second", "voxtral_tts", 16000, voices(&["alice"]), Tts::Mock);
    let vm = VoiceMap::new(&names(&["first", "second"]), &s.rt);
    assert_eq!(vm.model_for_voice("alice"), Some("first"));
}

#[test]
fn handler_test_voice_map_separate_voices() {
    let mut s = Server::new();
    s.tts("a", "qwen3_tts", 24000, voices(&["alice"]), Tts::Mock);
    s.tts("b", "voxtral_tts", 16000, voices(&["bob"]), Tts::Mock);
    let vm = VoiceMap::new(&names(&["a", "b"]), &s.rt);
    assert_eq!(vm.model_for_voice("alice"), Some("a"));
    assert_eq!(vm.model_for_voice("bob"), Some("b"));
    assert_eq!(vm.model_for_voice("ghost"), None);
}

#[test]
fn handler_test_voice_map_default_model() {
    let s = single(24000, Tts::Mock);
    assert_eq!(s.vm.default_model(), Some("m1"));
    assert!(s.vm.has_model("m1"));
    assert!(!s.vm.has_model("m2"));
}

#[test]
fn handler_test_voice_map_no_models() {
    let s = Server::new();
    assert_eq!(s.vm.default_model(), None);
    assert_eq!(s.vm.model_for_voice("anything"), None);
}

#[test]
fn test_voice_map_language_lookup() {
    let mut s = Server::new();
    s.tts(
        "m1",
        "qwen3_tts",
        24000,
        vec![voice("de_female", &["de"]), voice("casual", &["en"])],
        Tts::Mock,
    );
    let vm = VoiceMap::new(&names(&["m1"]), &s.rt);
    assert_eq!(vm.model_for_language("de"), Some(("m1", "de_female")));
    assert_eq!(vm.model_for_language("DE-DE"), Some(("m1", "de_female")));
    assert_eq!(vm.model_for_language("de_DE"), Some(("m1", "de_female")));
    assert_eq!(vm.model_for_language("fr"), None);
}

#[test]
fn test_voice_map_language_first_model_wins() {
    let mut s = Server::new();
    s.tts("first", "qwen3_tts", 24000, vec![voice("alice", &["de"])], Tts::Mock);
    s.tts("second", "voxtral_tts", 16000, vec![voice("bob", &["de"])], Tts::Mock);
    let vm = VoiceMap::new(&names(&["first", "second"]), &s.rt);
    assert_eq!(vm.model_for_language("de"), Some(("first", "alice")));
}

#[test]
fn test_asr_model_map_single_model() {
    let s = single_asr(Asr::Mock);
    assert!(s.am.has_model("m1"));
}

#[test]
fn test_asr_model_map_multiple_models() {
    let mut s = Server::new();
    s.asr("a", &[], Asr::Mock);
    s.asr("b", &[], Asr::Mock);
    let am = AsrModelMap::new(&names(&["a", "b"]), &s.rt);
    assert!(am.has_model("a"));
    assert!(am.has_model("b"));
    assert!(!am.has_model("ghost"));
    assert_eq!(am.model_name("b"), Some("b"));
    assert_eq!(am.model_name("ghost"), None);
}

#[test]
fn test_asr_model_map_default_model() {
    let s = single_asr(Asr::Mock);
    assert_eq!(s.am.default_model(), Some("m1"));
}

#[test]
fn test_asr_model_map_no_models() {
    let s = Server::new();
    assert_eq!(s.am.default_model(), None);
    assert!(!s.am.has_model("anything"));
}

#[test]
fn test_asr_model_map_skips_names_not_in_runtime() {
    let mut s = Server::new();
    s.asr("m1", &[], Asr::Mock);
    let am = AsrModelMap::new(&names(&["m1", "ghost"]), &s.rt);
    assert!(am.has_model("m1"));
    assert!(!am.has_model("ghost"));
}

#[test]
fn test_asr_model_map_language_lookup() {
    let mut s = Server::new();
    s.asr("m1", &["de", "en"], Asr::Named("m1"));
    let am = AsrModelMap::new(&names(&["m1"]), &s.rt);
    assert_eq!(am.model_for_language("de"), Some("m1"));
    assert_eq!(am.model_for_language("DE-DE"), Some("m1"));
    assert_eq!(am.model_for_language("de_DE"), Some("m1"));
    assert_eq!(am.model_for_language("fr"), None);
}

#[test]
fn test_asr_model_map_language_first_model_wins() {
    let mut s = Server::new();
    s.asr("first", &["de"], Asr::Named("first"));
    s.asr("second", &["de"], Asr::Named("second"));
    let am = AsrModelMap::new(&names(&["first", "second"]), &s.rt);
    assert_eq!(am.model_for_language("de"), Some("first"));
}

fn mock_asr_format() -> AudioFormat {
    AudioFormat { rate: 16000, width: 2, channels: 1 }
}

fn chunk(format: AudioFormat, samples: usize) -> Event {
    Event::AudioChunk { data: AudioChunkData::new(format), audio: pcm(&vec![0.0; samples]) }
}

fn asking(data: TranscribeData, samples: usize) -> Vec<Event> {
    vec![
        Event::Transcribe(data),
        Event::AudioStart(AudioStartData::new(mock_asr_format())),
        chunk(mock_asr_format(), samples),
        Event::AudioStop(AudioStopData::new()),
    ]
}

#[test]
fn test_transcribe_default_model() {
    let mut s = single_asr(Asr::Mock);
    s.rt.set_streaming_enabled(false);
    let results = s.run(asking(TranscribeData::new(), 4));
    assert_eq!(results, vec![Event::Transcript(TranscriptData::new("heard 4 samples"))]);
}

#[test]
fn test_transcribe_named_model() {
    let mut s = Server::new();
    s.rt.set_streaming_enabled(false);
    s.asr("a", &[], Asr::Mock);
    s.asr("b", &[], Asr::Mock);
    s.serve_models(&[], &["a", "b"]);
    let results = s.run(asking(TranscribeData::new().with_name("b"), 2));
    assert_eq!(results, vec![Event::Transcript(TranscriptData::new("heard 2 samples"))]);
}

#[test]
fn test_transcribe_language_hint_forwarded() {
    let mut s = single_asr(Asr::Mock);
    s.rt.set_streaming_enabled(false);
    let results = s.run(asking(TranscribeData::new().with_language("de"), 1));
    assert_eq!(
        results,
        vec![Event::Transcript(TranscriptData::new("heard 1 samples").with_language("de"))]
    );
}

#[test]
fn test_transcribe_language_selects_model() {
    let mut s = Server::new();
    s.rt.set_streaming_enabled(false);
    s.asr("default", &[], Asr::Failing);
    s.asr("german", &["de"], Asr::Named("german"));
    s.serve_models(&[], &["default", "german"]);
    let results = s.run(asking(TranscribeData::new().with_language("de"), 1));
    assert_eq!(
        results,
        vec![Event::Transcript(
            TranscriptData::new("german: heard 1 samples").with_language("de")
        )]
    );
}

#[test]
fn test_transcribe_name_overrides_language() {
    let mut s = Server::new();
    s.rt.set_streaming_enabled(false);
    s.asr("german", &["de"], Asr::Named("german"));
    s.asr("named", &[], Asr::Named("named"));
    s.serve_models(&[], &["german", "named"]);
    let results = s.run(asking(TranscribeData::new().with_name("named").with_language("de"), 1));
    assert_eq!(
        results,
        vec![Event::Transcript(TranscriptData::new("named: heard 1 samples").with_language("de"))]
    );
}

#[test]
fn test_transcribe_unmatched_language_falls_back_to_default() {
    let mut s = Server::new();
    s.rt.set_streaming_enabled(false);
    s.asr("default", &["en"], Asr::Named("default"));
    s.asr("german", &["de"], Asr::Named("german"));
    s.serve_models(&[], &["default", "german"]);
    let results = s.run(asking(TranscribeData::new().with_language("fr"), 1));
    assert_eq!(
        results,
        vec![Event::Transcript(
            TranscriptData::new("default: heard 1 samples").with_language("fr")
        )]
    );
}

#[test]
fn test_transcribe_no_asr_model_loaded() {
    let results = Server::new().run(vec![Event::Transcribe(TranscribeData::new())]);
    assert_eq!(results.len(), 1);
    assert_eq!(error_of(&results[0]).code, None);
}

#[test]
fn handler_test_transcribe_unknown_model() {
    let mut s = single_asr(Asr::Mock);
    let results = s.run(vec![Event::Transcribe(TranscribeData::new().with_name("ghost"))]);
    assert_eq!(results.len(), 1);
    assert_eq!(error_of(&results[0]).code.as_deref(), Some("asr-model-not-found"));
}

fn refused_format(format: AudioFormat) {
    let results = single_asr(Asr::Mock).run(vec![
        Event::Transcribe(TranscribeData::new()),
        Event::AudioStart(AudioStartData::new(format)),
    ]);
    assert_eq!(results.len(), 1);
    assert_eq!(error_of(&results[0]).code.as_deref(), Some("unsupported-audio-format"));
}

#[test]
fn test_transcribe_wrong_sample_rate() {
    refused_format(AudioFormat { rate: 8000, ..mock_asr_format() });
}

#[test]
fn test_transcribe_wrong_channels() {
    refused_format(AudioFormat { channels: 2, ..mock_asr_format() });
}

#[test]
fn test_transcribe_wrong_width() {
    refused_format(AudioFormat { width: 4, ..mock_asr_format() });
}

#[test]
fn test_transcribe_chunk_format_mismatch() {
    let results = single_asr(Asr::Mock).run(vec![
        Event::Transcribe(TranscribeData::new()),
        Event::AudioStart(AudioStartData::new(mock_asr_format())),
        chunk(AudioFormat { rate: 8000, ..mock_asr_format() }, 4),
    ]);
    assert_eq!(results.len(), 1);
    assert_eq!(error_of(&results[0]).code.as_deref(), Some("unsupported-audio-format"));
}

#[test]
fn test_transcribe_multi_chunk() {
    let mut s = single_asr(Asr::Mock);
    s.rt.set_streaming_enabled(false);
    let results = s.run(vec![
        Event::Transcribe(TranscribeData::new()),
        Event::AudioStart(AudioStartData::new(mock_asr_format())),
        chunk(mock_asr_format(), 2),
        chunk(mock_asr_format(), 3),
        Event::AudioStop(AudioStopData::new()),
    ]);
    assert_eq!(results, vec![Event::Transcript(TranscriptData::new("heard 5 samples"))]);
}

#[test]
fn test_transcribe_audio_too_large() {
    let too_many_samples = MAX_TRANSCRIBE_AUDIO_BYTES / 2 + 1;
    let results = single_asr(Asr::Mock).run(vec![
        Event::Transcribe(TranscribeData::new()),
        Event::AudioStart(AudioStartData::new(mock_asr_format())),
        chunk(mock_asr_format(), too_many_samples),
    ]);
    assert_eq!(results.len(), 1);
    assert_eq!(error_of(&results[0]).code.as_deref(), Some("audio-too-large"));
}

#[test]
fn as_much_audio_as_is_allowed_is_transcribed() {
    let mut s = single_asr(Asr::Mock);
    s.rt.set_streaming_enabled(false);
    let samples = MAX_TRANSCRIBE_AUDIO_BYTES / 2;
    let results = s.run(asking(TranscribeData::new(), samples));
    assert_eq!(
        results,
        vec![Event::Transcript(TranscriptData::new(&format!("heard {samples} samples")))]
    );
}

#[test]
fn test_transcribe_unexpected_event_during_chunks() {
    let results = single_asr(Asr::Mock).run(vec![
        Event::Transcribe(TranscribeData::new()),
        Event::AudioStart(AudioStartData::new(mock_asr_format())),
        Event::Ping(PingData::new()),
    ]);
    assert_eq!(results.len(), 1);
    assert!(matches!(&results[0], Event::Error(_)));
}

#[test]
fn test_transcribe_transcription_failure() {
    let results = single_asr(Asr::Failing).run(asking(TranscribeData::new(), 4));
    assert_eq!(results.len(), 1);
    assert!(error_of(&results[0]).text.contains("mock transcription failure"));
}

#[test]
fn test_transcribe_vad_skipped_for_incompatible_sample_rate() {
    let mut s = Server::new();
    s.rt.set_streaming_enabled(false);
    s.asr_at("m1", 24000, &[], Asr::Mock);
    s.rt.set_vad();
    s.serve_models(&[], &["m1"]);
    let format = AudioFormat { rate: 24000, width: 2, channels: 1 };
    let results = s.run(vec![
        Event::Transcribe(TranscribeData::new()),
        Event::AudioStart(AudioStartData::new(format)),
        chunk(format, 4),
        Event::AudioStop(AudioStopData::new()),
    ]);
    assert_eq!(results, vec![Event::Transcript(TranscriptData::new("heard 4 samples"))]);
}

#[test]
fn test_transcribe_vad_filter_failure_sends_error() {
    let mut s = single_asr(Asr::Mock);
    s.rt.set_streaming_enabled(false);
    s.rt.set_vad();
    let results = s.run(asking(TranscribeData::new(), 1024));
    assert_eq!(results.len(), 1);
    assert!(error_of(&results[0]).text.contains("VAD filtering failed"));
}

#[test]
fn vad_takes_two_rates() {
    let mut rt = ModelRuntime::new();
    assert_eq!(vad_decision(&rt, 16000), VadDecision::Skip);
    rt.set_vad();
    assert!(rt.has_vad());
    assert_eq!(vad_decision(&rt, 8000), VadDecision::Apply);
    assert_eq!(vad_decision(&rt, 16000), VadDecision::Apply);
    assert_eq!(vad_decision(&rt, 24000), VadDecision::IncompatibleRate);
}

#[test]
fn test_transcribe_streaming_multi_chunk() {
    let mut s = single_asr(Asr::Parts(vec!["one", "one two", "one two three"]));
    let results = s.run(asking(TranscribeData::new(), 4));
    assert_eq!(
        results,
        vec![
            Event::TranscriptStart(TranscriptStartData::new()),
            Event::TranscriptChunk(TranscriptChunkData::new("one")),
            Event::TranscriptChunk(TranscriptChunkData::new("one two")),
            Event::Transcript(TranscriptData::new("one two three")),
            Event::TranscriptStop,
        ]
    );
}

#[test]
fn test_transcribe_streaming_single_chunk_default_impl() {
    let results = single_asr(Asr::Mock).run(asking(TranscribeData::new(), 4));
    assert_eq!(
        results,
        vec![
            Event::TranscriptStart(TranscriptStartData::new()),
            Event::Transcript(TranscriptData::new("heard 4 samples")),
            Event::TranscriptStop,
        ]
    );
}

#[test]
fn test_transcribe_streaming_language_forwarded() {
    let mut s = single_asr(Asr::Parts(vec!["hallo"]));
    let results = s.run(asking(TranscribeData::new().with_language("de"), 1));
    assert_eq!(
        results,
        vec![
            Event::TranscriptStart(TranscriptStartData::new().with_language("de")),
            Event::Transcript(TranscriptData::new("hallo").with_language("de")),
            Event::TranscriptStop,
        ]
    );
}

#[test]
fn test_transcribe_streaming_failure_before_start() {
    let results = single_asr(Asr::Failing).run(asking(TranscribeData::new(), 4));
    assert_eq!(results.len(), 1);
    assert!(error_of(&results[0]).text.contains("mock transcription failure"));
}

#[test]
fn test_transcribe_streaming_mid_stream_failure_sends_stop_then_error() {
    let results = single_asr(Asr::MidStreamFailing).run(asking(TranscribeData::new(), 4));
    assert_eq!(results.len(), 4);
    assert_eq!(results[0], Event::TranscriptStart(TranscriptStartData::new()));
    assert_eq!(results[1], Event::TranscriptChunk(TranscriptChunkData::new("partial")));
    assert_eq!(results[2], Event::TranscriptStop);
    assert!(error_of(&results[3]).text.contains("mock mid-stream failure"));
}

#[test]
fn test_transcribe_streaming_empty_stream() {
    let results = single_asr(Asr::Parts(vec![])).run(asking(TranscribeData::new(), 4));
    assert_eq!(
        results,
        vec![
            Event::TranscriptStart(TranscriptStartData::new()),
            Event::Transcript(TranscriptData::new("")),
            Event::TranscriptStop,
        ]
    );
}

#[test]
fn test_transcribe_missing_audio_start() {
    let results = single_asr(Asr::Mock).run(vec![
        Event::Transcribe(TranscribeData::new()),
        Event::Ping(PingData::new()),
    ]);
    assert_eq!(results.len(), 1);
    assert!(matches!(&results[0], Event::Error(_)));
}

#[test]
fn handler_test_audio_start_width_is_bytes() {
    let mut s = single(24000, Tts::Mock);
    let results = s.run(vec![Event::Synthesize(SynthesizeData::new("hi"))]);
    match &results[0] {
        Event::AudioStart(data) => assert_eq!(data.width, 2),
        other => panic!("expected AudioStart, got {other:?}"),
    }
}

#[test]
fn a_connection_is_idle_again_after_an_answer() {
    let mut s = single(24000, Tts::Mock);
    let results = s.run(vec![
        Event::SynthesizeStart(SynthesizeStartData::new()),
        Event::Describe,
        Event::Transcribe(TranscribeData::new()),
        Event::Synthesize(SynthesizeData::new("hi")),
    ]);
    assert_eq!(results.len(), 5);
    assert!(matches!(&results[0], Event::Error(_)));
    assert!(matches!(&results[1], Event::Error(_)));
    assert!(matches!(&results[2], Event::AudioStart(_)));
}

#[test]
fn streamed_text_is_spoken_like_the_joined_text() {
    let mut s = single(24000, Tts::Mock);
    let mut expected = s.run(vec![Event::Synthesize(SynthesizeData::new("hello"))]);
    expected.push(Event::SynthesizeStopped);
    for cut in 0..5 {
        let results = s.run(vec![
            Event::SynthesizeStart(SynthesizeStartData::new()),
            Event::SynthesizeChunk(SynthesizeChunkData::new(&"hello"[..cut])),
            Event::Synthesize(SynthesizeData::new("for older servers")),
            Event::SynthesizeChunk(SynthesizeChunkData::new(&"hello"[cut..])),
            Event::SynthesizeStop,
        ]);
        assert_eq!(results, expected);
    }
}

#[test]
fn a_format_message_names_both_formats() {
    assert_eq!(
        unsupported_audio_format_message(8000, 4, 2, 16000),
        "Unsupported audio format: rate=8000, width=4, channels=2 (expected rate=16000, width=2, \
         channels=1)"
    );
}

#[test]
fn language_tags_match_by_their_base() {
    assert_eq!(base_language_subtag("DE-de"), "de");
    assert_eq!(base_language_subtag("de_DE"), "de");
    assert_eq!(base_language_subtag("fr"), "fr");
    assert_eq!(base_language_subtag(&base_language_subtag("EN-us")), "en");
}

#[test]
fn languages_in_the_form_that_a_model_takes() {
    assert_eq!(model_language("qwen3_tts", None), "auto");
    assert_eq!(model_language("qwen3_tts", Some("en-GB")), "english");
    assert_eq!(model_language("qwen3_tts", Some("zh")), "chinese");
    assert_eq!(model_language("voxtral_tts", Some("en-GB")), "en");
}

#[test]
fn voices_and_models_resolve() {
    let s = english_and_german();
    let mut request = SynthesizeData::new("hi");
    assert_eq!(
        resolve_voice(&s.vm, &request),
        VoiceResolution::Found { model_name: "a".to_string(), voice_name: None }
    );
    request = request.with_voice(in_language("de"));
    assert_eq!(
        resolve_voice(&s.vm, &request),
        VoiceResolution::Found {
            model_name: "b".to_string(),
            voice_name: Some("de_female".to_string())
        }
    );
    request = request.with_voice(SynthesizeVoice::with_name("ghost"));
    assert_eq!(resolve_voice(&s.vm, &request), VoiceResolution::NotFound("ghost".to_string()));
    assert_eq!(
        resolve_voice(&Server::new().vm, &SynthesizeData::new("hi")),
        VoiceResolution::NoModel
    );
    let s = single_asr(Asr::Mock);
    assert_eq!(
        resolve_asr_model(&s.am, &TranscribeData::new()),
        AsrResolution::Found("m1".to_string())
    );
    assert_eq!(
        resolve_asr_model(&s.am, &TranscribeData::new().with_name("ghost")),
        AsrResolution::NotFound("ghost".to_string())
    );
    assert_eq!(
        resolve_asr_model(&Server::new().am, &TranscribeData::new()),
        AsrResolution::NoModel
    );
}

#[test]
fn errors_carry_their_code() {
    assert_eq!(error_data("t", Some("c")), ErrorData::new("t").with_code("c"));
    assert_eq!(refusal("t", None), Event::Error(ErrorData::new("t")));
}

#[test]
fn audio_events_carry_the_format() {
    assert_eq!(audio_format(info(24000)), AudioFormat { rate: 24000, width: 2, channels: 1 });
    assert_eq!(
        audio_start_event(info(24000)),
        Event::AudioStart(AudioStartData::new(audio_format(info(24000))))
    );
    assert_eq!(
        audio_chunk_event(info(24000), vec![1, 2]),
        Event::AudioChunk {
            data: AudioChunkData::new(audio_format(info(24000))),
            audio: vec![1, 2]
        }
    );
}

#[test]
fn each_failure_to_speak_is_reported() {
    for (item, message) in [
        (SpeechItem::Unavailable("gone".to_string()), "gone"),
        (SpeechItem::NoResponse, "did not respond"),
        (SpeechItem::Failed("no".to_string()), "no"),
    ] {
        assert!(ends_speech(&item));
        assert!(!ends_speech(&SpeechItem::Chunk(vec![1])));
        let blob = handle_synthesize_blob(info(24000), item.clone(), false);
        assert_eq!(blob.len(), 1);
        assert!(error_of(&blob[0]).text.contains(message));
        let streamed = SpeechReply::new(info(24000), true).step(item);
        assert_eq!(streamed.len(), 2);
        assert!(error_of(&streamed[0]).text.contains(message));
        assert_eq!(streamed[1], Event::SynthesizeStopped);
    }
}

#[test]
fn audio_that_cannot_be_encoded_is_stopped_first() {
    let item = SpeechItem::EncodeFailed("odd".to_string());
    let expected = vec![
        audio_start_event(info(24000)),
        Event::AudioStop(AudioStopData::new()),
        Event::Error(ErrorData::new("Audio encoding failed: odd")),
    ];
    assert_eq!(handle_synthesize_blob(info(24000), item.clone(), false), expected);
    assert_eq!(SpeechReply::new(info(24000), false).step(item), expected);
}

#[test]
fn each_failure_to_transcribe_is_reported() {
    for (item, message) in [
        (TranscriptItem::FilterFailed("f".to_string()), "VAD filtering failed: f"),
        (TranscriptItem::Unavailable("u".to_string()), "ASR engine unavailable: u"),
        (TranscriptItem::NoResponse, "ASR engine did not respond"),
        (TranscriptItem::Failed("x".to_string()), "ASR transcription failed: x"),
    ] {
        let expected = Event::Error(ErrorData::new(message));
        assert!(ends_transcript(&item));
        assert_eq!(handle_transcribe_batch(item.clone()), expected);
        assert_eq!(TranscriptReply::new().step(item), vec![expected]);
    }
}

/// The client's end of a connection to a server.
struct Link {
    server: Server,
    output: Vec<u8>,
    at: usize,
}

impl Link {
    fn new(server: Server) -> Self {
        Link { server, output: Vec::new(), at: 0 }
    }

    fn send(&mut self, event: Event) {
        let bytes = write_event(&event).unwrap();
        let reply = self.server.run_bytes(&bytes);
        self.output.extend(reply);
    }

    fn read(&mut self) -> Option<Event> {
        let (event, used) = read_event(&self.output[self.at..]).unwrap()?;
        self.at += used;
        Some(event)
    }

    fn synthesize(&mut self, data: SynthesizeData) -> Result<SynthesizeResponse, ClientError> {
        self.send(Event::Synthesize(data));
        let format = start_synthesis(Ok(self.read()))?;
        let mut response = SynthesizeResponse::new(format);
        while !response.step(Ok(self.read()))? {}
        let trailing = self.read();
        check_trailing_error(trailing.map(|event| Ok(Some(event))))?;
        Ok(response)
    }
}

#[test]
fn lib_tcp_ping_pong() {
    let mut link = Link::new(Server::new());
    link.send(Event::Ping(PingData::with_text("hi")));
    assert_eq!(link.read(), Some(Event::Pong(PongData::with_text("hi"))));
}

#[test]
fn lib_tcp_synthesize_round_trip() {
    let mut link = Link::new(single(24000, Tts::Mock));
    link.send(Event::Synthesize(SynthesizeData::new("hi")));
    match link.read().unwrap() {
        Event::AudioStart(data) => {
            assert_eq!(data.rate, 24000);
            assert_eq!(data.width, 2);
            assert_eq!(data.channels, 1);
        },
        other => panic!("expected AudioStart, got {other:?}"),
    }
    assert_eq!(*audio_of(&link.read().unwrap()), pcm(&[0.5f32; 2]));
    assert!(matches!(link.read().unwrap(), Event::AudioStop(_)));
}

#[test]
fn test_client_ping() {
    let mut link = Link::new(Server::new());
    link.send(Event::Ping(PingData::with_text("hi")));
    let pong = ping_response(Ok(link.read())).unwrap();
    assert_eq!(pong.text.as_deref(), Some("hi"));
}

#[test]
fn test_client_describe() {
    let mut link = Link::new(single(24000, Tts::Mock));
    link.send(Event::Describe);
    let info = describe_response(Ok(link.read())).unwrap();
    assert!(!info.tts.is_empty());
    let voices = array(&info.tts[0], "voices");
    assert!(voices.iter().any(|v| *member(v, "name") == text("alice")));
}

#[test]
fn test_client_synthesize() {
    let mut link = Link::new(single(24000, Tts::Mock));
    let response = link.synthesize(SynthesizeData::new("hi")).unwrap();
    assert_eq!(response.format.rate, 24000);
    assert_eq!(response.format.width, 2);
    assert_eq!(response.format.channels, 1);
    assert_eq!(response.audio, pcm(&[0.5f32; 2]));
}

#[test]
fn test_client_synthesize_streaming() {
    let mut link = Link::new(single(24000, Tts::Mock));
    link.send(Event::Synthesize(SynthesizeData::new("hi")));
    let format = start_synthesis(Ok(link.read())).unwrap();
    let stream = SynthesisStream::new(format);
    let mut total_bytes = 0usize;
    let mut chunk_count = 0usize;
    loop {
        match stream.step(Ok(link.read())).unwrap() {
            StreamStep::Deliver(chunk) => {
                total_bytes += chunk.len();
                chunk_count += 1;
            },
            StreamStep::Discard => {},
            StreamStep::Done => break,
        }
    }
    assert_eq!(format.rate, 24000);
    assert!(chunk_count > 0);
    assert_eq!(total_bytes, pcm(&[0.5f32; 2]).len());
}

#[test]
fn test_client_synthesize_error() {
    let mut link = Link::new(single(24000, Tts::Mock));
    let request = SynthesizeData::new("hi").with_voice(SynthesizeVoice::with_name("ghost"));
    match link.synthesize(request).unwrap_err() {
        ClientError::ServerError { code, .. } => {
            assert_eq!(code.as_deref(), Some("voice-not-found"));
        },
        other => panic!("expected ServerError, got {other:?}"),
    }
}

#[test]
fn test_client_synthesize_streaming_break() {
    let mut link = Link::new(single(24000, Tts::Chunks(vec![0.1, 0.2])));
    link.send(Event::Synthesize(SynthesizeData::new("hi")));
    let format = start_synthesis(Ok(link.read())).unwrap();
    let mut stream = SynthesisStream::new(format);
    let mut chunk_count = 0usize;
    loop {
        match stream.step(Ok(link.read())).unwrap() {
            StreamStep::Deliver(_) => {
                chunk_count += 1;
                stream.stop();
            },
            StreamStep::Discard => {},
            StreamStep::Done => break,
        }
    }
    assert_eq!(chunk_count, 1);
    link.send(Event::Ping(PingData::with_text("still alive")));
    let pong = ping_response(Ok(link.read())).unwrap();
    assert_eq!(pong.text.as_deref(), Some("still alive"));
}

fn mid_stream_error_link() -> Link {
    let mut s = Server::new();
    s.tts("m1", "qwen3_tts", 24000, vec![], Tts::MidStreamFailing);
    s.serve_models(&["m1"], &[]);
    Link::new(s)
}

#[test]
fn synthesize_detects_mid_stream_error() {
    match mid_stream_error_link().synthesize(SynthesizeData::new("hi")).unwrap_err() {
        ClientError::ServerError { text, .. } => assert!(text.contains("mid-stream failure")),
        other => panic!("expected ServerError, got {other:?}"),
    }
}

#[test]
fn synthesize_streaming_detects_mid_stream_error() {
    let mut link = mid_stream_error_link();
    link.send(Event::Synthesize(SynthesizeData::new("hi")));
    let stream = SynthesisStream::new(start_synthesis(Ok(link.read())).unwrap());
    while !matches!(stream.step(Ok(link.read())).unwrap(), StreamStep::Done) {}
    match check_trailing_error(Some(Ok(link.read()))).unwrap_err() {
        ClientError::ServerError { text, .. } => assert!(text.contains("mid-stream failure")),
        other => panic!("expected ServerError, got {other:?}"),
    }
}

#[test]
fn synthesize_mid_stream_error_leaves_connection_usable() {
    let mut link = mid_stream_error_link();
    link.synthesize(SynthesizeData::new("hi")).unwrap_err();
    link.send(Event::Ping(PingData::new()));
    ping_response(Ok(link.read())).unwrap();
}
