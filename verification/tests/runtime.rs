//! The models that are loaded, and the requests to them.

use crane_wyoming::engine::model_factory::{AsrArchitecture, Family, ModelType, TtsArchitecture};
use crane_wyoming::engine::runtime::{
    asr_plan, call_failure, detect_tts_eos, extract_asr_model_name, extract_model_name,
    panic_message, stream_work, tts_plan, tts_work, AsrModel, AudioInfo, Dispatch, ModelRuntime,
    Ran, StreamStep, StreamWork, TtsGenerateRequest, TtsModel, TtsWork, VoiceInfo,
};

fn mock_tts(sample_rate: u32, supports_voice_cloning: bool) -> TtsModel {
    TtsModel {
        audio_info: AudioInfo { sample_rate, channels: 1, bits_per_sample: 16 },
        voices: vec![
            VoiceInfo { name: "alice".to_string(), languages: vec!["en".to_string()] },
            VoiceInfo {
                name: "bob".to_string(),
                languages: vec!["en".to_string(), "fr".to_string()],
            },
        ],
        supports_voice_cloning,
    }
}

fn mock_asr(input_sample_rate: u32) -> AsrModel {
    AsrModel { input_sample_rate, languages: vec![] }
}

fn register_test_tts(rt: &mut ModelRuntime, name: &str, model_type_name: &'static str, rate: u32) {
    rt.register_tts(name.to_string(), model_type_name, mock_tts(rate, false));
}

fn register_test_asr(rt: &mut ModelRuntime, name: &str, rate: u32) {
    rt.register_asr(name.to_string(), "qwen3_asr", mock_asr(rate));
}

fn request(text: &str) -> TtsGenerateRequest {
    TtsGenerateRequest {
        text: text.to_string(),
        language: "en".to_string(),
        voice: None,
        reference_audio: None,
        reference_text: None,
    }
}

fn cloning_request(text: &str) -> TtsGenerateRequest {
    TtsGenerateRequest {
        reference_audio: Some("/ref.wav".to_string()),
        reference_text: Some("hi there".to_string()),
        ..request(text)
    }
}

/// What a model's thread does with one request for complete audio.
fn generate(request: &TtsGenerateRequest, ran: Ran) -> Option<Result<Vec<f32>, String>> {
    let n = request.text.chars().count().max(1);
    let samples = match tts_work(request, false) {
        TtsWork::Skip => return None,
        TtsWork::Clone { .. } => vec![-0.5f32; n],
        TtsWork::Speak { .. } => vec![0.5f32; n],
    };
    Some(match call_failure(Family::Tts, &ran) {
        Some(e) => Err(e),
        None => Ok(samples),
    })
}

/// What the receiver of an incremental request gets, given how each call into
/// the model ends and how many chunks it takes before it goes.
fn stream<T: Clone>(family: Family, calls: &[(Ran, Option<T>)], taken: usize) -> Vec<Result<T, String>> {
    let mut received = Vec::new();
    let mut call = 0;
    let mut step = StreamStep::Taken { gone: taken == 0 };
    loop {
        match stream_work(family, &step) {
            StreamWork::Next => {
                let (ran, chunk) = &calls[call];
                call += 1;
                step = StreamStep::Asked { ran: ran.clone(), chunk: chunk.is_some() };
            },
            StreamWork::Deliver => {
                if received.len() < taken {
                    received.push(Ok(calls[call - 1].1.clone().unwrap()));
                    step = StreamStep::Delivered { received: true };
                } else {
                    step = StreamStep::Delivered { received: false };
                }
            },
            StreamWork::End => return received,
            StreamWork::Report(e) => {
                received.push(Err(e));
                return received;
            },
        }
    }
}

fn chunks<T: Clone>(items: &[T]) -> Vec<(Ran, Option<T>)> {
    let mut calls: Vec<(Ran, Option<T>)> =
        items.iter().map(|item| (Ran::Done, Some(item.clone()))).collect();
    calls.push((Ran::Done, None));
    calls
}

fn panicked(message: &str) -> Ran {
    Ran::Panicked { literal: Some(message.to_string()), owned: None }
}

#[test]
fn runtime_test_register_tts_stores_handle() {
    let mut rt = ModelRuntime::new();
    register_test_tts(&mut rt, "m1", "qwen3_tts", 24000);

    let handle = rt.tts_handle("m1").expect("handle should be registered");
    assert_eq!(handle.audio_info().sample_rate, 24000);
    assert_eq!(handle.voices().len(), 2);
    assert!(!handle.supports_voice_cloning());
    assert_eq!(handle.model_type_name(), "qwen3_tts");
}

#[test]
fn runtime_test_generate_speech_roundtrip() {
    let mut rt = ModelRuntime::new();
    register_test_tts(&mut rt, "m1", "qwen3_tts", 24000);
    let hello = request("hello");
    assert_eq!(rt.generate_speech("m1", &hello, false), Ok(Dispatch::Send(0)));
    assert_eq!(rt.tts_handle("m1").unwrap().pending_count(), 1);
    assert_eq!(generate(&hello, Ran::Done), Some(Ok(vec![0.5f32; 5])));
    rt.tts_finished("m1", 0);
    assert_eq!(rt.tts_handle("m1").unwrap().pending_count(), 0);
}

#[test]
fn runtime_test_generate_voice_clone_roundtrip() {
    let mut rt = ModelRuntime::new();
    rt.register_tts("m1".to_string(), "qwen3_tts", mock_tts(24000, true));
    assert!(rt.tts_handle("m1").unwrap().supports_voice_cloning());
    let hi = cloning_request("hi");
    assert_eq!(rt.generate_speech("m1", &hi, false), Ok(Dispatch::Send(0)));
    assert_eq!(
        tts_work(&hi, false),
        TtsWork::Clone {
            reference_audio: "/ref.wav".to_string(),
            reference_text: "hi there".to_string()
        }
    );
    assert_eq!(generate(&hi, Ran::Done), Some(Ok(vec![-0.5f32; 2])));
}

#[test]
fn runtime_test_multiple_tts_models() {
    let mut rt = ModelRuntime::new();
    register_test_tts(&mut rt, "a", "qwen3_tts", 24000);
    register_test_tts(&mut rt, "b", "voxtral_tts", 16000);
    assert_eq!(rt.tts_handle("a").unwrap().audio_info().sample_rate, 24000);
    assert_eq!(rt.tts_handle("b").unwrap().audio_info().sample_rate, 16000);
    let names: Vec<&str> = rt.tts_handles().iter().map(|(name, _)| name.as_str()).collect();
    assert_eq!(names, vec!["a", "b"]);
}

#[test]
fn runtime_test_default_tts_handle() {
    let mut rt = ModelRuntime::new();
    assert!(rt.default_tts_handle().is_none());

    register_test_tts(&mut rt, "a", "qwen3_tts", 24000);
    assert!(rt.default_tts_handle().is_some());
}

#[test]
fn runtime_test_tts_handle_not_found() {
    let rt = ModelRuntime::new();
    assert!(rt.tts_handle("nonexistent").is_none());
}

#[test]
fn runtime_test_model_runtime_new_metadata() {
    let rt = ModelRuntime::new();
    assert!(rt.default_tts_handle().is_none());
    assert!(rt.default_tts_name().is_none());
    assert!(rt.streaming_enabled());
    assert!(ModelRuntime::default().streaming_enabled());
}

#[test]
fn runtime_test_streaming_enabled_roundtrip() {
    let mut rt = ModelRuntime::new();
    assert!(rt.streaming_enabled());
    rt.set_streaming_enabled(false);
    assert!(!rt.streaming_enabled());
    rt.set_streaming_enabled(true);
    assert!(rt.streaming_enabled());
}

#[test]
fn runtime_test_default_tts_name() {
    let mut rt = ModelRuntime::new();
    assert!(rt.default_tts_name().is_none());
    register_test_tts(&mut rt, "m1", "qwen3_tts", 24000);
    assert_eq!(rt.default_tts_name(), Some("m1"));
    register_test_tts(&mut rt, "m2", "qwen3_tts", 24000);
    assert_eq!(rt.default_tts_name(), Some("m1"));
}

#[test]
fn runtime_test_extract_model_name() {
    assert_eq!(extract_model_name("/models/Qwen3-TTS-12Hz-0.6B"), "Qwen3-TTS-12Hz-0.6B");
    assert_eq!(extract_model_name("/models/voxtral/"), "voxtral");
    assert_eq!(extract_model_name(""), "tts");
}

#[test]
fn test_extract_model_name() {
    for (path, name) in [
        ("/models/Qwen3-TTS-12Hz-0.6B", "Qwen3-TTS-12Hz-0.6B"),
        ("/models/voxtral/", "voxtral"),
        ("", "tts"),
    ] {
        assert_eq!(extract_model_name(path), name);
    }
}

#[test]
fn runtime_test_send_after_thread_stopped() {
    let mut rt = ModelRuntime::new();
    register_test_tts(&mut rt, "m1", "qwen3_tts", 24000);
    let mut handle = rt.tts_handle("m1").unwrap().clone();
    handle.enqueue();
    let result = handle.send(false);
    assert!(result.is_err());
    assert!(result.unwrap_err().contains("stopped"));
    assert_eq!(handle.pending_count(), 0);

    let id = rt.generate_speech_stream("m1").unwrap();
    assert!(rt.tts_sent("m1", id, false).unwrap_err().contains("stopped"));
    assert_eq!(rt.tts_handle("m1").unwrap().pending_count(), 0);
}

#[test]
fn requests_are_counted_until_they_are_finished() {
    let mut rt = ModelRuntime::new();
    register_test_tts(&mut rt, "m1", "qwen3_tts", 24000);
    let mut handle = rt.tts_handle("m1").unwrap().clone();
    handle.enqueue();
    assert_eq!(handle.send(true), Ok(()));
    handle.enqueue();
    assert_eq!(handle.pending_count(), 2);
    handle.complete();
    handle.complete();
    assert_eq!(handle.pending_count(), 0);
}

#[test]
fn runtime_test_register_duplicate_name() {
    let mut rt = ModelRuntime::new();
    register_test_tts(&mut rt, "dup", "qwen3_tts", 24000);
    register_test_tts(&mut rt, "dup", "voxtral_tts", 16000);
    let handle = rt.tts_handle("dup").unwrap();
    assert_eq!(handle.audio_info().sample_rate, 16000);
    assert_eq!(handle.model_type_name(), "voxtral_tts");
}

#[test]
fn runtime_test_panic_in_generate_is_caught() {
    let result1 = generate(&request("boom"), panicked("simulated model panic")).unwrap();
    assert!(result1.is_err());
    assert!(result1.unwrap_err().contains("panicked"));

    let result2 = generate(&request("ok"), Ran::Done).unwrap();
    assert_eq!(result2, Ok(vec![0.5f32; 2]));
}

#[test]
fn runtime_test_generate_speech_unknown_model() {
    let mut rt = ModelRuntime::new();
    let result = rt.generate_speech("nonexistent", &request("hello"), false);
    assert_eq!(result, Err("unknown TTS model: nonexistent".to_string()));
}

#[test]
fn runtime_test_generate_speech_stream_multiple_chunks() {
    let mut rt = ModelRuntime::new();
    register_test_tts(&mut rt, "m1", "qwen3_tts", 24000);
    rt.generate_speech_stream("m1").unwrap();
    let received = stream(Family::Tts, &chunks(&[0.1f32, 0.2, 0.3]), 10);
    assert_eq!(received, vec![Ok(0.1), Ok(0.2), Ok(0.3)]);
}

#[test]
fn runtime_test_generate_speech_stream_unknown_model() {
    let mut rt = ModelRuntime::new();
    assert!(rt.generate_speech_stream("nonexistent").is_err());
}

#[test]
fn runtime_test_generate_speech_stream_empty() {
    assert!(stream::<f32>(Family::Tts, &chunks(&[]), 10).is_empty());
}

#[test]
fn runtime_test_generate_speech_stream_receiver_dropped() {
    // The thread must notice that the receiver has gone and move on.
    let received = stream(Family::Tts, &chunks(&[0.1f32, 0.2, 0.3]), 1);
    assert_eq!(received, vec![Ok(0.1)]);
    assert!(generate(&request("still alive"), Ran::Done).unwrap().is_ok());
    assert!(stream(Family::Tts, &chunks(&[0.1f32]), 0).is_empty());
}

#[test]
fn runtime_test_generate_speech_stream_panic_recovery() {
    let calls = vec![(Ran::Done, Some(0.1f32)), (panicked("simulated stream panic"), None)];
    let received = stream(Family::Tts, &calls, 10);
    assert_eq!(received.len(), 2);
    assert!(received[0].is_ok());
    assert!(received[1].clone().unwrap_err().contains("panicked"));

    let received = stream(Family::Tts, &chunks(&[0.5f32, 0.6]), 10);
    assert_eq!(received, vec![Ok(0.5), Ok(0.6)]);
}

#[test]
fn test_generate_speech_cache_hit() {
    let mut rt = ModelRuntime::new();
    rt.set_tts_cache();
    register_test_tts(&mut rt, "m1", "qwen3_tts", 24000);
    let hello = request("hello");
    assert_eq!(rt.cache_id("m1", &hello), Some("m1"));
    assert_eq!(rt.generate_speech("m1", &hello, false), Ok(Dispatch::Tee(0)));
    assert_eq!(rt.tts_handle("m1").unwrap().pending_count(), 1);
    rt.tts_finished("m1", 0);

    // A hit does not depend on the model's thread.
    assert_eq!(rt.generate_speech("m1", &hello, true), Ok(Dispatch::Reply));
    assert_eq!(rt.tts_handle("m1").unwrap().pending_count(), 0);
}

#[test]
fn test_generate_speech_reference_audio_bypasses_cache() {
    let mut rt = ModelRuntime::new();
    rt.set_tts_cache();
    rt.register_tts("m1".to_string(), "qwen3_tts", mock_tts(24000, true));
    let hello = cloning_request("hello");
    assert_eq!(rt.cache_id("m1", &hello), None);
    assert_eq!(rt.generate_speech("m1", &hello, false), Ok(Dispatch::Send(0)));
    assert_eq!(generate(&hello, Ran::Done), Some(Ok(vec![-0.5f32; 5])));
}

#[test]
fn test_register_asr_stores_handle() {
    let mut rt = ModelRuntime::new();
    register_test_asr(&mut rt, "m1", 16000);
    let handle = rt.asr_handle("m1").expect("handle should be registered");
    assert_eq!(handle.input_sample_rate(), 16000);
    assert_eq!(handle.model_type_name(), "qwen3_asr");
    assert_eq!(handle.pending_count(), 0);
    assert!(handle.languages().is_empty());
}

/// What a model's thread does with one request to transcribe audio: the text,
/// the language and whether it is final.
fn transcribe(
    audio: &[f32],
    language: Option<&str>,
    ran: Ran,
) -> Result<(String, Option<String>, bool), String> {
    match call_failure(Family::Asr, &ran) {
        Some(e) => Err(e),
        None => Ok((format!("heard {} samples", audio.len()), language.map(str::to_string), true)),
    }
}

#[test]
fn test_transcribe_roundtrip() {
    let mut rt = ModelRuntime::new();
    register_test_asr(&mut rt, "m1", 16000);
    let id = rt.transcribe("m1").unwrap();
    rt.asr_sent("m1", id, true).unwrap();
    assert_eq!(rt.asr_handle("m1").unwrap().pending_count(), 1);

    let (text, language, is_final) = transcribe(&[0.0f32; 4], None, Ran::Done).unwrap();
    assert_eq!(text, "heard 4 samples");
    assert!(is_final);
    assert_eq!(language, None);
    rt.asr_finished("m1", id);
    assert_eq!(rt.asr_handle("m1").unwrap().pending_count(), 0);
}

#[test]
fn test_transcribe_with_language_hint() {
    let mut rt = ModelRuntime::new();
    register_test_asr(&mut rt, "m1", 16000);
    let id = rt.transcribe("m1").unwrap();
    rt.asr_sent("m1", id, true).unwrap();

    let (_, language, _) = transcribe(&[0.0f32; 2], Some("de"), Ran::Done).unwrap();
    assert_eq!(language, Some("de".to_string()));
    rt.asr_finished("m1", id);
}

#[test]
fn test_multiple_asr_models() {
    let mut rt = ModelRuntime::new();
    register_test_asr(&mut rt, "a", 16000);
    register_test_asr(&mut rt, "b", 8000);
    assert_eq!(rt.asr_handle("a").unwrap().input_sample_rate(), 16000);
    assert_eq!(rt.asr_handle("b").unwrap().input_sample_rate(), 8000);
}

#[test]
fn test_default_asr_handle() {
    let mut rt = ModelRuntime::new();
    assert!(rt.default_asr_handle().is_none());
    register_test_asr(&mut rt, "a", 16000);
    assert!(rt.default_asr_handle().is_some());
}

#[test]
fn test_default_asr_name() {
    let mut rt = ModelRuntime::new();
    assert!(rt.default_asr_name().is_none());
    register_test_asr(&mut rt, "m1", 16000);
    assert_eq!(rt.default_asr_name(), Some("m1"));
}

#[test]
fn test_asr_handle_not_found() {
    let rt = ModelRuntime::new();
    assert!(rt.asr_handle("nonexistent").is_none());
}

#[test]
fn test_asr_handles_iterator() {
    let mut rt = ModelRuntime::new();
    register_test_asr(&mut rt, "a", 16000);
    register_test_asr(&mut rt, "b", 16000);
    let mut names: Vec<&str> = rt.asr_handles().iter().map(|(name, _)| name.as_str()).collect();
    names.sort_unstable();
    assert_eq!(names, vec!["a", "b"]);
}

#[test]
fn test_extract_asr_model_name() {
    assert_eq!(extract_asr_model_name("/models/Qwen3-ASR-0.6B-hf"), "Qwen3-ASR-0.6B-hf");
    assert_eq!(extract_asr_model_name("/models/qwen-asr/"), "qwen-asr");
    assert_eq!(extract_asr_model_name(""), "asr");
}

#[test]
fn test_send_after_asr_thread_stopped() {
    let mut rt = ModelRuntime::new();
    register_test_asr(&mut rt, "m1", 16000);
    let mut handle = rt.asr_handle("m1").unwrap().clone();
    handle.enqueue();
    let result = handle.send(false);
    assert!(result.is_err());
    assert!(result.unwrap_err().contains("stopped"));
    assert_eq!(handle.pending_count(), 0);

    let id = rt.transcribe("m1").unwrap();
    assert!(rt.asr_sent("m1", id, false).unwrap_err().contains("stopped"));
    assert_eq!(rt.asr_handle("m1").unwrap().pending_count(), 0);
}

#[test]
fn test_register_asr_duplicate_name() {
    let mut rt = ModelRuntime::new();
    register_test_asr(&mut rt, "dup", 16000);
    register_test_asr(&mut rt, "dup", 8000);
    assert_eq!(rt.asr_handle("dup").unwrap().input_sample_rate(), 8000);
}

#[test]
fn runtime_test_transcribe_unknown_model() {
    let mut rt = ModelRuntime::new();
    assert_eq!(
        rt.transcribe("nonexistent"),
        Err("unknown ASR model: nonexistent".to_string())
    );
}

#[test]
fn test_panic_in_transcribe_is_caught() {
    let failure = call_failure(Family::Asr, &panicked("simulated model panic")).unwrap();
    assert!(failure.contains("panicked"));
    assert_eq!(call_failure(Family::Asr, &Ran::Done), None);
}

#[test]
fn test_transcribe_stream_multiple_chunks() {
    let mut rt = ModelRuntime::new();
    register_test_asr(&mut rt, "m1", 16000);
    rt.transcribe_stream("m1").unwrap();
    assert_eq!(rt.asr_handle("m1").unwrap().pending_count(), 1);
    let received = stream(Family::Asr, &chunks(&["one", "one two", "one two three"]), 10);
    assert_eq!(received, vec![Ok("one"), Ok("one two"), Ok("one two three")]);
    rt.asr_finished("m1", 0);
    assert_eq!(rt.asr_handle("m1").unwrap().pending_count(), 0);
}

#[test]
fn test_transcribe_stream_single_chunk_default_impl() {
    let received = stream(Family::Asr, &chunks(&["heard 4 samples"]), 10);
    assert_eq!(received, vec![Ok("heard 4 samples")]);
}

#[test]
fn test_transcribe_stream_unknown_model() {
    let mut rt = ModelRuntime::new();
    assert!(rt.transcribe_stream("nonexistent").is_err());
}

#[test]
fn test_transcribe_stream_empty() {
    assert!(stream::<&str>(Family::Asr, &chunks(&[]), 10).is_empty());
}

#[test]
fn test_transcribe_stream_receiver_dropped() {
    let received = stream(Family::Asr, &chunks(&["one", "two", "three"]), 1);
    assert_eq!(received, vec![Ok("one")]);
    assert_eq!(call_failure(Family::Asr, &Ran::Done), None);
}

#[test]
fn test_transcribe_stream_panic_recovery() {
    let calls = vec![(Ran::Done, Some("partial")), (panicked("simulated stream panic"), None)];
    let received = stream(Family::Asr, &calls, 10);
    assert_eq!(received.len(), 2);
    assert!(received[0].is_ok());
    assert!(received[1].clone().unwrap_err().contains("panicked"));
    assert_eq!(stream(Family::Asr, &chunks(&["ok"]), 10), vec![Ok("ok")]);
}

#[test]
fn work_for_nobody_is_skipped() {
    assert_eq!(tts_work(&request("hello"), true), TtsWork::Skip);
    let mut named = request("hello");
    named.voice = Some("bob".to_string());
    assert_eq!(tts_work(&named, false), TtsWork::Speak { voice: Some("bob".to_string()) });
    let mut untold = cloning_request("hello");
    untold.reference_text = None;
    assert_eq!(
        tts_work(&untold, false),
        TtsWork::Clone { reference_audio: "/ref.wav".to_string(), reference_text: String::new() }
    );
}

#[test]
fn panic_messages() {
    let text = Some("text".to_string());
    assert_eq!(panic_message(&text, &None), "text");
    assert_eq!(panic_message(&None, &text), "text");
    assert_eq!(panic_message(&None, &None), "unknown panic");
    assert_eq!(
        call_failure(Family::Tts, &panicked("p")),
        Some("TTS generation panicked: p".to_string())
    );
    assert_eq!(
        call_failure(Family::Asr, &panicked("p")),
        Some("ASR transcription panicked: p".to_string())
    );
    assert_eq!(call_failure(Family::Tts, &Ran::Failed("f".to_string())), Some("f".to_string()));
}

#[test]
fn models_are_planned_and_loaded() {
    assert_eq!(
        tts_plan("/models/Voxtral-4B", None),
        Ok((ModelType::VoxtralTTS, TtsArchitecture::Voxtral))
    );
    assert!(tts_plan("/models/m", Some(ModelType::Qwen3ASR)).is_err());
    assert_eq!(
        asr_plan("/models/m", Some(ModelType::Qwen3ASR)),
        Ok((ModelType::Qwen3ASR, AsrArchitecture::Qwen3))
    );
    assert!(asr_plan("/models/m", None).is_err());

    let mut rt = ModelRuntime::new();
    rt.set_tts_cache();
    let name = rt.load_tts("/models/alpha", ModelType::Qwen3TTS, mock_tts(24000, false));
    assert_eq!(name, "alpha");
    assert_eq!(rt.tts_handle("alpha").unwrap().model_type_name(), "qwen3_tts");
    assert_eq!(rt.cache_id("alpha", &request("x")), Some("/models/alpha"));
    let name = rt.load_asr("/models/ears", ModelType::Qwen3ASR, mock_asr(16000));
    assert_eq!(name, "ears");
    assert_eq!(rt.asr_handle("ears").unwrap().model_type_name(), "qwen3_asr");
}

#[test]
fn the_token_that_ends_a_sequence() {
    assert_eq!(detect_tts_eos(Some(7), Some(8)), 7);
    assert_eq!(detect_tts_eos(None, Some(8)), 8);
    assert_eq!(detect_tts_eos(None, None), 2);
}

#[test]
fn a_replaced_model_does_not_count_off_from_the_new_one() {
    let mut rt = ModelRuntime::new();
    register_test_tts(&mut rt, "m", "qwen3_tts", 24000);
    let old = rt.generate_speech_stream("m").unwrap();
    register_test_tts(&mut rt, "m", "qwen3_tts", 24000);
    assert_eq!(rt.tts_handle("m").unwrap().pending_count(), 0);
    rt.tts_finished("m", old);
    assert_eq!(rt.tts_handle("m").unwrap().pending_count(), 0);
    assert!(rt.tts_sent("m", old, false).is_err());
    assert_eq!(rt.tts_handle("m").unwrap().pending_count(), 0);
    let new = rt.generate_speech_stream("m").unwrap();
    assert_ne!(old, new);
    rt.tts_finished("m", old);
    assert_eq!(rt.tts_handle("m").unwrap().pending_count(), 1);
    rt.tts_finished("m", new);
    assert_eq!(rt.tts_handle("m").unwrap().pending_count(), 0);

    register_test_asr(&mut rt, "m", 16000);
    let old = rt.transcribe("m").unwrap();
    register_test_asr(&mut rt, "m", 16000);
    rt.asr_finished("m", old);
    assert_eq!(rt.asr_handle("m").unwrap().pending_count(), 0);
    let new = rt.transcribe_stream("m").unwrap();
    rt.asr_finished("m", new);
    assert_eq!(rt.asr_handle("m").unwrap().pending_count(), 0);
}
