//! Model types, detection, discovery and selection.

use crane_wyoming::engine::model_factory::{
    config_model_type, create_asr, create_tts, detect_model_type, discover_asr_models,
    discover_models, name_of_path, params_model_type, probe_model_type, resolve_asr,
    resolve_asr_models_to_load, resolve_models_to_load, resolve_tts, AsrArchitecture,
    DiscoveredModel, ModelType, Subdirectory, TtsArchitecture,
};
use crane_wyoming::json::Json;

fn probe_config(config: &str) -> Option<ModelType> {
    probe_model_type(Some(&config.as_bytes().to_vec()), None)
}

fn probe_params(params: &str) -> Option<ModelType> {
    probe_model_type(None, Some(&params.as_bytes().to_vec()))
}

fn subdirectory(name: &str, config: Option<&str>, params: Option<&str>) -> Subdirectory {
    let config: Option<Vec<u8>> = config.map(|text| text.as_bytes().to_vec());
    let params: Option<Vec<u8>> = params.map(|text| text.as_bytes().to_vec());
    Subdirectory {
        path: format!("/models/{name}"),
        probed: probe_model_type(config.as_ref(), params.as_ref()),
    }
}

fn names(models: &[DiscoveredModel]) -> Vec<&str> {
    models.iter().map(|m| m.name.as_str()).collect()
}

const QWEN_TTS: &str = r#"{"model_type": "qwen3_tts"}"#;
const QWEN_ASR: &str = r#"{"model_type": "qwen3_asr"}"#;
const VOXTRAL: &str = r#"{"model_type": "voxtral_tts"}"#;

#[test]
fn model_type_from_str_qwen3_variants() {
    assert_eq!(ModelType::from_str("qwen3_tts"), ModelType::Qwen3TTS);
    assert_eq!(ModelType::from_str("qwen3tts"), ModelType::Qwen3TTS);
    assert_eq!(ModelType::from_str("qwen3-tts"), ModelType::Qwen3TTS);
    assert_eq!(ModelType::from_str("QWEN3_TTS"), ModelType::Qwen3TTS);
}

#[test]
fn model_type_from_str_voxtral_variants() {
    assert_eq!(ModelType::from_str("voxtral_tts"), ModelType::VoxtralTTS);
    assert_eq!(ModelType::from_str("voxtral-tts"), ModelType::VoxtralTTS);
    assert_eq!(ModelType::from_str("voxtral"), ModelType::VoxtralTTS);
    assert_eq!(ModelType::from_str("voxtral_4b"), ModelType::VoxtralTTS);
    assert_eq!(ModelType::from_str("VOXTRAL"), ModelType::VoxtralTTS);
}

#[test]
fn model_type_from_str_qwen3_asr_variants() {
    assert_eq!(ModelType::from_str("qwen3_asr"), ModelType::Qwen3ASR);
    assert_eq!(ModelType::from_str("qwen3asr"), ModelType::Qwen3ASR);
    assert_eq!(ModelType::from_str("qwen3-asr"), ModelType::Qwen3ASR);
    assert_eq!(ModelType::from_str("asr"), ModelType::Qwen3ASR);
    assert_eq!(ModelType::from_str("QWEN3_ASR"), ModelType::Qwen3ASR);
}

#[test]
fn model_type_from_str_auto_fallback() {
    assert_eq!(ModelType::from_str("auto"), ModelType::Auto);
    assert_eq!(ModelType::from_str("unknown"), ModelType::Auto);
    assert_eq!(ModelType::from_str(""), ModelType::Auto);
}

#[test]
fn model_type_display_name() {
    assert_eq!(ModelType::Auto.display_name(), "auto");
    assert_eq!(ModelType::Qwen3TTS.display_name(), "qwen3_tts");
    assert_eq!(ModelType::VoxtralTTS.display_name(), "voxtral_tts");
    assert_eq!(ModelType::Qwen3ASR.display_name(), "qwen3_asr");
}

#[test]
fn model_type_display_name_round_trip() {
    for model_type in
        [ModelType::Auto, ModelType::Qwen3TTS, ModelType::VoxtralTTS, ModelType::Qwen3ASR]
    {
        assert_eq!(ModelType::from_str(model_type.display_name()), model_type);
    }
}

#[test]
fn model_type_is_tts_and_is_asr() {
    assert!(ModelType::Qwen3TTS.is_tts());
    assert!(ModelType::VoxtralTTS.is_tts());
    assert!(!ModelType::Qwen3ASR.is_tts());
    assert!(!ModelType::Auto.is_tts());

    assert!(ModelType::Qwen3ASR.is_asr());
    assert!(!ModelType::Qwen3TTS.is_asr());
    assert!(!ModelType::VoxtralTTS.is_asr());
    assert!(!ModelType::Auto.is_asr());
}

#[test]
fn detect_from_config_json_model_type_qwen3_tts() {
    let result = detect_model_type("/models/m", probe_config(QWEN_TTS));
    assert_eq!(result, ModelType::Qwen3TTS);
}

#[test]
fn detect_from_config_json_architectures_qwen3_tts() {
    let probed = probe_config(r#"{"architectures": ["Qwen3TTSForConditionalGeneration"]}"#);
    assert_eq!(probed, Some(ModelType::Qwen3TTS));
    assert_eq!(detect_model_type("/models/m", probed), ModelType::Qwen3TTS);
}

#[test]
fn detect_from_params_json_voxtral() {
    let result = detect_model_type("/models/m", probe_params(VOXTRAL));
    assert_eq!(result, ModelType::VoxtralTTS);
}

#[test]
fn detect_path_heuristic_voxtral() {
    let result = detect_model_type("/models/Voxtral-4B-TTS-2603", None);
    assert_eq!(result, ModelType::VoxtralTTS);
}

#[test]
fn detect_from_config_json_model_type_qwen3_asr() {
    let result = detect_model_type("/models/m", probe_config(QWEN_ASR));
    assert_eq!(result, ModelType::Qwen3ASR);
}

#[test]
fn detect_from_config_json_architectures_qwen3_asr() {
    let probed = probe_config(r#"{"architectures": ["Qwen3ASRForConditionalGeneration"]}"#);
    assert_eq!(detect_model_type("/models/m", probed), ModelType::Qwen3ASR);
}

#[test]
fn detect_path_heuristic_qwen3_asr() {
    let result = detect_model_type("/models/Qwen3-ASR-0.6B-hf", None);
    assert_eq!(result, ModelType::Qwen3ASR);
}

#[test]
fn detect_fallback_unknown_defaults_to_qwen3_tts() {
    let result = detect_model_type("/tmp/dir", probe_model_type(None, None));
    assert_eq!(result, ModelType::Qwen3TTS);
}

#[test]
fn detect_prefers_the_files_over_the_path() {
    let result = detect_model_type("/models/Voxtral-4B-TTS-2603", Some(ModelType::Qwen3ASR));
    assert_eq!(result, ModelType::Qwen3ASR);
}

#[test]
fn resolve_tts_auto_delegates_to_detect() {
    let result = resolve_tts(ModelType::Auto, "/models/Voxtral-4B-TTS-2603", None).unwrap();
    assert_eq!(result, ModelType::VoxtralTTS);
}

#[test]
fn resolve_tts_explicit_type_is_passthrough() {
    let result = resolve_tts(ModelType::Qwen3TTS, "/models/whatever", None).unwrap();
    assert_eq!(result, ModelType::Qwen3TTS);
}

#[test]
fn resolve_tts_rejects_auto_detected_asr() {
    let err = resolve_tts(ModelType::Auto, "/models/Qwen3-ASR-0.6B-hf", None).unwrap_err();
    assert!(err.contains("TTS model was expected"));
}

#[test]
fn resolve_asr_auto_delegates_to_detect() {
    let result = resolve_asr(ModelType::Auto, "/models/Qwen3-ASR-0.6B-hf", None).unwrap();
    assert_eq!(result, ModelType::Qwen3ASR);
}

#[test]
fn resolve_asr_explicit_type_is_passthrough() {
    let result = resolve_asr(ModelType::Qwen3ASR, "/models/whatever", None).unwrap();
    assert_eq!(result, ModelType::Qwen3ASR);
}

#[test]
fn resolve_asr_rejects_auto_detected_tts() {
    let err = resolve_asr(ModelType::Auto, "/models/Voxtral-4B-TTS-2603", None).unwrap_err();
    assert!(err.contains("ASR model was expected"));
}

#[test]
fn resolve_asr_rejects_unrecognized_path_defaulting_to_tts() {
    let err = resolve_asr(ModelType::Auto, "/models/mystery-model", None).unwrap_err();
    assert!(err.contains("ASR model was expected"));
}

#[test]
fn create_tts_rejects_auto() {
    let Err(err) = create_tts(ModelType::Auto) else {
        panic!("expected create_tts to reject ModelType::Auto");
    };
    assert!(err.contains("must be resolved"));
}

#[test]
fn create_tts_rejects_asr_type() {
    let Err(err) = create_tts(ModelType::Qwen3ASR) else {
        panic!("expected create_tts to reject ModelType::Qwen3ASR");
    };
    assert!(err.contains("create_asr()"));
}

#[test]
fn create_asr_rejects_auto() {
    let Err(err) = create_asr(ModelType::Auto) else {
        panic!("expected create_asr to reject ModelType::Auto");
    };
    assert!(err.contains("must be resolved"));
}

#[test]
fn create_asr_rejects_tts_type() {
    let Err(err) = create_asr(ModelType::Qwen3TTS) else {
        panic!("expected create_asr to reject ModelType::Qwen3TTS");
    };
    assert!(err.contains("create_tts()"));

    let Err(err) = create_asr(ModelType::VoxtralTTS) else {
        panic!("expected create_asr to reject ModelType::VoxtralTTS");
    };
    assert!(err.contains("create_tts()"));
}

#[test]
fn create_picks_the_architecture() {
    assert_eq!(create_tts(ModelType::Qwen3TTS), Ok(TtsArchitecture::Qwen3));
    assert_eq!(create_tts(ModelType::VoxtralTTS), Ok(TtsArchitecture::Voxtral));
    assert_eq!(create_asr(ModelType::Qwen3ASR), Ok(AsrArchitecture::Qwen3));
}

#[test]
fn probe_from_config_json_qwen3_tts() {
    assert_eq!(probe_config(QWEN_TTS), Some(ModelType::Qwen3TTS));
}

#[test]
fn probe_from_params_json_voxtral() {
    assert_eq!(probe_params(VOXTRAL), Some(ModelType::VoxtralTTS));
}

#[test]
fn probe_from_config_json_qwen3_asr() {
    assert_eq!(probe_config(QWEN_ASR), Some(ModelType::Qwen3ASR));
}

#[test]
fn probe_from_config_json_architectures_qwen3_asr() {
    assert_eq!(
        probe_config(r#"{"architectures": ["Qwen3ASRForConditionalGeneration"]}"#),
        Some(ModelType::Qwen3ASR)
    );
}

#[test]
fn probe_empty_dir_returns_none() {
    assert_eq!(probe_model_type(None, None), None);
}

#[test]
fn probe_unrecognized_config_returns_none() {
    assert_eq!(probe_config(r#"{"model_type": "unknown"}"#), None);
}

#[test]
fn probe_path_heuristic_not_used() {
    // The path "/nonexistent/Voxtral-4B-TTS-2603" holds neither file, and
    // its name is no argument of the probe.
    assert_eq!(probe_model_type(None, None), None);
}

#[test]
fn probe_skips_a_file_that_is_not_json() {
    assert_eq!(probe_config("not json"), None);
    assert_eq!(
        probe_model_type(Some(&b"{".to_vec()), Some(&VOXTRAL.as_bytes().to_vec())),
        Some(ModelType::VoxtralTTS)
    );
}

#[test]
fn probe_reads_the_config_first() {
    assert_eq!(
        probe_model_type(
            Some(&QWEN_TTS.as_bytes().to_vec()),
            Some(&VOXTRAL.as_bytes().to_vec())
        ),
        Some(ModelType::Qwen3TTS)
    );
}

#[test]
fn config_and_params_are_read_apart() {
    let voxtral = Json::Object(vec![(
        "model_type".to_string(),
        Json::Text("voxtral_tts".to_string()),
    )]);
    assert_eq!(params_model_type(&voxtral), Some(ModelType::VoxtralTTS));
    assert_eq!(params_model_type(&Json::Null), None);
    assert_eq!(config_model_type(&Json::Null), None);
    let qwen = Json::Object(vec![(
        "model_type".to_string(),
        Json::Text("qwen3_tts".to_string()),
    )]);
    assert_eq!(config_model_type(&qwen), Some(ModelType::Qwen3TTS));
    assert_eq!(params_model_type(&qwen), None);
}

#[test]
fn discover_models_finds_both_types() {
    let models = discover_models(&vec![
        subdirectory("qwen", Some(QWEN_TTS), None),
        subdirectory("voxtral", None, Some(VOXTRAL)),
    ]);
    assert_eq!(models.len(), 2);
    assert_eq!(models[0].name, "qwen");
    assert_eq!(models[0].path, "/models/qwen");
    assert_eq!(models[0].model_type, ModelType::Qwen3TTS);
    assert_eq!(models[1].name, "voxtral");
    assert_eq!(models[1].model_type, ModelType::VoxtralTTS);
}

#[test]
fn discover_models_skips_asr_models() {
    let models = discover_models(&vec![
        subdirectory("qwen-tts", Some(QWEN_TTS), None),
        subdirectory("qwen-asr", Some(QWEN_ASR), None),
    ]);
    assert_eq!(models.len(), 1);
    assert_eq!(models[0].name, "qwen-tts");
    assert_eq!(models[0].model_type, ModelType::Qwen3TTS);
}

#[test]
fn discover_models_skips_non_model_dirs_and_files() {
    let models = discover_models(&vec![
        subdirectory(".git", None, None),
        subdirectory("model", Some(QWEN_TTS), None),
    ]);
    assert_eq!(models.len(), 1);
    assert_eq!(models[0].name, "model");
}

#[test]
fn discover_models_sorted_alphabetically() {
    let models = discover_models(&vec![
        subdirectory("c", Some(QWEN_TTS), None),
        subdirectory("a", Some(QWEN_TTS), None),
        subdirectory("b", Some(QWEN_TTS), None),
    ]);
    assert_eq!(names(&models), vec!["a", "b", "c"]);
}

#[test]
fn discover_models_empty_dir_returns_empty() {
    assert_eq!(discover_models(&vec![]), vec![]);
}

#[test]
fn discover_models_follows_symlinked_subdirectory() {
    let models = discover_models(&vec![
        subdirectory("real-model", Some(QWEN_TTS), None),
        subdirectory("linked-model", Some(QWEN_TTS), None),
    ]);
    assert_eq!(names(&models), vec!["linked-model", "real-model"]);
}

#[test]
fn discover_asr_models_finds_asr_skips_tts() {
    let models = discover_asr_models(&vec![
        subdirectory("qwen-tts", Some(QWEN_TTS), None),
        subdirectory("qwen-asr", Some(QWEN_ASR), None),
    ]);
    assert_eq!(models.len(), 1);
    assert_eq!(models[0].name, "qwen-asr");
    assert_eq!(models[0].model_type, ModelType::Qwen3ASR);
}

#[test]
fn discover_asr_models_sorted_alphabetically() {
    let models = discover_asr_models(&vec![
        subdirectory("c", Some(QWEN_ASR), None),
        subdirectory("a", Some(QWEN_ASR), None),
        subdirectory("b", Some(QWEN_ASR), None),
    ]);
    assert_eq!(names(&models), vec!["a", "b", "c"]);
}

#[test]
fn discover_asr_models_empty_when_only_tts_present() {
    let models = discover_asr_models(&vec![subdirectory("qwen-tts", Some(QWEN_TTS), None)]);
    assert_eq!(models, vec![]);
}

#[test]
fn discover_asr_models_empty_dir_returns_empty() {
    assert_eq!(discover_asr_models(&vec![]), vec![]);
}

#[test]
fn every_model_is_found_by_one_of_the_two_searches() {
    let subdirectories = vec![
        subdirectory("tts", Some(QWEN_TTS), None),
        subdirectory("asr", Some(QWEN_ASR), None),
        subdirectory("none", None, None),
    ];
    assert_eq!(names(&discover_models(&subdirectories)), vec!["tts"]);
    assert_eq!(names(&discover_asr_models(&subdirectories)), vec!["asr"]);
}

#[test]
fn the_name_of_a_path_is_its_last_component() {
    assert_eq!(name_of_path("/models/alpha", "x"), "alpha");
    assert_eq!(name_of_path("/models/alpha/", "x"), "alpha");
    assert_eq!(name_of_path("alpha", "x"), "alpha");
    assert_eq!(name_of_path("/", "x"), "x");
    assert_eq!(name_of_path("", "x"), "x");
    assert_eq!(name_of_path("/models/..", "x"), "x");
}

fn discovered_fixture() -> Vec<DiscoveredModel> {
    vec![
        DiscoveredModel {
            path: "/models/alpha".to_string(),
            name: "alpha".to_string(),
            model_type: ModelType::Qwen3TTS,
        },
        DiscoveredModel {
            path: "/models/beta".to_string(),
            name: "beta".to_string(),
            model_type: ModelType::VoxtralTTS,
        },
        DiscoveredModel {
            path: "/models/gamma".to_string(),
            name: "gamma".to_string(),
            model_type: ModelType::Qwen3TTS,
        },
    ]
}

#[test]
fn resolve_models_to_load_empty_requested_returns_all() {
    let discovered = discovered_fixture();
    let resolved = resolve_models_to_load(&discovered, &[]).unwrap();
    let names: Vec<&str> = resolved.iter().map(|m| m.name.as_str()).collect();
    assert_eq!(names, vec!["alpha", "beta", "gamma"]);
}

#[test]
fn resolve_models_to_load_single_match() {
    let discovered = discovered_fixture();
    let requested = vec!["beta".to_string()];
    let resolved = resolve_models_to_load(&discovered, &requested).unwrap();
    assert_eq!(resolved.len(), 1);
    assert_eq!(resolved[0].name, "beta");
}

#[test]
fn resolve_models_to_load_custom_order() {
    let discovered = discovered_fixture();
    let requested = vec!["gamma".to_string(), "alpha".to_string()];
    let resolved = resolve_models_to_load(&discovered, &requested).unwrap();
    let names: Vec<&str> = resolved.iter().map(|m| m.name.as_str()).collect();
    assert_eq!(names, vec!["gamma", "alpha"]);
}

#[test]
fn resolve_models_to_load_unknown_name_errors() {
    let discovered = discovered_fixture();
    let requested = vec!["nope".to_string()];
    let err = resolve_models_to_load(&discovered, &requested).unwrap_err();
    assert!(err.contains("nope"));
    assert!(err.contains("alpha, beta, gamma"));
}

#[test]
fn resolve_models_to_load_duplicate_name_errors() {
    let discovered = discovered_fixture();
    let requested = vec!["alpha".to_string(), "alpha".to_string()];
    let err = resolve_models_to_load(&discovered, &requested).unwrap_err();
    assert!(err.contains("more than once"));
}

fn discovered_asr_fixture() -> Vec<DiscoveredModel> {
    vec![DiscoveredModel {
        path: "/models/alpha-asr".to_string(),
        name: "alpha-asr".to_string(),
        model_type: ModelType::Qwen3ASR,
    }]
}

#[test]
fn resolve_asr_models_to_load_empty_requested_returns_all() {
    let discovered = discovered_asr_fixture();
    let resolved = resolve_asr_models_to_load(&discovered, &[]).unwrap();
    assert_eq!(resolved.len(), 1);
    assert_eq!(resolved[0].name, "alpha-asr");
}

#[test]
fn resolve_asr_models_to_load_duplicate_name_errors_mentions_model_asr_flag() {
    let discovered = discovered_asr_fixture();
    let requested = vec!["alpha-asr".to_string(), "alpha-asr".to_string()];
    let err = resolve_asr_models_to_load(&discovered, &requested).unwrap_err();
    assert!(err.contains("more than once in --model-asr"));
}

#[test]
fn a_file_that_gives_a_field_twice_tells_nothing() {
    assert_eq!(
        probe_config(r#"{"model_type":"qwen3_tts","model_type":"qwen3_tts"}"#),
        None
    );
    assert_eq!(
        probe_config(r#"{"model_type":"qwen3_tts","architectures":[],"architectures":[]}"#),
        None
    );
    assert_eq!(
        probe_params(r#"{"model_type":"voxtral_tts","model_type":"voxtral_tts"}"#),
        None
    );
    assert_eq!(
        probe_config(r#"{"x":1,"model_type":"qwen3_tts","x":{"model_type":"","model_type":""}}"#),
        Some(ModelType::Qwen3TTS)
    );
    assert_eq!(
        probe_params(r#"{"architectures":0,"model_type":"voxtral_tts","architectures":0}"#),
        Some(ModelType::VoxtralTTS)
    );
}

#[test]
fn what_a_file_holds_besides_is_skipped() {
    assert_eq!(
        probe_config(r#"{"x":1e999,"model_type":"qwen3_tts","y":"\ud800"}"#),
        Some(ModelType::Qwen3TTS)
    );
    assert_eq!(probe_config(r#"{"model_type":"qwen3_tts","x":}"#), None);
    assert_eq!(
        probe_model_type(None, Some(&b"{\"x\":\"\xff\",\"model_type\":\"voxtral_tts\"}".to_vec())),
        Some(ModelType::VoxtralTTS)
    );
}
