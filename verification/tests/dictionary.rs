use knowloop::stt::api::{DictionaryResponse, decode_audio, transcribe_response, TranscribeRequest};
use knowloop::stt::config::SttConfig;
use knowloop::stt::dictionary::{
    camel_to_spaces, CorrectionMap, DictionaryManager, ProjectDictionary,
};

#[test]
fn test_camel_to_spaces() {
    assert_eq!(camel_to_spaces("KnowLoop"), "know loop");
    assert_eq!(camel_to_spaces("MurmureClient"), "murmure client");
    assert_eq!(camel_to_spaces("getNextTask"), "get next task");
    assert_eq!(camel_to_spaces("HTMLParser"), "htmlparser");
}

#[test]
fn test_generate_rules_from_symbols() {
    let symbols = vec![
        "KnowLoop".to_string(),
        "MurmureClient".to_string(),
        "get_next_task".to_string(),
        "db".to_string(), // too short, skipped
    ];
    let rules = DictionaryManager::generate_rules_from_symbols(&symbols);

    assert_eq!(rules.get("know loop"), Some(&"KnowLoop".to_string()));
    assert_eq!(rules.get("murmure client"), Some(&"MurmureClient".to_string()));
    assert_eq!(rules.get("get next task"), Some(&"get_next_task".to_string()));
    assert!(!rules.contains_key("db"));
}

#[test]
fn correction_map_keeps_pattern_order() {
    let mut m = CorrectionMap::new();
    m.insert("zeta".to_string(), "Z".to_string());
    m.insert("alpha".to_string(), "A".to_string());
    m.insert("mid".to_string(), "M".to_string());
    m.insert("alpha".to_string(), "A2".to_string());
    assert_eq!(m.len(), 3);
    let keys: Vec<String> = (0..m.len()).map(|i| m.entry(i).0.clone()).collect();
    assert_eq!(keys, vec!["alpha", "mid", "zeta"]);
    assert_eq!(m.get("alpha"), Some(&"A2".to_string()));
    m.remove("mid");
    m.remove("absent");
    assert_eq!(m.len(), 2);
    assert!(!m.contains_key("mid"));
}

#[test]
fn dictionary_upsert_remove_and_merge() {
    let mut d = ProjectDictionary::empty("test-project");
    d.upsert("no loop", "KnowLoop");
    d.upsert("mur mure", "Murmure");
    assert_eq!(d.corrections.len(), 2);
    assert_eq!(d.corrections.get("no loop"), Some(&"KnowLoop".to_string()));
    d.remove_rule("mur mure");
    assert_eq!(d.corrections.len(), 1);

    let mut generated = CorrectionMap::new();
    generated.insert("no loop".to_string(), "Other".to_string());
    generated.insert("know loop".to_string(), "KnowLoop".to_string());
    let new_count = d.merge_generated(&generated);
    assert_eq!(new_count, 1);
    // a rule set by hand is not overwritten
    assert_eq!(d.corrections.get("no loop"), Some(&"KnowLoop".to_string()));
    assert_eq!(d.corrections.get("know loop"), Some(&"KnowLoop".to_string()));
}

#[test]
fn dictionary_file_name_and_header() {
    assert_eq!(DictionaryManager::toml_file_name("proj"), "proj.toml");
    assert_eq!(
        DictionaryManager::file_header("proj"),
        "# Murmure cc-rules for project: proj\n# Auto-managed by KnowLoop — edit via API or settings\n\n"
    );
    let m = DictionaryManager::new("resources/cc-rules");
    assert!(m.toml_path("proj").ends_with("proj.toml"));
    assert!(m.toml_path("proj").starts_with("resources/cc-rules"));
}

#[test]
fn dictionary_response_lists_rules_in_order() {
    let mut d = ProjectDictionary::empty("p");
    d.upsert("b", "B");
    d.upsert("a", "A");
    let r = DictionaryResponse::from(d);
    assert_eq!(r.project_slug, "p");
    assert_eq!(r.total_rules, 2);
    assert_eq!(r.corrections[0].pattern, "a");
    assert_eq!(r.corrections[1].replacement, "B");
}

#[test]
fn symbols_with_same_lowercase_phonetic_make_no_rule() {
    let rules = DictionaryManager::generate_rules_from_symbols(&vec!["parser".to_string()]);
    assert_eq!(rules.len(), 0);
}

#[test]
fn audio_is_decoded_and_checked() {
    let ok = TranscribeRequest {
        audio_data: "aGVsbG8=".to_string(),
        language: None,
        use_dictionary: true,
    };
    assert_eq!(decode_audio(&ok), Ok(b"hello".to_vec()));
    let bad = TranscribeRequest {
        audio_data: "!!!".to_string(),
        language: None,
        use_dictionary: true,
    };
    let err = decode_audio(&bad).unwrap_err();
    assert!(err.starts_with("Invalid base64 audio data: "));
}

#[test]
fn transcription_reply() {
    let r = transcribe_response(Ok("hello".to_string()));
    assert!(r.success);
    assert_eq!(r.text, "hello");
    let r = transcribe_response(Err("down".to_string()));
    assert!(!r.success);
    assert_eq!(r.error, Some("down".to_string()));
}

#[test]
fn stt_defaults_and_url() {
    let c = SttConfig::default();
    assert!(c.enabled);
    assert_eq!(c.max_audio_duration_secs, 120);
    assert_eq!(c.effective_url(), None);
    let c = SttConfig {
        grpc_url: Some("http://localhost:50051".to_string()),
        enabled: false,
        max_audio_duration_secs: 60,
        use_dictionary: true,
    };
    assert_eq!(c.effective_url(), None);
}

#[test]
fn sidecar_file_reply() {
    assert_eq!(
        knowloop::stt::api::file_transcription_result(true, "hi".to_string(), ""),
        Ok("hi".to_string())
    );
    assert_eq!(
        knowloop::stt::api::file_transcription_result(false, String::new(), "no model"),
        Err("Murmure transcription failed: no model".to_string())
    );
}
