use base64::Engine;
use serde_json::Value;
use sherpresent::captions::{
    check_platform, parse_availability, probe_answer,
    audio_frame, build_setup, classify_connect_error, read_live_frame, server_content_events,
    session_url, GeminiOutcome, GeminiSession, ProviderConfig, ProviderEvent, SendStage,
    SessionStep, CHUNK_SAMPLES, GEMINI_MODEL,
};

fn cfg() -> ProviderConfig {
    ProviderConfig {
        api_key: "k".to_string(),
        target_language: "fr".to_string(),
        source_language: None,
    }
}

fn json(text: &str) -> Value {
    serde_json::from_str(text).unwrap()
}

#[test]
fn test_setup_frame_shape() {
    let setup = json(&build_setup(&cfg(), None));
    let gen = &setup["setup"]["generationConfig"];
    assert_eq!(setup["setup"]["model"], GEMINI_MODEL);
    assert_eq!(gen["responseModalities"][0], "AUDIO");
    assert!(gen["inputAudioTranscription"].is_object());
    assert!(gen["outputAudioTranscription"].is_object());
    assert_eq!(gen["translationConfig"]["targetLanguageCode"], "fr");
    assert_eq!(gen["translationConfig"]["echoTargetLanguage"], false);
    // Required for sessions longer than 15 minutes.
    assert!(setup["setup"]["contextWindowCompression"]["slidingWindow"].is_object());
}

#[test]
fn test_setup_omits_source_language_when_auto() {
    let setup = json(&build_setup(&cfg(), None));
    assert!(setup["setup"]["generationConfig"]["translationConfig"]["sourceLanguageCode"].is_null());
}

#[test]
fn test_setup_includes_source_language_when_pinned() {
    let mut c = cfg();
    c.source_language = Some("en".to_string());
    let setup = json(&build_setup(&c, None));
    assert_eq!(
        setup["setup"]["generationConfig"]["translationConfig"]["sourceLanguageCode"],
        "en"
    );
}

#[test]
fn test_setup_carries_resume_handle() {
    let setup = json(&build_setup(&cfg(), Some("abc123")));
    assert_eq!(setup["setup"]["sessionResumption"]["handle"], "abc123");

    let fresh = json(&build_setup(&cfg(), None));
    assert!(fresh["setup"]["sessionResumption"]["handle"].is_null());
}

#[test]
fn setup_escapes_what_it_quotes() {
    let mut c = cfg();
    c.target_language = "fr\"x".to_string();
    let setup = json(&build_setup(&c, Some("a\\b")));
    assert_eq!(setup["setup"]["generationConfig"]["translationConfig"]["targetLanguageCode"], "fr\"x");
    assert_eq!(setup["setup"]["sessionResumption"]["handle"], "a\\b");
}

#[test]
fn test_server_content_ignores_generated_audio() {
    // A pure audio frame carries no transcript and must produce no event.
    let frame = read_live_frame(
        r#"{"serverContent":{"modelTurn":{"parts":[{"inlineData":{"mimeType":"audio/pcm;rate=24000","data":"AAAA"}}]}}}"#,
    )
    .unwrap();
    assert!(server_content_events(frame.content.unwrap()).is_empty());
}

#[test]
fn test_audio_frame_is_16khz_pcm() {
    // Guards the exact mime type and encoding the API requires.
    let frame = json(&audio_frame(&[0x0102i16]));
    assert_eq!(frame["realtimeInput"]["audio"]["mimeType"], "audio/pcm;rate=16000");
    // 0x0102 little-endian is [0x02, 0x01] -> "AgE="
    assert_eq!(frame["realtimeInput"]["audio"]["data"], "AgE=");
}

#[test]
fn test_audio_frame_chunk_size() {
    let frame = json(&audio_frame(&vec![0i16; CHUNK_SAMPLES]));
    let data = frame["realtimeInput"]["audio"]["data"].as_str().unwrap();
    let decoded = base64::engine::general_purpose::STANDARD.decode(data).unwrap();
    // 100 ms of 16 kHz mono 16-bit audio.
    assert_eq!(decoded.len(), 3200);
}

#[test]
fn session_url_carries_the_key() {
    let url = session_url("secret");
    assert!(url.starts_with("wss://generativelanguage.googleapis.com/ws/"));
    assert!(url.ends_with("BidiGenerateContent?key=secret"));
}

#[test]
fn frames_drive_the_session() {
    let mut s = GeminiSession::new(Some("old".into()));
    match s.on_frame(read_live_frame(r#"{"setupComplete":{}}"#).unwrap()) {
        SessionStep::Continue(v) => assert_eq!(v, vec![ProviderEvent::Connected]),
        other => panic!("unexpected {:?}", other),
    }
    assert!(s.setup_complete);

    // A handle the server does not mark resumable is not kept.
    let _ = s.on_frame(
        read_live_frame(r#"{"sessionResumptionUpdate":{"newHandle":"h1"}}"#).unwrap(),
    );
    assert_eq!(s.handle.as_deref(), Some("old"));
    let _ = s.on_frame(
        read_live_frame(r#"{"sessionResumptionUpdate":{"newHandle":"h2","resumable":true}}"#).unwrap(),
    );
    assert_eq!(s.handle.as_deref(), Some("h2"));

    match s.on_frame(read_live_frame(r#"{"goAway":{"timeLeft":"50s"}}"#).unwrap()) {
        SessionStep::End(GeminiOutcome::Reconnect { handle, reason }) => {
            assert_eq!(handle.as_deref(), Some("h2"));
            assert_eq!(reason, "scheduled session handoff");
        }
        other => panic!("unexpected {:?}", other),
    }
}

#[test]
fn api_errors_are_fatal_and_junk_is_skipped() {
    let mut s = GeminiSession::new(None);
    assert!(read_live_frame("not json").is_none());
    match s.on_frame(read_live_frame(r#"{"error":{"code":400}}"#).unwrap()) {
        SessionStep::End(GeminiOutcome::Fatal { message }) => {
            assert_eq!(message, "Gemini API error: {\"code\":400}")
        }
        other => panic!("unexpected {:?}", other),
    }
}

#[test]
fn closes_before_setup_are_rejections() {
    let mut s = GeminiSession::new(None);
    match s.on_close(Some((1008, "bad key".into()))) {
        GeminiOutcome::Fatal { message } => assert_eq!(
            message,
            "Gemini rejected the session (server closed: 1008 bad key). Check the API key and that the Live Translate preview is enabled for your project."
        ),
        other => panic!("unexpected {:?}", other),
    }
    let mut s = GeminiSession::new(Some("h".into()));
    s.setup_complete = true;
    assert_eq!(
        s.on_close(None),
        GeminiOutcome::Reconnect { handle: Some("h".into()), reason: "server closed".into() }
    );
}

#[test]
fn stream_and_send_failures_are_retried() {
    let mut s = GeminiSession::new(Some("h".into()));
    assert_eq!(
        s.on_stream_end(Some("reset")),
        GeminiOutcome::Failed { handle: Some("h".into()), reason: "websocket error: reset".into() }
    );
    let mut s = GeminiSession::new(None);
    assert_eq!(
        s.on_stream_end(None),
        GeminiOutcome::Failed { handle: None, reason: "connection closed by server".into() }
    );
    assert_eq!(
        s.on_send_failure(SendStage::Carryover, "broken pipe"),
        GeminiOutcome::Failed { handle: None, reason: "failed to send carryover audio: broken pipe".into() }
    );
}

#[test]
fn connect_errors_are_classified() {
    assert!(matches!(
        classify_connect_error(Some(401), "401 Unauthorized", "x"),
        GeminiOutcome::Fatal { message } if message == "Gemini rejected the API key (HTTP 401 Unauthorized). Check the key in Settings."
    ));
    assert!(matches!(
        classify_connect_error(Some(404), "404 Not Found", "x"),
        GeminiOutcome::Fatal { message } if message.contains("is unavailable (HTTP 404)")
    ));
    assert_eq!(
        classify_connect_error(None, "", "dns failure"),
        GeminiOutcome::Failed { handle: None, reason: "connect failed: dns failure".into() }
    );
}

#[test]
fn test_parse_availability_full_line() {
    let line = r#"{"type":"availability","protocol":1,"osSupported":true,"osVersion":"26.1",
            "speech":{"localeSupported":true,"modelInstalled":false,"locale":"en-US",
                      "supportedLocales":["en-US","fr-FR"]},
            "translation":{"status":"notInstalled","source":"en","target":"fr"},
            "message":null}"#;
    let support = parse_availability(line).unwrap();

    assert!(support.os_supported);
    assert_eq!(support.os_version.as_deref(), Some("26.1"));
    assert!(support.speech_locale_supported);
    assert!(!support.speech_model_installed);
    assert_eq!(support.supported_locales, vec!["en-US", "fr-FR"]);
    assert_eq!(support.translation_status, "notInstalled");
}

#[test]
fn test_parse_availability_rejects_other_messages() {
    assert!(parse_availability(r#"{"type":"ready"}"#).is_err());
    assert!(parse_availability("truncated {").is_err());
}

#[test]
fn test_parse_availability_defaults_are_conservative() {
    let support = parse_availability(r#"{"type":"availability"}"#).unwrap();
    assert!(!support.os_supported);
    assert_eq!(support.translation_status, "unsupported");
    assert!(support.supported_locales.is_empty());
}

#[test]
fn availability_errors_say_what_was_wrong() {
    assert_eq!(
        parse_availability(r#" {"type":"ready"} "#).unwrap_err(),
        "unexpected speech helper probe output: {\"type\":\"ready\"}"
    );
    assert!(parse_availability("truncated {")
        .unwrap_err()
        .starts_with("could not parse speech helper probe output: "));
    // The architecture is assumed fine unless the helper says otherwise.
    assert!(parse_availability(r#"{"type":"availability"}"#).unwrap().arch_supported);
}

#[test]
fn probe_output_is_read_past_log_noise() {
    let out = "log: starting\r\n{\"type\":\"availability\",\"osSupported\":true}\n";
    let support = probe_answer(out, "");
    assert!(support.os_supported);

    let failed = probe_answer("nothing useful\n", "warming up\nSpeech framework missing\n");
    assert!(!failed.os_supported);
    assert_eq!(failed.translation_status, "unsupported");
    let message = failed.message.unwrap();
    assert!(message.starts_with("could not parse speech helper probe output: "));
    assert!(message.ends_with(" \u{2014} Speech framework missing"));

    let quiet = probe_answer("", "  ");
    assert!(!quiet.message.unwrap().contains('\u{2014}'));
}

#[test]
fn apple_provider_needs_a_recent_apple_silicon_mac() {
    assert!(check_platform(true, "aarch64", Some(26)).is_ok());
    assert_eq!(
        check_platform(true, "aarch64", Some(15)).unwrap_err(),
        "The Apple on-device caption provider requires macOS 26 (Tahoe) or later; this Mac runs macOS 15. Select Gemini in Settings."
    );
    assert!(check_platform(true, "x86_64", Some(26)).unwrap_err().contains("Apple Silicon"));
    assert!(check_platform(true, "aarch64", None).unwrap_err().starts_with("Could not determine"));
    assert!(check_platform(false, "aarch64", Some(26)).unwrap_err().contains("macOS 26 (Tahoe)"));
}
