use sherpresent::captions::{
    read_live_frame,
    build_args, build_provider, classify_exit, keep_newest_chunks, normalize_lang, parse_line,
    parse_macos_major, probe_args, same_language, samples_to_le_bytes, validate_apple_config,
    with_stderr_tail, AppleCaptionSupport, CaptionAccumulator, LineOutcome, ProviderConfig,
    ProviderEvent, ProviderKind, SessionOutcome, CHUNK_SAMPLES, MAX_BACKLOG_CHUNKS,
    TARGET_SAMPLE_RATE,
};

fn cfg(source: Option<&str>, target: &str) -> ProviderConfig {
    ProviderConfig {
        api_key: String::new(),
        target_language: target.to_string(),
        source_language: source.map(str::to_string),
    }
}

#[test]
fn test_chunk_samples_is_100ms() {
    assert_eq!(CHUNK_SAMPLES, 1600);
    assert_eq!(samples_to_le_bytes(&vec![0i16; CHUNK_SAMPLES]).len(), 3200);
}

#[test]
fn test_samples_to_le_bytes_is_little_endian() {
    assert_eq!(samples_to_le_bytes(&[0x0102]), vec![0x02, 0x01]);
}

#[test]
fn negative_samples_use_twos_complement() {
    assert_eq!(samples_to_le_bytes(&[-1, -32768, 32767]), vec![0xff, 0xff, 0x00, 0x80, 0xff, 0x7f]);
    assert!(samples_to_le_bytes(&[]).is_empty());
}

#[test]
fn mod_test_drain_backlog_keeps_newest_chunks() {
    let pending: Vec<Vec<i16>> = (0..25).map(|i| vec![i as i16; CHUNK_SAMPLES]).collect();
    let (kept, dropped) = keep_newest_chunks(pending);
    assert_eq!(kept.len(), MAX_BACKLOG_CHUNKS);
    assert_eq!(dropped, 15);
    assert_eq!(kept[0][0], 15);
    assert_eq!(kept[kept.len() - 1][0], 24);
}

#[test]
fn mod_test_drain_backlog_keeps_everything_when_short() {
    let pending: Vec<Vec<i16>> = (0..3).map(|i| vec![i as i16; CHUNK_SAMPLES]).collect();
    let (kept, dropped) = keep_newest_chunks(pending);
    assert_eq!(kept.len(), 3);
    assert_eq!(dropped, 0);
}

#[test]
fn gemini_test_drain_backlog_keeps_newest_chunks() {
    let pending: Vec<Vec<i16>> = (0..25).map(|i| vec![i as i16; CHUNK_SAMPLES]).collect();
    let (kept, dropped) = keep_newest_chunks(pending);
    assert_eq!(kept.len(), MAX_BACKLOG_CHUNKS);
    assert_eq!(dropped, 15);
    assert_eq!(kept[0][0], 15);
    assert_eq!(kept[kept.len() - 1][0], 24);
}

#[test]
fn gemini_test_drain_backlog_keeps_everything_when_short() {
    let pending: Vec<Vec<i16>> = (0..3).map(|i| vec![i as i16; CHUNK_SAMPLES]).collect();
    let (kept, dropped) = keep_newest_chunks(pending);
    assert_eq!(kept.len(), 3);
    assert_eq!(dropped, 0);
}

#[test]
fn test_validate_apple_config_requires_source_language() {
    for missing in [None, Some(""), Some("   ")] {
        let err = validate_apple_config(&cfg(missing, "fr")).unwrap_err();
        assert!(err.contains("auto-detect"), "unexpected message: {}", err);
    }
}

#[test]
fn test_validate_apple_config_requires_target_language() {
    let err = validate_apple_config(&cfg(Some("en-US"), "  ")).unwrap_err();
    assert!(err.contains("Target Language"), "unexpected message: {}", err);
}

#[test]
fn test_validate_apple_config_accepts_explicit_pair() {
    assert!(validate_apple_config(&cfg(Some("en-US"), "fr")).is_ok());
}

#[test]
fn test_same_language_ignores_region() {
    assert!(same_language("en-US", "en"));
    assert!(same_language("EN", "en-GB"));
    assert!(same_language("fr", "fr-CA"));
    assert!(!same_language("en", "fr"));
    assert!(!same_language("", ""));
}

#[test]
fn test_same_language_ignores_region_and_case() {
    assert!(same_language("en-US", "en"));
    assert!(same_language("EN", "en-GB"));
    assert!(same_language("fr", "fr-CA"));
    assert!(!same_language("en", "fr"));
    assert!(!same_language("", ""));
}

#[test]
fn same_language_uses_underscore_and_trims() {
    assert!(same_language(" pt_BR ", "PT"));
    assert!(!same_language("-en", "en"));
}

#[test]
fn test_normalize_lang_handles_operator_typing() {
    assert_eq!(normalize_lang("  EN  "), "en");
    assert_eq!(normalize_lang("en-us"), "en-US");
    assert_eq!(normalize_lang("EN-US"), "en-US");
    assert_eq!(normalize_lang("en_US"), "en-US");
    assert_eq!(normalize_lang("fr"), "fr");
    assert_eq!(normalize_lang("zh-hans-cn"), "zh-Hans-CN");
    assert_eq!(normalize_lang(""), "");
    assert_eq!(normalize_lang("   "), "");
}

#[test]
fn normalize_lang_drops_empty_subtags_and_keeps_others() {
    assert_eq!(normalize_lang("--en--us"), "en-US");
    assert_eq!(normalize_lang("es-419"), "es-419");
    assert_eq!(normalize_lang("-"), "");
}

#[test]
fn test_build_args_normalizes_and_carries_format() {
    let args = build_args(&cfg(Some(" en_us "), "FR"));
    assert_eq!(
        args.iter().position(|a| a == "--source").map(|i| &args[i + 1]),
        Some(&"en-US".to_string())
    );
    assert_eq!(
        args.iter().position(|a| a == "--target").map(|i| &args[i + 1]),
        Some(&"fr".to_string())
    );
    assert!(args.contains(&"s16le".to_string()));
    assert!(args.contains(&TARGET_SAMPLE_RATE.to_string()));
    assert!(!args.contains(&"--no-translate".to_string()));
}

#[test]
fn test_build_args_skips_translation_for_same_language() {
    assert!(build_args(&cfg(Some("en-US"), "en")).contains(&"--no-translate".to_string()));
    assert!(build_args(&cfg(Some("en"), "en-GB")).contains(&"--no-translate".to_string()));
}

#[test]
fn build_args_full_vector() {
    let args = build_args(&cfg(None, "de"));
    assert_eq!(
        args,
        vec![
            "--protocol", "1", "--source", "", "--target", "de", "--sample-rate", "16000",
            "--channels", "1", "--format", "s16le"
        ]
    );
}

#[test]
fn test_probe_args_normalize() {
    let args = probe_args(" en_us ", "FR");
    assert!(args.contains(&"--probe".to_string()));
    assert!(args.contains(&"en-US".to_string()));
    assert!(args.contains(&"fr".to_string()));
}

#[test]
fn test_with_stderr_tail_no_op_when_empty() {
    assert_eq!(with_stderr_tail("boom".into(), &[]), "boom");
}

#[test]
fn with_stderr_tail_keeps_last_five() {
    let tail: Vec<String> = (0..7).map(|i| format!("l{}", i)).collect();
    assert_eq!(with_stderr_tail("m".into(), &tail), "m — l2 | l3 | l4 | l5 | l6");
    assert_eq!(with_stderr_tail("m".into(), &tail[..1]), "m — l0");
}

#[test]
fn test_parse_macos_major() {
    assert_eq!(parse_macos_major("26.1\n"), Some(26));
    assert_eq!(parse_macos_major("15.4.1"), Some(15));
    assert_eq!(parse_macos_major("26"), Some(26));
    assert_eq!(parse_macos_major(""), None);
    assert_eq!(parse_macos_major("garbage"), None);
}

#[test]
fn test_exit_before_ready_is_fatal() {
    match classify_exit(Some(3), false, false, &[]) {
        SessionOutcome::Fatal { message } => {
            assert!(message.contains("before it was ready"), "{}", message);
            assert!(message.contains("macOS 26"), "{}", message);
        }
        other => panic!("expected Fatal, got {:?}", other),
    }
}

#[test]
fn test_same_exit_after_ready_is_retryable() {
    assert!(matches!(classify_exit(Some(3), false, true, &[]), SessionOutcome::Failed { .. }));
}

#[test]
fn test_exit_classification_includes_stderr_tail() {
    let tail: Vec<String> = (0..10).map(|i| format!("line {}", i)).collect();
    match classify_exit(Some(1), false, false, &tail) {
        SessionOutcome::Fatal { message } => {
            assert!(message.contains("line 9"), "{}", message);
            assert!(message.contains("line 5"), "{}", message);
            assert!(!message.contains("line 4"), "{}", message);
        }
        other => panic!("expected Fatal, got {:?}", other),
    }
}

#[test]
fn exit_codes_and_signals_in_messages() {
    match classify_exit(None, false, true, &[]) {
        SessionOutcome::Failed { reason, was_ready } => {
            assert_eq!(reason, "speech helper exited (signal)");
            assert!(was_ready);
        }
        other => panic!("{:?}", other),
    }
    match classify_exit(Some(0), true, true, &[]) {
        SessionOutcome::Failed { reason, .. } => assert_eq!(reason, "speech helper exited unexpectedly"),
        other => panic!("{:?}", other),
    }
    match classify_exit(Some(-2), false, false, &[]) {
        SessionOutcome::Fatal { message } => assert!(message.contains("exited (-2)")),
        other => panic!("{:?}", other),
    }
}

#[test]
fn test_parse_ready() {
    let line = r#"{"type":"ready","protocol":1,"sourceLocale":"en-US","targetLocale":"fr"}"#;
    assert_eq!(parse_line(line), LineOutcome::Ready);
}

#[test]
fn test_parse_partial_and_final_both_replace() {
    let partial = parse_line(r#"{"type":"partial","source":"hel","translated":"bon"}"#);
    assert_eq!(
        partial,
        LineOutcome::Events(vec![ProviderEvent::Replace {
            source: "hel".into(),
            translated: "bon".into(),
        }])
    );
    let final_line = parse_line(r#"{"type":"final","source":"Hello.","translated":"Bonjour."}"#);
    assert_eq!(
        final_line,
        LineOutcome::Events(vec![ProviderEvent::Replace {
            source: "Hello.".into(),
            translated: "Bonjour.".into(),
        }])
    );
}

#[test]
fn test_parse_partial_tolerates_missing_translation() {
    assert_eq!(
        parse_line(r#"{"type":"partial","source":"hi"}"#),
        LineOutcome::Events(vec![ProviderEvent::Replace {
            source: "hi".into(),
            translated: String::new(),
        }])
    );
}

#[test]
fn test_parse_turn_complete() {
    assert_eq!(
        parse_line(r#"{"type":"turnComplete"}"#),
        LineOutcome::Events(vec![ProviderEvent::TurnComplete])
    );
}

#[test]
fn asset_progress_names_its_stage() {
    assert_eq!(
        parse_line(r#"{"type":"assetProgress","stage":"speechModel","fraction":0.42}"#),
        LineOutcome::Progress { stage: "speechModel".into() }
    );
    assert_eq!(
        parse_line(r#"{"type":"assetProgress","fraction":9.0}"#),
        LineOutcome::Progress { stage: "model".into() }
    );
}

#[test]
fn test_parse_error_fatal_flag_selects_outcome() {
    let fatal = parse_line(
        r#"{"type":"error","code":"translationNotInstalled","fatal":true,"message":"French is not installed"}"#,
    );
    assert_eq!(fatal, LineOutcome::Fatal("French is not installed".into()));
    let retryable = parse_line(
        r#"{"type":"error","code":"assetDownloadFailed","fatal":false,"message":"download failed"}"#,
    );
    assert_eq!(retryable, LineOutcome::Failed("download failed".into()));
}

#[test]
fn test_parse_error_without_fatal_flag_is_fatal() {
    assert!(matches!(parse_line(r#"{"type":"error","message":"boom"}"#), LineOutcome::Fatal(_)));
    assert_eq!(
        parse_line(r#"{"type":"error"}"#),
        LineOutcome::Fatal("the Apple speech helper reported an error".into())
    );
}

#[test]
fn test_parse_garbage_is_ignored_not_fatal() {
    for line in [
        "",
        "   ",
        "not json at all",
        "{}",
        r#"{"nope":1}"#,
        r#"{"type":"futureThing","data":5}"#,
        r#"{"type":42}"#,
    ] {
        assert_eq!(parse_line(line), LineOutcome::Ignore, "line: {:?}", line);
    }
}

#[test]
fn unavailable_support_is_conservative() {
    let s = AppleCaptionSupport::unavailable("nope");
    assert!(!s.os_supported && !s.arch_supported);
    assert_eq!(s.translation_status, "unsupported");
    assert_eq!(s.message.as_deref(), Some("nope"));
    assert!(s.supported_locales.is_empty());
}

#[test]
fn test_build_rejects_empty_key() {
    let mut c = cfg(None, "fr");
    c.api_key = "  ".to_string();
    let err = build_provider("gemini", &c, false).unwrap_err();
    assert!(err.contains("API key"), "{}", err);
}

#[test]
fn provider_selection() {
    let mut c = cfg(Some("en"), "fr");
    c.api_key = "k".to_string();
    assert_eq!(build_provider("gemini", &c, false).unwrap(), ProviderKind::Gemini);
    assert!(build_provider("openai", &c, true).unwrap_err().contains("not implemented"));
    assert_eq!(build_provider("apple", &c, true).unwrap(), ProviderKind::Apple);
    assert!(build_provider("apple", &c, false).unwrap_err().contains("macOS 26"));
    assert!(build_provider("apple", &cfg(None, "fr"), true).unwrap_err().contains("auto-detect"));
    assert_eq!(build_provider("x", &c, true).unwrap_err(), "Unknown caption provider 'x'");
}

#[test]
fn caption_lines_accumulate_and_commit() {
    let mut acc = CaptionAccumulator::new(0);
    let seg = acc.on_delta("Hel", "Bon", 5);
    assert_eq!(seg.id, 1);
    assert_eq!(seg.source, "Hel");
    let seg = acc.on_delta("lo", "jour", 6);
    assert_eq!(seg.source, "Hello");
    assert_eq!(seg.translated, "Bonjour");
    assert!(!seg.is_final);
    let done = acc.on_turn_complete(7).unwrap();
    assert!(done.is_final);
    assert_eq!(done.timestamp, 7);
    assert_eq!(acc.buffer.len(), 1);
    assert_eq!(acc.current.id, 2);
    assert_eq!(acc.current.source, "");
    assert!(acc.on_turn_complete(8).is_none());
    assert_eq!(acc.current.id, 2);
}

#[test]
fn replay_buffer_keeps_newest_eight() {
    let mut acc = CaptionAccumulator::new(0);
    for i in 0..12u64 {
        acc.on_replace(&format!("s{}", i), "", i);
        acc.on_turn_complete(i).unwrap();
    }
    assert_eq!(acc.buffer.len(), 8);
    assert_eq!(acc.buffer[0].source, "s4");
    assert_eq!(acc.buffer[7].source, "s11");
    let seg = acc.on_replace("a", "b", 20);
    assert_eq!(seg.source, "a");
    let seg = acc.on_replace("c", "", 21);
    assert_eq!(seg.source, "c");
    assert_eq!(seg.translated, "");
}

use sherpresent::captions::{
    after_apple_session, on_helper_line, server_content_events, audio_mime_type, Backoff,
    GeminiAction, GeminiLoop, GeminiOutcome, LineAction, LoopAction, ServerContent,
};

#[test]
fn backoff_doubles_up_to_ten_seconds() {
    let mut b = Backoff::new();
    let delays: Vec<u64> = (0..8).map(|_| b.next_delay()).collect();
    assert_eq!(delays, vec![250, 500, 1000, 2000, 4000, 8000, 10000, 10000]);
    b.reset();
    assert_eq!(b.next_delay(), 250);
}

#[test]
fn apple_loop_resets_after_a_ready_session() {
    let mut b = Backoff::new();
    let fail = |ready: bool| SessionOutcome::Failed { reason: "r".into(), was_ready: ready };
    assert_eq!(after_apple_session(&mut b, fail(false)), LoopAction::RetryAfter { reason: "r".into(), delay_ms: 250 });
    assert_eq!(after_apple_session(&mut b, fail(false)), LoopAction::RetryAfter { reason: "r".into(), delay_ms: 500 });
    assert_eq!(after_apple_session(&mut b, fail(true)), LoopAction::RetryAfter { reason: "r".into(), delay_ms: 250 });
    assert_eq!(after_apple_session(&mut b, SessionOutcome::Shutdown), LoopAction::Stop);
    assert_eq!(
        after_apple_session(&mut b, SessionOutcome::Fatal { message: "m".into() }),
        LoopAction::Fatal("m".into())
    );
}

#[test]
fn helper_lines_drive_the_session() {
    match on_helper_line(LineOutcome::Ready, false, &[]) {
        LineAction::Continue { events, ready } => {
            assert!(ready);
            assert_eq!(events, vec![ProviderEvent::Connected]);
        }
        other => panic!("{:?}", other),
    }
    let tail = vec!["err".to_string()];
    match on_helper_line(LineOutcome::Failed("x".into()), true, &tail) {
        LineAction::End(SessionOutcome::Failed { reason, was_ready }) => {
            assert_eq!(reason, "x — err");
            assert!(was_ready);
        }
        other => panic!("{:?}", other),
    }
    match on_helper_line(LineOutcome::Ignore, false, &[]) {
        LineAction::Continue { events, ready } => {
            assert!(events.is_empty() && !ready);
        }
        other => panic!("{:?}", other),
    }
}

#[test]
fn gemini_loop_keeps_newest_handle() {
    let mut l = GeminiLoop::new();
    assert_eq!(
        l.after_session(GeminiOutcome::Failed { handle: Some("h1".into()), reason: "x".into() }),
        GeminiAction::Reconnect { reason: "x".into(), delay_ms: Some(250) }
    );
    assert_eq!(l.resume_handle.as_deref(), Some("h1"));
    assert_eq!(
        l.after_session(GeminiOutcome::Failed { handle: None, reason: "y".into() }),
        GeminiAction::Reconnect { reason: "y".into(), delay_ms: Some(500) }
    );
    assert_eq!(l.resume_handle.as_deref(), Some("h1"));
    assert_eq!(
        l.after_session(GeminiOutcome::Reconnect { handle: Some("h2".into()), reason: "goAway".into() }),
        GeminiAction::Reconnect { reason: "goAway".into(), delay_ms: None }
    );
    assert_eq!(l.backoff.delay_ms, 250);
    assert_eq!(l.resume_handle.as_deref(), Some("h2"));
}

#[test]
fn test_server_content_emits_deltas() {
    let frame = read_live_frame(
        r#"{"serverContent":{"inputTranscription":{"text":"hello "},"outputTranscription":{"text":"bonjour "}}}"#,
    )
    .unwrap();
    let events = server_content_events(frame.content.unwrap());
    match &events[0] {
        ProviderEvent::Delta { source, translated } => {
            assert_eq!(source, "hello ");
            assert_eq!(translated, "bonjour ");
        }
        other => panic!("expected Delta, got {:?}", other),
    }
}

#[test]
fn test_turn_complete_emitted() {
    let frame = read_live_frame(r#"{"serverContent":{"turnComplete":true}}"#).unwrap();
    let events = server_content_events(frame.content.unwrap());
    assert!(matches!(events[0], ProviderEvent::TurnComplete));
}

#[test]
fn generation_complete_also_ends_the_turn() {
    let events = server_content_events(ServerContent {
        input_text: Some(String::new()),
        output_text: None,
        turn_complete: Some(false),
        generation_complete: Some(true),
    });
    assert_eq!(events, vec![ProviderEvent::TurnComplete]);
    assert_eq!(audio_mime_type(), "audio/pcm;rate=16000");
}

