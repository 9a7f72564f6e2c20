use sherpresent::captions::{
    StderrTail,
    choose_input_device, DeviceChoice,
    caption_status, input_devices_from, AppleProvider, CaptionConsumer, CaptionEngineState,
    CaptionStatus, CaptionUpdate, ConsumeStep, DeviceProbe, GeminiProvider, ProviderConfig,
    ProviderEvent,
};

fn config() -> ProviderConfig {
    ProviderConfig {
        api_key: "key".to_string(),
        target_language: "fr".to_string(),
        source_language: None,
    }
}

fn status_of(step: &ConsumeStep) -> &CaptionStatus {
    match step {
        ConsumeStep::Publish(CaptionUpdate::Status { status })
        | ConsumeStep::Finish(CaptionUpdate::Status { status }) => status,
        other => panic!("expected a status, got {:?}", other),
    }
}

#[test]
fn status_defaults_to_stopped_gemini() {
    let s = CaptionStatus::default();
    assert_eq!(s.state, CaptionEngineState::Stopped);
    assert_eq!(s.elapsed_seconds, 0);
    assert_eq!(s.reconnects, 0);
    assert_eq!(s.provider, "gemini");
}

#[test]
fn status_without_counters_is_zeroed() {
    let s = caption_status(CaptionEngineState::Starting, "apple", None);
    assert_eq!(s.state, CaptionEngineState::Starting);
    assert_eq!((s.elapsed_seconds, s.reconnects), (0, 0));
    assert_eq!(s.provider, "apple");
    let s = caption_status(CaptionEngineState::Running, "gemini", Some((42, 3)));
    assert_eq!((s.elapsed_seconds, s.reconnects), (42, 3));
}

#[test]
fn consumer_publishes_lines_and_statuses() {
    let mut c = CaptionConsumer::new("gemini".to_string(), 100);
    let step = c.on_event(ProviderEvent::Connected, 0, 100);
    assert_eq!(status_of(&step).state, CaptionEngineState::Running);

    let step = c.on_event(
        ProviderEvent::Delta { source: "hel".into(), translated: "sal".into() },
        1,
        110,
    );
    match step {
        ConsumeStep::Publish(CaptionUpdate::Segment { segment }) => {
            assert_eq!(segment.id, 1);
            assert_eq!(segment.source, "hel");
            assert_eq!(segment.translated, "sal");
            assert!(!segment.is_final);
            assert_eq!(segment.timestamp, 110);
        }
        other => panic!("unexpected {:?}", other),
    }
    let _ = c.on_event(
        ProviderEvent::Delta { source: "lo".into(), translated: "ut".into() },
        1,
        120,
    );
    match c.on_event(ProviderEvent::TurnComplete, 2, 130) {
        ConsumeStep::Publish(CaptionUpdate::Segment { segment }) => {
            assert_eq!(segment.id, 1);
            assert_eq!(segment.source, "hello");
            assert_eq!(segment.translated, "salut");
            assert!(segment.is_final);
            assert_eq!(segment.timestamp, 130);
        }
        other => panic!("unexpected {:?}", other),
    }
    assert_eq!(c.lines.buffer.len(), 1);
    assert_eq!(c.lines.current.id, 2);

    // A blank turn is no line.
    assert!(matches!(c.on_event(ProviderEvent::TurnComplete, 3, 140), ConsumeStep::Skip));
    assert_eq!(c.lines.current.id, 2);
}

#[test]
fn consumer_replaces_revised_hypotheses() {
    let mut c = CaptionConsumer::new("apple".to_string(), 0);
    let _ = c.on_event(ProviderEvent::Replace { source: "hello word".into(), translated: String::new() }, 0, 5);
    let _ = c.on_event(ProviderEvent::Replace { source: "hello world".into(), translated: String::new() }, 0, 6);
    assert_eq!(c.lines.current.source, "hello world");
}

#[test]
fn consumer_counts_reconnects_and_stops_on_fatal() {
    let mut c = CaptionConsumer::new("gemini".to_string(), 0);
    let step = c.on_event(ProviderEvent::Reconnecting { reason: "goAway".into() }, 600, 0);
    let s = status_of(&step);
    assert_eq!(s.state, CaptionEngineState::Reconnecting);
    assert_eq!((s.elapsed_seconds, s.reconnects), (600, 1));
    let step = c.on_event(ProviderEvent::Reconnecting { reason: "drop".into() }, 700, 0);
    assert_eq!(status_of(&step).reconnects, 2);

    let step = c.on_event(ProviderEvent::Fatal { message: "bad key".into() }, 701, 0);
    assert!(matches!(step, ConsumeStep::Finish(_)));
    assert_eq!(status_of(&step).state, CaptionEngineState::Error("bad key".into()));
    assert_eq!(status_of(&step).reconnects, 2);

    match c.on_close(702) {
        CaptionUpdate::Status { status } => {
            assert_eq!(status.state, CaptionEngineState::Stopped);
            assert_eq!(status.elapsed_seconds, 702);
            assert_eq!(status.provider, "gemini");
        }
        other => panic!("unexpected {:?}", other),
    }
}

#[test]
fn providers_have_their_names() {
    assert_eq!(AppleProvider::new(config()).name(), "apple");
    assert_eq!(GeminiProvider::new(config()).name(), "gemini");
    assert_eq!(GeminiProvider::new(config()).config.target_language, "fr");
}

#[test]
fn unreadable_input_devices_are_skipped() {
    let probes = vec![
        DeviceProbe { name: Some("Built-in Mic".into()), config: Some((48000, 1)) },
        DeviceProbe { name: None, config: Some((44100, 2)) },
        DeviceProbe { name: Some("Broken".into()), config: None },
        DeviceProbe { name: Some("USB Interface".into()), config: Some((44100, 2)) },
    ];
    let devices = input_devices_from("USB Interface", probes);
    assert_eq!(devices.len(), 2);
    assert_eq!(devices[0].name, "Built-in Mic");
    assert!(!devices[0].is_default);
    assert_eq!((devices[0].sample_rate, devices[0].channels), (48000, 1));
    assert_eq!(devices[1].name, "USB Interface");
    assert!(devices[1].is_default);
}

#[test]
fn capture_opens_the_named_or_default_device() {
    let names = vec![Some("Built-in".to_string()), None, Some("USB".to_string()), Some("USB".to_string())];
    assert_eq!(choose_input_device(Some("USB"), &names, false), Ok(DeviceChoice::Listed(2)));
    assert_eq!(
        choose_input_device(Some("Gone"), &names, true),
        Err("Audio input device 'Gone' not found".to_string())
    );
    assert_eq!(choose_input_device(None, &names, true), Ok(DeviceChoice::Default));
    assert_eq!(
        choose_input_device(None, &names, false),
        Err("No default audio input device available".to_string())
    );
}

#[test]
fn stderr_tail_keeps_the_newest_twenty_lines() {
    let mut t = StderrTail::new();
    t.push("   ".to_string());
    assert!(t.lines.is_empty());
    for i in 0..25 {
        t.push(format!("line {}", i));
    }
    assert_eq!(t.lines.len(), 20);
    assert_eq!(t.lines[0], "line 5");
    assert_eq!(t.lines[19], "line 24");
}
