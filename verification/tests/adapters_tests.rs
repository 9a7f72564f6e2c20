use sherpresent::adapters::{
    resolve_adapter, AdapterChoice,
    get_adapter, get_available_adapters, get_next_zoom_level, get_prev_zoom_level,
    live_status_from, notes_reply, parse_live_reply, parse_name_list_reply, parse_notes_response,
    parse_position_reply, parse_state_reply, parse_zoom_reply, zoom_set_reply, AdapterConfig,
    AdapterHandle, LiveStatus, Platform, PowerPointAdapter, PowerPointWindowsAdapter,
    PresentationState, SlideInfo,
};

#[test]
fn test_get_adapter_libreoffice_with_defaults() {
    let config = AdapterConfig::Unset;
    let adapter = get_adapter("libreoffice", &config, Platform::Linux);
    assert!(adapter.is_some());
    match adapter.unwrap() {
        AdapterHandle::LibreOffice(a) => {
            assert_eq!(a.host, "127.0.0.1");
            assert_eq!(a.port, 1599);
        }
        _ => panic!("expected LibreOffice"),
    }
}

#[test]
fn test_get_adapter_libreoffice_with_custom_config() {
    let config = AdapterConfig::LibreOffice { host: "10.0.0.5".to_string(), port: 2002 };
    let adapter = get_adapter("libreoffice", &config, Platform::Linux);
    assert!(adapter.is_some());
    match adapter.unwrap() {
        AdapterHandle::LibreOffice(a) => {
            assert_eq!(a.host, "10.0.0.5");
            assert_eq!(a.port, 2002);
        }
        _ => panic!("expected LibreOffice"),
    }
}

#[test]
fn test_get_adapter_canva_returns_none() {
    let config = AdapterConfig::Unset;
    assert!(get_adapter("canva", &config, Platform::Linux).is_none());
}

#[test]
fn test_get_adapter_unknown_returns_none() {
    let config = AdapterConfig::Unset;
    assert!(get_adapter("nonexistent", &config, Platform::Linux).is_none());
}

#[test]
fn test_get_adapter_powerpoint_unavailable_on_linux() {
    let config = AdapterConfig::Unset;
    assert!(get_adapter("powerpoint", &config, Platform::Linux).is_none());
}

#[test]
fn test_get_adapter_keynote_unavailable_on_linux() {
    let config = AdapterConfig::Unset;
    assert!(get_adapter("keynote", &config, Platform::Linux).is_none());
}

#[test]
fn test_get_adapter_powerpoint_available_on_macos() {
    let config = AdapterConfig::Unset;
    assert!(get_adapter("powerpoint", &config, Platform::MacOs).is_some());
}

#[test]
fn test_get_adapter_keynote_available_on_macos() {
    let config = AdapterConfig::Unset;
    assert!(get_adapter("keynote", &config, Platform::MacOs).is_some());
}

#[test]
fn get_adapter_powerpoint_on_windows_uses_com() {
    let config = AdapterConfig::Unset;
    assert!(matches!(
        get_adapter("powerpoint", &config, Platform::Windows),
        Some(AdapterHandle::PowerPointWindows(_))
    ));
    assert!(get_adapter("keynote", &config, Platform::Windows).is_none());
}

#[test]
fn test_available_adapters_includes_libreoffice() {
    let adapters = get_available_adapters(Platform::Linux);
    assert!(adapters.iter().any(|(id, _)| *id == "libreoffice"));
}

#[test]
fn test_available_adapters_includes_canva() {
    let adapters = get_available_adapters(Platform::Linux);
    assert!(adapters.iter().any(|(id, _)| *id == "canva"));
}

#[test]
fn test_available_adapters_includes_powerpoint_on_macos() {
    let adapters = get_available_adapters(Platform::MacOs);
    assert!(adapters.iter().any(|(id, _)| *id == "powerpoint"));
    assert!(adapters.iter().any(|(id, _)| *id == "keynote"));
}

#[test]
fn test_available_adapters_excludes_powerpoint_on_linux() {
    let adapters = get_available_adapters(Platform::Linux);
    assert!(!adapters.iter().any(|(id, _)| *id == "powerpoint"));
    assert!(!adapters.iter().any(|(id, _)| *id == "keynote"));
}

#[test]
fn available_adapters_on_windows_in_order() {
    let adapters = get_available_adapters(Platform::Windows);
    assert_eq!(
        adapters,
        vec![
            ("powerpoint", "Microsoft PowerPoint"),
            ("libreoffice", "LibreOffice Impress"),
            ("canva", "Canva")
        ]
    );
}

#[test]
fn test_parse_notes_response() {
    let input = "1|||Hello world\n2|||\n3|||Some notes here\n";
    let notes = parse_notes_response(input);
    assert_eq!(notes.len(), 2);
    assert_eq!(notes[&1], "Hello world");
    assert_eq!(notes[&3], "Some notes here");
    assert!(!notes.contains_key(&2));
}

#[test]
fn parse_notes_skips_bad_lines_and_keeps_the_last_entry() {
    let input = "  4 ||| first \r\nx|||bad number\nno separator\n5|||missing value\n4|||second\n\n";
    let notes = parse_notes_response(input);
    assert_eq!(notes.len(), 1);
    assert_eq!(notes[&4], "second");
    assert!(parse_notes_response("").is_empty());
}

#[test]
fn mod_test_zoom_levels() {
    assert_eq!(get_next_zoom_level(100), 150);
    assert_eq!(get_next_zoom_level(150), 200);
    assert_eq!(get_next_zoom_level(400), 400);

    assert_eq!(get_prev_zoom_level(400), 300);
    assert_eq!(get_prev_zoom_level(150), 100);
    assert_eq!(get_prev_zoom_level(100), 100);
}

#[test]
fn powerpoint_windows_test_zoom_levels() {
    assert_eq!(PowerPointWindowsAdapter::get_next_zoom_level(100), 150);
    assert_eq!(PowerPointWindowsAdapter::get_next_zoom_level(150), 200);
    assert_eq!(PowerPointWindowsAdapter::get_next_zoom_level(400), 400);
    assert_eq!(PowerPointWindowsAdapter::get_prev_zoom_level(400), 300);
    assert_eq!(PowerPointWindowsAdapter::get_prev_zoom_level(150), 100);
    assert_eq!(PowerPointWindowsAdapter::get_prev_zoom_level(100), 100);
}

#[test]
fn zoom_levels_between_and_beyond_the_steps() {
    assert_eq!(get_next_zoom_level(0), 100);
    assert_eq!(get_next_zoom_level(175), 200);
    assert_eq!(get_next_zoom_level(i32::MAX), 400);
    assert_eq!(get_prev_zoom_level(i32::MIN), 100);
    assert_eq!(get_prev_zoom_level(250), 200);
    assert_eq!(get_prev_zoom_level(1000), 400);
    assert_eq!(PowerPointAdapter::get_next_zoom_level(300), 400);
    assert_eq!(PowerPointAdapter::get_prev_zoom_level(300), 200);
}

#[test]
fn zoom_up_then_down_returns() {
    for level in [100, 150, 200, 300] {
        assert_eq!(get_prev_zoom_level(get_next_zoom_level(level)), level);
    }
    for level in [150, 200, 300, 400] {
        assert_eq!(get_next_zoom_level(get_prev_zoom_level(level)), level);
    }
}

#[test]
fn name_list_reply_splits_and_trims() {
    assert!(parse_name_list_reply("").is_empty());
    assert_eq!(parse_name_list_reply("Deck.pptx"), vec!["Deck.pptx".to_string()]);
    assert_eq!(
        parse_name_list_reply("A.key, B.key ,C.key"),
        vec!["A.key".to_string(), "B.key ,C.key".to_string()]
    );
}

#[test]
fn state_reply_needs_two_fields() {
    assert_eq!(
        parse_state_reply("true, false").unwrap(),
        PresentationState { is_open: true, is_presenting: false }
    );
    assert_eq!(
        parse_state_reply(" true ,true\n").unwrap(),
        PresentationState { is_open: true, is_presenting: true }
    );
    assert_eq!(parse_state_reply("true").unwrap_err(), "Unexpected response format");
    assert_eq!(parse_state_reply("a,b,c").unwrap_err(), "Unexpected response format");
}

#[test]
fn position_reply_reports_each_failure() {
    assert_eq!(parse_position_reply("3,10", 2, 0).unwrap(), SlideInfo { current: 3, total: 10 });
    assert_eq!(
        parse_position_reply("OK, 4 , 10", 3, 1).unwrap(),
        SlideInfo { current: 4, total: 10 }
    );
    assert_eq!(parse_position_reply("3,10", 3, 1).unwrap_err(), "Unexpected response format");
    assert_eq!(parse_position_reply("x,10", 2, 0).unwrap_err(), "Failed to parse current slide");
    assert_eq!(parse_position_reply("3,y", 2, 0).unwrap_err(), "Failed to parse total slides");
}

#[test]
fn notes_and_zoom_replies() {
    assert_eq!(notes_reply("  ".to_string()), None);
    assert_eq!(notes_reply(" missing value ".to_string()), None);
    assert_eq!(notes_reply(" hi ".to_string()), Some(" hi ".to_string()));
    assert_eq!(parse_zoom_reply("150\n"), Some(150));
    assert_eq!(parse_zoom_reply("ERROR:no window"), None);
    assert_eq!(parse_zoom_reply("abc"), None);
    assert_eq!(zoom_set_reply("OK"), Ok(()));
    assert_eq!(zoom_set_reply("ERROR:denied"), Err("denied".to_string()));
}

#[test]
fn live_reply_with_zoom() {
    let s = parse_live_reply("true|||true|||3|||12|||200|||Say hi|||again", true);
    assert!(s.is_open && s.is_presenting);
    assert_eq!(s.current_slide, 3);
    assert_eq!(s.total_slides, 12);
    assert_eq!(s.zoom_level, Some(200));
    assert_eq!(s.presenter_notes, Some("Say hi|||again".to_string()));
    assert_eq!(s.current_build, None);
}

#[test]
fn live_reply_without_zoom_and_short_replies() {
    let s = parse_live_reply("true|||false|||x|||5|||missing value", false);
    assert!(s.is_open && !s.is_presenting);
    assert_eq!(s.current_slide, 0);
    assert_eq!(s.total_slides, 5);
    assert_eq!(s.zoom_level, None);
    assert_eq!(s.presenter_notes, None);
    let short = parse_live_reply("true|||true", true);
    assert!(!short.is_open);
    assert_eq!(short.presenter_notes, None);
}

#[test]
fn live_status_only_reads_slides_while_presenting() {
    let closed = live_status_from(
        Err("gone".to_string()),
        Ok(SlideInfo { current: 2, total: 9 }),
        Ok(Some(150)),
        Ok(Some("n".to_string())),
    );
    assert!(!closed.is_open && !closed.is_presenting);
    assert_eq!(closed.current_slide, 0);
    assert_eq!(closed.zoom_level, None);
    let live = live_status_from(
        Ok(PresentationState { is_open: true, is_presenting: true }),
        Err("x".to_string()),
        Ok(Some(150)),
        Err("y".to_string()),
    );
    assert!(live.is_open && live.is_presenting);
    assert_eq!(live.current_slide, 0);
    assert_eq!(live.total_slides, 0);
    assert_eq!(live.zoom_level, Some(150));
    assert_eq!(live.presenter_notes, None);
    let d = LiveStatus::default();
    assert!(!d.is_open);
}

#[test]
fn commands_resolve_their_adapter() {
    assert!(matches!(
        resolve_adapter("canva", &AdapterConfig::Unset, Platform::MacOs, true),
        Ok(AdapterChoice::Canva)
    ));
    assert_eq!(
        resolve_adapter("canva", &AdapterConfig::Unset, Platform::MacOs, false).unwrap_err(),
        "Canva adapter not initialized"
    );
    assert!(matches!(
        resolve_adapter("keynote", &AdapterConfig::Unset, Platform::MacOs, false),
        Ok(AdapterChoice::Native(AdapterHandle::Keynote(_)))
    ));
    assert_eq!(
        resolve_adapter("keynote", &AdapterConfig::Unset, Platform::Linux, true).unwrap_err(),
        "Unknown adapter: keynote"
    );
}

#[test]
fn notes_come_from_the_last_line_for_a_slide() {
    let notes = parse_notes_response("1|||first\n2|||  two  \n1|||again\n3|||missing value\n4|||   \nx|||bad\n");
    assert_eq!(notes.len(), 2);
    assert_eq!(notes.get(&1).map(String::as_str), Some("again"));
    assert_eq!(notes.get(&2).map(String::as_str), Some("two"));
    assert!(!notes.contains_key(&3));
    assert!(!notes.contains_key(&4));
}
