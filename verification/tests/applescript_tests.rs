use sherpresent::adapters::{KeynoteAdapter, PowerPointAdapter};
use sherpresent::applescript::{
    app_running_script, clear_compiled_cache, is_running_reply, osascript_outcome, shell_quoted,
};
use sherpresent::bridge_api::{base_url, call_request, BridgeCall, HttpMethod};

#[test]
fn single_quotes_are_escaped_for_the_shell() {
    assert_eq!(shell_quoted("it's"), "it'\\''s");
    assert_eq!(shell_quoted("plain"), "plain");
}

#[test]
fn osascript_exit_is_read() {
    assert_eq!(osascript_outcome(true, " 2\n", ""), Ok("2".to_string()));
    assert_eq!(
        osascript_outcome(false, "", "  execution error: nope \n"),
        Err("execution error: nope".to_string())
    );
    assert_eq!(
        osascript_outcome(false, "", " \n"),
        Err("AppleScript execution failed with no error message".to_string())
    );
}

#[test]
fn running_check_asks_system_events() {
    assert_eq!(
        app_running_script("Keynote"),
        "tell application \"System Events\" to (exists process \"Keynote\")"
    );
    assert!(is_running_reply(&Ok(" true\n".to_string())));
    assert!(!is_running_reply(&Ok("false".to_string())));
    assert!(!is_running_reply(&Err("boom".to_string())));
    clear_compiled_cache();
}

#[test]
fn bridge_api_routes() {
    let base = base_url("192.168.0.9", 8787);
    assert_eq!(base, "http://192.168.0.9:8787");
    assert_eq!(
        call_request(&base, &BridgeCall::Status),
        (HttpMethod::Get, "http://192.168.0.9:8787/status".to_string())
    );
    assert_eq!(
        call_request(&base, &BridgeCall::SaveConfig),
        (HttpMethod::Post, "http://192.168.0.9:8787/config/global".to_string())
    );
    assert_eq!(
        call_request(&base, &BridgeCall::TestDevice { slot: "a".into(), command: "next".into() }).1,
        "http://192.168.0.9:8787/devices/a/test/next"
    );
    assert_eq!(
        call_request(&base, &BridgeCall::Unregister { slot: "b".into() }),
        (HttpMethod::Post, "http://192.168.0.9:8787/devices/b/unregister".to_string())
    );
    assert_eq!(call_request(&base, &BridgeCall::SatelliteStatus).0, HttpMethod::Get);
}

#[test]
fn keynote_scripts_name_the_document() {
    let s = KeynoteAdapter::state_script("Deck");
    assert!(s.starts_with("tell application \"Keynote\""));
    assert!(s.contains("set doc to document \"Deck\"\n"));
    assert!(s.ends_with("end tell"));
    let g = KeynoteAdapter::goto_slide_script("Deck", 3);
    assert!(g.contains("tell document \"Deck\""));
    assert!(g.contains("if 3 < 1 or 3 > totalSlides then"));
    assert!(g.contains("(every slide whose slide number is 3)"));
    let n = KeynoteAdapter::goto_slide_script("Deck", -2);
    assert!(n.contains("if -2 < 1 or -2 > totalSlides then"));
}

#[test]
fn powerpoint_scripts_name_the_presentation() {
    let s = PowerPointAdapter::slide_info_script("Q3");
    assert_eq!(s.matches("presentation \"Q3\"").count(), 2);
    let z = PowerPointAdapter::set_notes_zoom_script(150);
    assert!(z.contains("set notes zoom of pTool to 150\n"));
    assert_eq!(
        sherpresent::scripts::POWERPOINT_LIST_SCRIPT,
        "tell application \"Microsoft PowerPoint\" to get name of every presentation"
    );
}
