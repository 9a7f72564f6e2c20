use sherpresent::adapters::ConnectionStatus;
use sherpresent::impress::{
    command, pairing_message, pin_from_nanos, rand_pin, strip_html_tags, ImpressState,
    LibreOfficeAdapter, IMPRESS_REMOTE_PORT,
};

#[test]
fn test_rand_pin_range() {
    for _ in 0..100 {
        let pin = rand_pin();
        assert!(pin >= 1000 && pin <= 9999);
    }
}

#[test]
fn test_new_with_custom_host_port() {
    let adapter = LibreOfficeAdapter::new("192.168.1.50".to_string(), 2002);
    assert_eq!(adapter.host, "192.168.1.50");
    assert_eq!(adapter.port, 2002);
    assert!(!adapter.is_connected());
}

#[test]
fn test_default_uses_localhost_and_default_port() {
    let adapter = LibreOfficeAdapter::default();
    assert_eq!(adapter.host, "127.0.0.1");
    assert_eq!(adapter.port, IMPRESS_REMOTE_PORT);
    assert_eq!(adapter.port, 1599);
}

#[test]
fn test_initial_connection_status_is_disconnected() {
    let adapter = LibreOfficeAdapter::default();
    assert!(matches!(adapter.connection_status(), ConnectionStatus::Disconnected));
}

#[test]
fn test_handle_paired_message() {
    let mut adapter = LibreOfficeAdapter::default();
    adapter.handle_message(&["LO_SERVER_SERVER_PAIRED".to_string()]);
    assert!(adapter.state.paired);
}

#[test]
fn test_handle_paired_alternate_message() {
    let mut adapter = LibreOfficeAdapter::default();
    adapter.handle_message(&["LO_SERVER_PAIRED".to_string()]);
    assert!(adapter.state.paired);
}

#[test]
fn test_handle_slideshow_started() {
    let mut adapter = LibreOfficeAdapter::default();
    adapter.handle_message(&[
        "slideshow_started".to_string(),
        "10".to_string(),
        "0".to_string(),
    ]);
    let state = &adapter.state;
    assert!(state.slideshow_running);
    assert!(state.paired);
    assert_eq!(state.total_slides, 10);
    assert_eq!(state.current_slide, 0);
}

#[test]
fn test_handle_slideshow_finished() {
    let mut adapter = LibreOfficeAdapter::default();
    adapter.handle_message(&[
        "slideshow_started".to_string(),
        "5".to_string(),
        "0".to_string(),
    ]);
    adapter.handle_message(&["slideshow_finished".to_string()]);
    assert!(!adapter.state.slideshow_running);
    assert!(adapter.state.paired);
}

#[test]
fn test_handle_slide_updated() {
    let mut adapter = LibreOfficeAdapter::default();
    adapter.handle_message(&[
        "slideshow_started".to_string(),
        "10".to_string(),
        "0".to_string(),
    ]);
    adapter.handle_message(&["slide_updated".to_string(), "3".to_string()]);
    assert_eq!(adapter.state.current_slide, 3);
}

#[test]
fn test_handle_empty_message() {
    let mut adapter = LibreOfficeAdapter::default();
    adapter.handle_message(&[]);
    assert!(!adapter.state.paired);
}

#[test]
fn test_handle_unknown_message() {
    let mut adapter = LibreOfficeAdapter::default();
    adapter.handle_message(&["some_unknown_message".to_string()]);
    assert!(!adapter.state.paired);
    assert!(!adapter.state.slideshow_running);
}

#[test]
fn test_disconnect_resets_state() {
    let mut adapter = LibreOfficeAdapter::default();
    adapter.state.paired = true;
    adapter.state.slideshow_running = true;
    adapter.state.current_slide = 5;
    adapter.state.total_slides = 10;
    adapter.disconnect();
    assert!(!adapter.state.paired);
    assert!(!adapter.state.slideshow_running);
    assert_eq!(adapter.state.current_slide, 0);
    assert_eq!(adapter.state.total_slides, 0);
}

#[test]
fn test_slide_info_is_1_indexed() {
    let mut adapter = LibreOfficeAdapter::default();
    adapter.state.paired = true;
    adapter.state.slideshow_running = true;
    adapter.state.current_slide = 0;
    adapter.state.total_slides = 5;
    let state = &adapter.state;
    assert_eq!(state.current_slide + 1, 1);
    assert_eq!(state.total_slides, 5);
    let info = adapter.get_slide_info().unwrap();
    assert_eq!(info.current, 1);
    assert_eq!(info.total, 5);
}

#[test]
fn test_slideshow_started_with_missing_fields() {
    let mut adapter = LibreOfficeAdapter::default();
    adapter.handle_message(&["slideshow_started".to_string()]);
    let state = &adapter.state;
    assert!(state.slideshow_running);
    assert!(state.paired);
    assert_eq!(state.total_slides, 0);
    assert_eq!(state.current_slide, 0);
}

#[test]
fn test_strip_html_tags() {
    assert_eq!(strip_html_tags("<p>Hello</p>"), "Hello");
    assert_eq!(strip_html_tags("<b>bold</b> and <i>italic</i>"), "bold and italic");
    assert_eq!(strip_html_tags("no tags here"), "no tags here");
    assert_eq!(strip_html_tags("<p></p>"), "");
    assert_eq!(strip_html_tags("<div class=\"foo\">text</div>"), "text");
}

#[test]
fn test_handle_slide_notes() {
    let mut adapter = LibreOfficeAdapter::default();
    adapter.handle_message(&[
        "slide_notes".to_string(),
        "<p>These are my notes</p>".to_string(),
    ]);
    assert_eq!(adapter.state.presenter_notes, Some("These are my notes".to_string()));
}

#[test]
fn test_handle_slide_notes_empty_html() {
    let mut adapter = LibreOfficeAdapter::default();
    adapter.handle_message(&["slide_notes".to_string(), "<p></p>".to_string()]);
    assert_eq!(adapter.state.presenter_notes, None);
}

#[test]
fn test_handle_slide_notes_multiline() {
    let mut adapter = LibreOfficeAdapter::default();
    adapter.handle_message(&[
        "slide_notes".to_string(),
        "<p>Line one</p>".to_string(),
        "<p>Line two</p>".to_string(),
    ]);
    assert_eq!(adapter.state.presenter_notes, Some("Line one\nLine two".to_string()));
}

#[test]
fn test_slide_updated_with_invalid_number() {
    let mut adapter = LibreOfficeAdapter::default();
    adapter.state.current_slide = 2;
    adapter.handle_message(&["slide_updated".to_string(), "not_a_number".to_string()]);
    assert_eq!(adapter.state.current_slide, 2);
}

#[test]
fn impress_state_default_is_empty() {
    let s = ImpressState::default();
    assert!(!s.paired && !s.slideshow_running);
    assert_eq!(s.current_slide, 0);
    assert_eq!(s.total_slides, 0);
    assert_eq!(s.presenter_notes, None);
}

#[test]
fn slideshow_started_with_bad_numbers_defaults_to_zero() {
    let mut s = ImpressState::default();
    s.current_slide = 4;
    s.handle_message(&["slideshow_started".to_string(), "x".to_string(), "+7".to_string()]);
    assert_eq!(s.total_slides, 0);
    assert_eq!(s.current_slide, 7);
}

#[test]
fn slide_updated_accepts_negative_and_rejects_overflow() {
    let mut s = ImpressState::default();
    s.handle_message(&["slide_updated".to_string(), "-3".to_string()]);
    assert_eq!(s.current_slide, -3);
    s.handle_message(&["slide_updated".to_string(), "2147483648".to_string()]);
    assert_eq!(s.current_slide, -3);
    s.handle_message(&["slide_updated".to_string(), " 5".to_string()]);
    assert_eq!(s.current_slide, -3);
}

#[test]
fn preview_and_pin_messages_change_nothing() {
    let mut s = ImpressState::default();
    s.handle_message(&["LO_SERVER_VALIDATING_PIN".to_string()]);
    s.handle_message(&["slide_preview".to_string(), "abc".to_string()]);
    assert!(!s.paired);
    assert_eq!(s.presenter_notes, None);
}

#[test]
fn notes_are_trimmed_and_keep_text_between_tags() {
    let mut s = ImpressState::default();
    s.handle_message(&["slide_notes".to_string(), "  <p> a <b>b</b> </p>  ".to_string()]);
    assert_eq!(s.presenter_notes, Some("a b".to_string()));
}

#[test]
fn strip_html_handles_unclosed_and_stray_brackets() {
    assert_eq!(strip_html_tags("a<b"), "a");
    assert_eq!(strip_html_tags("a>b"), "ab");
    assert_eq!(strip_html_tags("x<y>z>w"), "xzw");
}

#[test]
fn received_lines_frame_messages() {
    let mut adapter = LibreOfficeAdapter::default();
    let mut pending: Vec<String> = Vec::new();
    adapter.receive_line(&mut pending, "slideshow_started\n");
    adapter.receive_line(&mut pending, "12\n");
    adapter.receive_line(&mut pending, "4\n");
    assert_eq!(pending.len(), 3);
    assert!(!adapter.state.slideshow_running);
    adapter.receive_line(&mut pending, "\n");
    assert!(pending.is_empty());
    assert!(adapter.state.slideshow_running);
    assert_eq!(adapter.state.total_slides, 12);
    assert_eq!(adapter.state.current_slide, 4);
    adapter.receive_line(&mut pending, "\n");
    assert!(pending.is_empty());
}

#[test]
fn connection_status_follows_pairing() {
    let mut adapter = LibreOfficeAdapter::default();
    adapter.set_connected();
    assert!(matches!(adapter.connection_status(), ConnectionStatus::Connecting));
    adapter.handle_message(&["LO_SERVER_PAIRED".to_string()]);
    assert!(matches!(adapter.connection_status(), ConnectionStatus::Connected));
    adapter.disconnect();
    assert!(matches!(adapter.connection_status(), ConnectionStatus::Disconnected));
}

#[test]
fn slide_info_without_slideshow_is_an_error() {
    let adapter = LibreOfficeAdapter::default();
    assert_eq!(adapter.get_slide_info().unwrap_err(), "No slideshow is currently running");
    assert_eq!(adapter.step_command(true).unwrap_err(), "No slideshow is currently running");
}

#[test]
fn step_commands_are_framed() {
    let mut adapter = LibreOfficeAdapter::default();
    adapter.handle_message(&["slideshow_started".to_string(), "3".to_string(), "0".to_string()]);
    assert_eq!(adapter.step_command(true).unwrap(), "transition_next\n\n");
    assert_eq!(adapter.step_command(false).unwrap(), "transition_previous\n\n");
    assert_eq!(command("x"), "x\n\n");
}

#[test]
fn pairing_message_pads_pin() {
    assert_eq!(pairing_message(1234), "LO_SERVER_CLIENT_PAIR\nSherPresent\n1234\n\n");
    assert_eq!(pairing_message(7), "LO_SERVER_CLIENT_PAIR\nSherPresent\n0007\n\n");
    assert_eq!(pairing_message(12345), "LO_SERVER_CLIENT_PAIR\nSherPresent\n12345\n\n");
}

#[test]
fn pin_from_nanos_wraps_into_range() {
    assert_eq!(pin_from_nanos(0), 1000);
    assert_eq!(pin_from_nanos(8999), 9999);
    assert_eq!(pin_from_nanos(9000), 1000);
    assert_eq!(pin_from_nanos(999_999_999), 1000 + (999_999_999 % 9000) as u16);
}

#[test]
fn open_presentations_only_when_connected() {
    let mut adapter = LibreOfficeAdapter::default();
    assert!(adapter.get_open_presentations().is_empty());
    adapter.set_connected();
    assert_eq!(adapter.get_open_presentations(), vec!["LibreOffice Impress".to_string()]);
}

#[test]
fn stripping_tags_keeps_text_in_order() {
    assert_eq!(strip_html_tags("plain notes, no tags"), "plain notes, no tags");
    assert_eq!(strip_html_tags("a<b>c</b>d<br/>e"), "acde");
    assert_eq!(strip_html_tags("x>y<z"), "xy");
}
