use sherpresent::osc::{
    encode_command, is_known, packet_into_messages, FeedbackState, OscArg, OscCommand,
    OscMessage, OscPacket, CURRENT_SLIDE, PRESENTATION_NAME, SLIDESHOW_NOTES, SLIDE_COUNT,
    V2_EVENT,
};

fn msg(addr: &str, arg: OscArg) -> OscMessage {
    OscMessage { addr: addr.to_string(), args: vec![arg] }
}

#[test]
fn currentslide_updates_state() {
    let mut s = FeedbackState::new();
    assert!(s.apply_message(&msg(CURRENT_SLIDE, OscArg::Int(7))));
    assert_eq!(s.current_slide, Some(7));
    assert!(s.last_updated.is_some());
}

#[test]
fn slidecount_updates_state() {
    let mut s = FeedbackState::new();
    s.apply_message(&msg(SLIDE_COUNT, OscArg::Int(42)));
    assert_eq!(s.slide_count, Some(42));
}

#[test]
fn v2_state_presenting_sets_bool() {
    let mut s = FeedbackState::new();
    s.apply_message(&msg("/oscpoint/state/presenting", OscArg::Bool(true)));
    assert_eq!(s.presenting, Some(true));
}

#[test]
fn unknown_address_does_not_change_state() {
    let mut s = FeedbackState::new();
    let changed = s.apply_message(&msg("/random/unknown/addr", OscArg::Int(1)));
    assert!(!changed);
    assert!(s.last_updated.is_none());
}

#[test]
fn remember_outgoing_command_records_short_name() {
    let mut s = FeedbackState::new();
    s.remember_outgoing_command("/oscpoint/next");
    assert_eq!(s.last_command.as_deref(), Some("next"));
    assert!(s.last_command_time.is_some());
}

#[test]
fn known_addresses() {
    assert!(is_known(CURRENT_SLIDE));
    assert!(is_known(SLIDE_COUNT));
    assert!(is_known(PRESENTATION_NAME));
    assert!(is_known(SLIDESHOW_NOTES));
    assert!(is_known(V2_EVENT));
    assert!(is_known("/oscpoint/state/anything"));
    assert!(!is_known("/oscpoint/state"));
    assert!(!is_known("/oscpoint/next"));
}

#[test]
fn arguments_convert_like_the_schema_says() {
    let mut s = FeedbackState::new();
    s.apply_message_at(&msg(CURRENT_SLIDE, OscArg::Long(5)), 10);
    assert_eq!(s.current_slide, Some(5));
    s.apply_message_at(&msg(CURRENT_SLIDE, OscArg::Str("x".to_string())), 11);
    assert_eq!(s.current_slide, None);
    assert_eq!(s.last_updated, Some(11));
    s.apply_message_at(&msg("/oscpoint/state/open", OscArg::Int(0)), 12);
    assert_eq!(s.open, Some(false));
    s.apply_message_at(&msg(PRESENTATION_NAME, OscArg::Str("Deck".to_string())), 13);
    assert_eq!(s.presentation_name, Some("Deck".to_string()));
    s.apply_message_at(&OscMessage { addr: SLIDESHOW_NOTES.to_string(), args: vec![] }, 14);
    assert_eq!(s.slide_notes, None);
    assert!(!s.apply_message_at(&msg("/oscpoint/state/other", OscArg::Bool(true)), 15));
    assert_eq!(s.last_updated, Some(14));
    assert!(!s.apply_message_at(&msg(V2_EVENT, OscArg::Str("slideshow_begin".to_string())), 16));
}

#[test]
fn receive_ignores_unknown_addresses() {
    let mut s = FeedbackState::new();
    assert!(!s.receive_at(&msg("/other", OscArg::Int(3)), 1));
    assert!(s.receive_at(&msg(SLIDE_COUNT, OscArg::Int(3)), 2));
    assert_eq!(s.slide_count, Some(3));
}

#[test]
fn applying_twice_is_the_same_as_once() {
    let mut a = FeedbackState::new();
    a.apply_message_at(&msg(SLIDE_COUNT, OscArg::Int(9)), 5);
    let mut b = FeedbackState::new();
    b.apply_message_at(&msg(SLIDE_COUNT, OscArg::Int(9)), 5);
    b.apply_message_at(&msg(SLIDE_COUNT, OscArg::Int(9)), 5);
    assert_eq!(a.slide_count, b.slide_count);
    assert_eq!(a.last_updated, b.last_updated);
}

#[test]
fn remember_command_without_slash_keeps_whole_address() {
    let mut s = FeedbackState::new();
    s.remember_outgoing_command_at("plain", 3);
    assert_eq!(s.last_command.as_deref(), Some("plain"));
    assert_eq!(s.last_command_time, Some(3));
    s.remember_outgoing_command_at("/oscpoint/goto/slide", 4);
    assert_eq!(s.last_command.as_deref(), Some("slide"));
}

#[test]
fn bundles_open_in_order() {
    let p = OscPacket::Bundle(vec![
        OscPacket::Message(msg("/a", OscArg::Other)),
        OscPacket::Bundle(vec![
            OscPacket::Message(msg("/b", OscArg::Other)),
            OscPacket::Message(msg("/c", OscArg::Other)),
        ]),
        OscPacket::Message(msg("/d", OscArg::Other)),
    ]);
    let addrs: Vec<String> = packet_into_messages(p).into_iter().map(|m| m.addr).collect();
    assert_eq!(addrs, vec!["/a", "/b", "/c", "/d"]);
}

#[test]
fn commands_encode_as_osc() {
    let next = encode_command(OscCommand::Next);
    let mut expected = b"/oscpoint/next\0\0".to_vec();
    expected.extend_from_slice(b",\0\0\0");
    assert_eq!(next, expected);
    let goto = encode_command(OscCommand::Goto(3));
    let mut expected = b"/oscpoint/goto/slide\0\0\0\0".to_vec();
    expected.extend_from_slice(b",i\0\0");
    expected.extend_from_slice(&[0, 0, 0, 3]);
    assert_eq!(goto, expected);
}

#[test]
fn only_the_addressed_state_field_changes() {
    let mut s = FeedbackState::new();
    assert!(s.apply_message(&msg("/oscpoint/state/open", OscArg::Bool(true))));
    assert_eq!(s.open, Some(true));
    assert_eq!(s.presenting, None);
    assert!(s.last_updated.is_some());
    let before = s.last_updated;
    assert!(!s.apply_message(&msg("/oscpoint/state/other", OscArg::Bool(true))));
    assert!(!s.apply_message(&msg(V2_EVENT, OscArg::Bool(true))));
    assert_eq!(s.last_updated, before);
    assert_eq!(s.open, Some(true));
    assert!(s.apply_message(&msg("/oscpoint/state/presenting", OscArg::Str("yes".into()))));
    assert_eq!(s.presenting, None);
    assert_eq!(s.open, Some(true));
}
