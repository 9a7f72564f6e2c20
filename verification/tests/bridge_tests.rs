use sherpresent::bindings::{
    parse_key_action, validate_bridge_name, BindingTable, DeviceTarget, KeyAction, KeyUpOutcome,
};
use sherpresent::usb::{
    count_inaccessible, is_inaccessible_node, NodeProbe,
    caps_report_keys, event_number_of, is_key_release, is_usb_phys, parse_args,
    phys_from_uevent, AccessWatch, CliRequest,
};

#[test]
fn key_actions_by_name() {
    assert_eq!(parse_key_action("next"), Some(KeyAction::Next));
    assert_eq!(parse_key_action("prev"), Some(KeyAction::Prev));
    assert_eq!(parse_key_action("Next"), None);
}

#[test]
fn bindings_route_key_ups() {
    let mut t = BindingTable::new();
    t.confirm_binding("usb-1".into(), "Clicker".into(), "KEY_RIGHT".into(), KeyAction::Next);
    t.confirm_binding("usb-1".into(), "Clicker".into(), "KEY_LEFT".into(), KeyAction::Prev);
    assert!(matches!(
        t.on_key_up(None, "usb-1".into(), "KEY_RIGHT".into()),
        KeyUpOutcome::Ignore
    ));
    assert_eq!(
        t.set_device_target("nope", None).unwrap_err(),
        "device not found"
    );
    t.set_device_target("usb-1", Some(DeviceTarget { host: "10.0.0.4".into(), port: 9000 }))
        .unwrap();
    match t.on_key_up(None, "usb-1".into(), "KEY_LEFT".into()) {
        KeyUpOutcome::Send { action, host, port } => {
            assert_eq!(action, KeyAction::Prev);
            assert_eq!(host, "10.0.0.4");
            assert_eq!(port, 9000);
        }
        other => panic!("{:?}", other),
    }
    match t.on_key_up(Some("next".into()), "usb-2".into(), "KEY_A".into()) {
        KeyUpOutcome::Register { device_id, action, key } => {
            assert_eq!(device_id, "usb-2");
            assert_eq!(action, "next");
            assert_eq!(key, "KEY_A");
        }
        other => panic!("{:?}", other),
    }
    assert!(matches!(t.on_key_up(None, "usb-1".into(), "KEY_B".into()), KeyUpOutcome::Ignore));
}

#[test]
fn rebinding_replaces_and_removing_last_drops_device() {
    let mut t = BindingTable::new();
    t.confirm_binding("d".into(), "n".into(), "K".into(), KeyAction::Next);
    t.confirm_binding("d".into(), "n".into(), "K".into(), KeyAction::Prev);
    assert_eq!(t.devices.len(), 1);
    assert_eq!(t.devices[0].bindings, vec![("K".to_string(), KeyAction::Prev)]);
    t.remove_binding("d", "other");
    assert_eq!(t.devices.len(), 1);
    t.remove_binding("d", "K");
    assert!(t.devices.is_empty());
}

#[test]
fn bridge_names_must_not_be_blank() {
    assert_eq!(validate_bridge_name("  ").unwrap_err(), "Bridge name cannot be empty");
    assert!(validate_bridge_name(" Stage left ").is_ok());
}

#[test]
fn usb_phys_filter() {
    assert!(is_usb_phys("usb-0000:01:00.0-1.3/input0"));
    assert!(is_usb_phys("USB-3/input1"));
    assert!(!is_usb_phys(""));
    assert!(!is_usb_phys("isa0060/serio0/input0"));
    assert!(!is_usb_phys("usb-hdmi-cec/input0"));
}

#[test]
fn uevent_phys_line() {
    let uevent = "PRODUCT=3/46d/c52b/111\nNAME=\"Logitech\"\nPHYS=\"usb-0000:00:14.0-2/input0\"\r\nUNIQ=\"\"\n";
    assert_eq!(phys_from_uevent(uevent).as_deref(), Some("usb-0000:00:14.0-2/input0"));
    assert_eq!(phys_from_uevent("NAME=x\n"), None);
    assert_eq!(phys_from_uevent("PHYS=  plain  "), Some("plain".to_string()));
}

#[test]
fn key_capability_bitmaps() {
    assert!(caps_report_keys("0 0 1\n"));
    assert!(caps_report_keys("  ffffffffffffffff"));
    assert!(!caps_report_keys("0 0 0"));
    assert!(!caps_report_keys(""));
    assert!(!caps_report_keys("zz 10000000000000000"));
    assert!(caps_report_keys("zz +a"));
}

#[test]
fn event_nodes_and_key_releases() {
    assert_eq!(event_number_of("event12").as_deref(), Some("12"));
    assert_eq!(event_number_of("mouse0"), None);
    assert!(is_key_release(0));
    assert!(!is_key_release(1));
    assert!(!is_key_release(2));
}

#[test]
fn access_changes_are_reported_once() {
    let mut w = AccessWatch::new();
    assert_eq!(w.update(0), None);
    assert_eq!(w.update(2), Some(2));
    assert_eq!(w.update(2), None);
    assert_eq!(w.update(0), Some(0));
}

fn args(list: &[&str]) -> Vec<String> {
    list.iter().map(|s| s.to_string()).collect()
}

#[test]
fn headless_command_line() {
    assert_eq!(parse_args(&args(&[])), CliRequest::Run { config_dir: None });
    assert_eq!(
        parse_args(&args(&["-c", "/etc/a", "--config-dir", "/etc/b"])),
        CliRequest::Run { config_dir: Some("/etc/b".to_string()) }
    );
    assert_eq!(parse_args(&args(&["-c"])), CliRequest::Run { config_dir: None });
    assert_eq!(parse_args(&args(&["--help", "--bogus"])), CliRequest::Help);
    assert_eq!(parse_args(&args(&["--bogus", "-h"])), CliRequest::Unknown("--bogus".to_string()));
}

fn node(name: &str, denied: bool, phys: &str, caps: &str) -> NodeProbe {
    NodeProbe {
        file_name: name.into(),
        permission_denied: denied,
        uevent: Some(format!("NAME=\"x\"\nPHYS=\"{}\"\nUNIQ=\"\"\n", phys)),
        key_caps: Some(caps.into()),
    }
}

#[test]
fn unreadable_usb_key_devices_are_counted() {
    let nodes = vec![
        node("event3", true, "usb-0000:00:14.0-2/input0", "10000 0 0"),
        node("event4", false, "usb-0000:00:14.0-3/input0", "10000"),
        node("event5", true, "usb-hdmi-cec", "ff"),
        node("event6", true, "isa0060/serio0/input0", "ff"),
        node("event7", true, "USB-0000:00:14.0-4/input0", "0 0"),
        node("mice", true, "usb-0000:00:14.0-2/input0", "ff"),
        NodeProbe { file_name: "event8".into(), permission_denied: true, uevent: None, key_caps: None },
    ];
    assert!(is_inaccessible_node(&nodes[0]));
    assert!(!is_inaccessible_node(&nodes[4]));
    assert_eq!(count_inaccessible(&nodes), 1);
}
