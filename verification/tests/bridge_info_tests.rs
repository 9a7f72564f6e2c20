use sherpresent::bindings::{BindingTable, DeviceTarget, KeyAction};
use sherpresent::bridge::{
    bridge_info, classify_device, config_url, DeviceTracker, mode_name, route_request, usb_permission_status, BridgeEvent,
    BridgeMode, HttpRoute, UsbDeviceInfo, UsbEvent, UsbEventStep,
};

#[test]
fn config_url_uses_lan_ip_or_localhost() {
    assert_eq!(config_url(Some("192.168.1.20"), 8787), "http://192.168.1.20:8787/");
    assert_eq!(config_url(None, 80), "http://localhost:80/");
}

#[test]
fn bridge_info_describes_the_bridge() {
    let info = bridge_info(
        "b-1".into(),
        "Stage left".into(),
        9001,
        8787,
        BridgeMode::Satellite,
        "info".into(),
        None,
    );
    assert_eq!(info.mode, "satellite");
    assert_eq!(info.config_url, "http://localhost:8787/");
    assert_eq!(info.feedback_port, 9001);
    assert_eq!(mode_name(BridgeMode::Direct), "direct");
}

#[test]
fn permission_status_reports_unreadable_devices() {
    let ok = usb_permission_status(0);
    assert!(!ok.access_denied);
    assert_eq!(ok.count, 0);
    let denied = usb_permission_status(2);
    assert!(denied.access_denied);
    assert_eq!(denied.count, 2);
    assert_eq!(denied.fix_command, "sudo usermod -aG input $USER");
}

fn clicker() -> UsbDeviceInfo {
    UsbDeviceInfo {
        id: "usb-0000:00:14.0-1/input0".into(),
        name: "Perfect Cue".into(),
        path: "/dev/input/event5".into(),
        vendor_id: 0x1234,
        product_id: 0x5678,
        phys: "usb-0000:00:14.0-1/input0".into(),
        is_perfect_cue: true,
    }
}

#[test]
fn usb_events_become_ui_events_or_commands() {
    let mut t = BindingTable::new();
    t.confirm_binding("usb-1".into(), "Clicker".into(), "KEY_RIGHT".into(), KeyAction::Next);
    t.set_device_target("usb-1", Some(DeviceTarget { host: "10.0.0.5".into(), port: 8000 }))
        .unwrap();

    match t.usb_event_step(None, UsbEvent::Connected(clicker())) {
        UsbEventStep::Notify(BridgeEvent::UsbConnected(info)) => assert_eq!(info.name, "Perfect Cue"),
        other => panic!("unexpected {:?}", other),
    }
    match t.usb_event_step(None, UsbEvent::Disconnected { device_id: "usb-1".into() }) {
        UsbEventStep::Notify(BridgeEvent::UsbDisconnected { device_id }) => assert_eq!(device_id, "usb-1"),
        other => panic!("unexpected {:?}", other),
    }
    match t.usb_event_step(None, UsbEvent::AccessDenied { count: 3 }) {
        UsbEventStep::Notify(BridgeEvent::UsbAccessDenied { count }) => assert_eq!(count, 3),
        other => panic!("unexpected {:?}", other),
    }
    match t.usb_event_step(
        None,
        UsbEvent::KeyUp { device_id: "usb-1".into(), key: "KEY_RIGHT".into() },
    ) {
        UsbEventStep::Send { action, host, port } => {
            assert_eq!(action, KeyAction::Next);
            assert_eq!(host, "10.0.0.5");
            assert_eq!(port, 8000);
        }
        other => panic!("unexpected {:?}", other),
    }
    assert!(matches!(
        t.usb_event_step(None, UsbEvent::KeyUp { device_id: "usb-1".into(), key: "KEY_A".into() }),
        UsbEventStep::Ignore
    ));
    match t.usb_event_step(
        Some("prev".into()),
        UsbEvent::KeyUp { device_id: "usb-2".into(), key: "KEY_B".into() },
    ) {
        UsbEventStep::Notify(BridgeEvent::RegistrationDetected { device_id, action, key }) => {
            assert_eq!((device_id.as_str(), action.as_str(), key.as_str()), ("usb-2", "prev", "KEY_B"));
        }
        other => panic!("unexpected {:?}", other),
    }
}

fn device(id: &str) -> UsbDeviceInfo {
    UsbDeviceInfo {
        id: id.into(),
        name: "Clicker".into(),
        path: "/dev/input/event3".into(),
        vendor_id: 1,
        product_id: 2,
        phys: id.into(),
        is_perfect_cue: false,
    }
}

fn connected_ids(events: &[UsbEvent]) -> Vec<String> {
    events
        .iter()
        .map(|e| match e {
            UsbEvent::Connected(info) => info.id.clone(),
            other => panic!("unexpected {:?}", other),
        })
        .collect()
}

#[test]
fn scans_report_each_device_once() {
    let mut t = DeviceTracker::new();
    let first = t.on_scan(vec![device("usb-a"), device("usb-b"), device("usb-a")]);
    assert_eq!(connected_ids(&first), vec!["usb-a", "usb-b"]);
    let again = t.on_scan(vec![device("usb-b"), device("usb-c")]);
    assert_eq!(connected_ids(&again), vec!["usb-c"]);
    assert_eq!(t.reading, vec!["usb-a", "usb-b", "usb-c"]);
    assert_eq!(t.devices.len(), 3);

    match t.on_reader_exit("usb-b".into()) {
        UsbEvent::Disconnected { device_id } => assert_eq!(device_id, "usb-b"),
        other => panic!("unexpected {:?}", other),
    }
    assert_eq!(t.devices.len(), 2);
    // Still has a reader slot until the scan reaps it.
    assert!(t.on_scan(vec![device("usb-b")]).is_empty());
    let _ = t.on_reader_reaped("usb-b".into());
    assert_eq!(t.reading, vec!["usb-a", "usb-c"]);
    // Plugged back in: reported again.
    assert_eq!(connected_ids(&t.on_scan(vec![device("usb-b")])), vec!["usb-b"]);
}

#[test]
fn only_usb_key_devices_are_read() {
    let info = classify_device(
        None,
        "/dev/input/event4".into(),
        0x1ea7,
        0x0066,
        Some("usb-0000:00:14.0-2/input0".into()),
        true,
        false,
    )
    .unwrap();
    assert_eq!(info.id, "usb-0000:00:14.0-2/input0");
    assert_eq!(info.name, "unknown");
    assert!(classify_device(Some("CEC".into()), "p".into(), 0, 0, Some("usb-hdmi-cec".into()), true, false).is_none());
    assert!(classify_device(Some("Pad".into()), "p".into(), 0, 0, Some("usb-1".into()), false, false).is_none());
    assert!(classify_device(Some("Pad".into()), "p".into(), 0, 0, None, true, false).is_none());
    assert!(classify_device(Some("BT".into()), "p".into(), 0, 0, Some("bluetooth".into()), true, false).is_none());
}

#[test]
fn routes_the_configuration_api() {
    assert_eq!(route_request(false, "/"), Some(HttpRoute::StatusPage));
    assert_eq!(route_request(false, "/status"), Some(HttpRoute::Status));
    assert_eq!(route_request(false, "/peers"), Some(HttpRoute::Peers));
    assert_eq!(route_request(false, "/feedback"), Some(HttpRoute::Feedback));
    assert_eq!(route_request(false, "/config/global"), Some(HttpRoute::GetGlobalConfig));
    assert_eq!(route_request(true, "/config/global"), Some(HttpRoute::SaveGlobalConfig));
    assert_eq!(route_request(false, "/devices/registered"), Some(HttpRoute::RegisteredDevices));
    assert_eq!(route_request(true, "/status"), None);
    assert_eq!(route_request(false, "/nowhere"), None);
}

#[test]
fn routes_device_targets_by_slot() {
    assert_eq!(
        route_request(true, "/devices/usb-1234/target"),
        Some(HttpRoute::SetDeviceTarget { slot: "usb-1234".to_string() })
    );
    assert_eq!(route_request(false, "/devices/usb-1234/target"), None);
    assert_eq!(route_request(true, "/devices//target"), None);
    assert_eq!(route_request(true, "/devices/a/b/target"), None);
}
