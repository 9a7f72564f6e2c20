use sherpresent::adapters::Platform;
use sherpresent::config::{
    default_broadcast_port, AppConfig, ChannelConfig, FeedbackDestination, LoggingConfig,
    OscConfig, DEFAULT_BROADCAST_PORT,
};

#[test]
fn destination_address_text() {
    let d = FeedbackDestination::new("192.168.1.2".to_string(), 9001);
    assert_eq!(d.to_addr_string(), "192.168.1.2:9001");
    let d = FeedbackDestination::new("h".to_string(), 0);
    assert_eq!(d.to_addr_string(), "h:0");
}

#[test]
fn legacy_destination_goes_first_when_missing() {
    let mut c = OscConfig::default();
    c.feedback_destinations.push(FeedbackDestination::new("10.0.0.9".to_string(), 7000));
    let all = c.get_all_destinations();
    assert_eq!(all.len(), 2);
    assert_eq!(all[0].host, "127.0.0.1");
    assert_eq!(all[0].port, 9001);
    assert_eq!(all[1].host, "10.0.0.9");
}

#[test]
fn legacy_destination_not_duplicated() {
    let mut c = OscConfig::default();
    c.feedback_destinations.push(FeedbackDestination::new("10.0.0.9".to_string(), 7000));
    c.feedback_destinations.push(FeedbackDestination::new("127.0.0.1".to_string(), 9001));
    let all = c.get_all_destinations();
    assert_eq!(all.len(), 2);
    assert_eq!(all[0].host, "10.0.0.9");
    assert_eq!(all[1].port, 9001);
    let none = OscConfig::default().get_all_destinations();
    assert_eq!(none.len(), 1);
}

#[test]
fn osc_defaults() {
    let c = OscConfig::default();
    assert_eq!(c.receive_port, 9000);
    assert_eq!(c.feedback_port, 9001);
    assert_eq!(c.feedback_host, "127.0.0.1");
    assert_eq!(c.host, "0.0.0.0");
}

#[test]
fn channel_names() {
    assert!(ChannelConfig::is_valid_channel_name("main"));
    assert!(ChannelConfig::is_valid_channel_name("keynote9"));
    assert!(ChannelConfig::is_valid_channel_name("aux1"));
    assert!(!ChannelConfig::is_valid_channel_name("aux10"));
    assert!(!ChannelConfig::is_valid_channel_name("Main"));
    assert!(!ChannelConfig::is_valid_channel_name(""));
}

#[test]
fn channel_defaults_and_prefix() {
    let c = ChannelConfig::default();
    assert!(!c.enabled);
    assert_eq!(c.channel_name, "main");
    assert_eq!(c.broadcast_port, 9002);
    assert_eq!(c.osc_prefix(), "/clicker/main");
    assert!(!c.instance_id.is_empty());
    assert_ne!(c.instance_id, ChannelConfig::default().instance_id);
    assert_eq!(default_broadcast_port(), DEFAULT_BROADCAST_PORT);
}

#[test]
fn app_defaults_per_platform() {
    assert_eq!(AppConfig::default_for(Platform::MacOs).adapter, "powerpoint");
    assert_eq!(AppConfig::default_for(Platform::Linux).adapter, "libreoffice");
    assert_eq!(AppConfig::default_for(Platform::Windows).adapter, "libreoffice");
    let l = LoggingConfig::default();
    assert!(l.enabled && !l.verbose);
}
