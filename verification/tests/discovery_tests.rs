use sherpresent::discovery::{lan_ip, page_url};
use sherpresent::discovery::{
    instance_from_fullname, is_link_local, pick_host, DiscoveredPeer, PeerTable,
    ResolvedService, SERVICE_TYPE,
};

#[test]
fn test_service_type() {
    assert!(SERVICE_TYPE.ends_with(".local."));
    assert!(SERVICE_TYPE.contains("_sher-present"));
}

fn service(id: &str, addrs: Vec<(&str, bool)>) -> ResolvedService {
    ResolvedService {
        instance: Some(id.to_string()),
        channel: Some("main".to_string()),
        version: None,
        name: Some(format!("{} laptop", id)),
        config_port: Some("8080".to_string()),
        addresses: addrs.into_iter().map(|(a, v4)| (a.to_string(), v4)).collect(),
        port: 9000,
    }
}

fn me(id: &str) -> DiscoveredPeer {
    DiscoveredPeer {
        instance_id: id.to_string(),
        display_name: None,
        display_id: 1,
        channel: "main".to_string(),
        host: "127.0.0.1".to_string(),
        port: 9000,
        version: "1".to_string(),
        is_self: true,
        config_port: None,
    }
}

#[test]
fn display_ids_start_after_ours_and_stay_stable() {
    let mut t = PeerTable::new("me".to_string());
    assert_eq!(t.assign_display_id("me"), 1);
    assert_eq!(t.assign_display_id("a"), 2);
    assert_eq!(t.assign_display_id("b"), 3);
    assert_eq!(t.assign_display_id("a"), 2);
}

#[test]
fn resolved_peers_enter_the_table() {
    let mut t = PeerTable::new("me".to_string());
    assert!(t.on_resolved(service("a", vec![("fe80::1", false), ("10.0.0.2", true)])));
    assert!(!t.on_resolved(service("me", vec![("10.0.0.1", true)])));
    assert!(!t.on_resolved(service("b", vec![])));
    let peers = t.peer_list();
    assert_eq!(peers.len(), 1);
    let p = &peers[0];
    assert_eq!(p.host, "10.0.0.2");
    assert_eq!(p.display_id, 2);
    assert_eq!(p.version, "1");
    assert_eq!(p.config_port, Some(8080));
    assert_eq!(p.display_name.as_deref(), Some("a laptop"));
    assert!(!p.is_self);
    assert!(t.on_resolved(service("a", vec![("fe80::9", false)])));
    let peers = t.peer_list();
    assert_eq!(peers.len(), 1);
    assert_eq!(peers[0].host, "fe80::9");
    assert_eq!(peers[0].display_id, 2);
}

#[test]
fn removed_peers_keep_their_number() {
    let mut t = PeerTable::new("me".to_string());
    t.on_resolved(service("a", vec![("10.0.0.2", true)]));
    t.on_resolved(service("b", vec![("10.0.0.3", true)]));
    t.remove_peer(&instance_from_fullname("a._sher-present._udp.local."));
    assert_eq!(t.peer_list().len(), 1);
    t.on_resolved(service("a", vec![("10.0.0.2", true)]));
    let sorted = t.get_peers(me("me"));
    let ids: Vec<u8> = sorted.iter().map(|p| p.display_id).collect();
    assert_eq!(ids, vec![1, 2, 3]);
    assert_eq!(sorted[0].instance_id, "me");
    assert_eq!(sorted[1].instance_id, "a");
}

#[test]
fn host_choice_and_link_local() {
    assert_eq!(pick_host(&vec![]), "");
    assert_eq!(pick_host(&vec![("x".to_string(), false)]), "x");
    assert!(is_link_local([169, 254, 3, 4]));
    assert!(!is_link_local([169, 253, 3, 4]));
    assert_eq!(instance_from_fullname("nodots"), "nodots");
}

use sherpresent::discovery::{interface_choice, ipv4_interface, mdns_hostname, registration_properties, InterfaceChoice};

#[test]
fn registration_records() {
    assert_eq!(mdns_hostname("studio"), "studio.local.");
    let props = registration_properties("main", "id-1", &None, "studio");
    assert_eq!(
        props,
        vec![
            ("channel".to_string(), "main".to_string()),
            ("version".to_string(), "1".to_string()),
            ("instance".to_string(), "id-1".to_string()),
            ("name".to_string(), "studio".to_string())
        ]
    );
    let props = registration_properties("b", "i", &Some("Stage".to_string()), "h");
    assert_eq!(props[3].1, "Stage");
}

#[test]
fn interfaces() {
    assert_eq!(interface_choice(None), InterfaceChoice::All);
    assert_eq!(interface_choice(Some("auto".into())), InterfaceChoice::All);
    assert_eq!(interface_choice(Some("en0".into())), InterfaceChoice::Named("en0".into()));
    let i = ipv4_interface("en0".into(), [192, 168, 0, 17], false).unwrap();
    assert_eq!(i.ip, "192.168.0.17");
    assert!(ipv4_interface("x".into(), [169, 254, 1, 1], false).is_none());
}

#[test]
fn loopback_is_no_lan_address() {
    assert_eq!(lan_ip("127.0.0.1".to_string()), None);
    assert_eq!(lan_ip("192.168.1.7".to_string()), Some("192.168.1.7".to_string()));
}

#[test]
fn web_pages_are_addressed_on_the_lan() {
    assert_eq!(page_url("192.168.1.7", 8080, ""), "http://192.168.1.7:8080");
    assert_eq!(page_url("192.168.1.7", 8080, "/captions"), "http://192.168.1.7:8080/captions");
}
