//! Tests of the configuration parsing and per-source mapping rules.

use device_locator::adapters::{
    next_poll_action, opnsense_records, session_invalid, AccessPointDirectory, ArpEntry, HPSwitch,
    MacTableEntry, PollAction, UniFiAP, UniFiController, WirelessClient,
};
use device_locator::config::{build_hp_switch, is_valid_ipv4, HPSwitchConfig};
use device_locator::ports::{generate_port_range, get_port_list};

fn switch_config(ip: &str, ports: &str, location: &str) -> HPSwitchConfig {
    HPSwitchConfig {
        ip: ip.to_string(),
        ports: ports.to_string(),
        location: location.to_string(),
    }
}

#[test]
fn port_list_expands_singles_and_ranges() {
    let cfg = switch_config("10.0.0.2", "1,3,5-8", "closet");
    assert_eq!(get_port_list(&cfg), vec![1, 3, 5, 6, 7, 8]);
}

#[test]
fn port_range_degenerate_is_single_port() {
    let cfg = switch_config("10.0.0.2", "10-10", "closet");
    assert_eq!(get_port_list(&cfg), vec![10]);

    let pr = generate_port_range("10-10").unwrap();
    assert_eq!(pr.from, 10);
    assert_eq!(pr.to, 10);
}

#[test]
fn invalid_port_tokens_skipped_without_aborting() {
    let cfg = switch_config("10.0.0.2", "1,abc,99-5,100,4", "closet");
    assert_eq!(get_port_list(&cfg), vec![1, 4]);
}

#[test]
fn port_tokens_are_trimmed() {
    let pr = generate_port_range(" 5-8 ").unwrap();
    assert_eq!(pr.from, 5);
    assert_eq!(pr.to, 8);
    let cfg = switch_config("10.0.0.2", " 1 , 2-3 ", "closet");
    assert_eq!(get_port_list(&cfg), vec![1, 2, 3]);
}

#[test]
fn reversed_and_oversized_ranges_rejected() {
    assert!(generate_port_range("99-5").is_none());
    assert!(generate_port_range("100").is_none());
    assert!(generate_port_range("1-100").is_none());
    assert!(generate_port_range("abc").is_none());
    assert!(generate_port_range("").is_none());
    assert!(generate_port_range("1-").is_none());
    assert!(generate_port_range("-5").is_none());
}

#[test]
fn ipv4_validation_accepts_dotted_quads() {
    assert!(is_valid_ipv4("10.0.0.5"));
    assert!(is_valid_ipv4("192.168.1.254"));
    assert!(is_valid_ipv4("999.999.999.999"));
    assert!(is_valid_ipv4("1.2.3.4suffix"));
}

#[test]
fn ipv4_validation_rejects_malformed_addresses() {
    assert!(!is_valid_ipv4("abc"));
    assert!(!is_valid_ipv4("1.2.3"));
    assert!(!is_valid_ipv4("1234.1.1.1"));
    assert!(!is_valid_ipv4(""));
    assert!(!is_valid_ipv4("1.2.3."));
}

#[test]
fn switch_with_bad_address_is_rejected() {
    assert!(build_hp_switch(&switch_config("not-an-ip", "1", "x")).is_none());
    let sw = build_hp_switch(&switch_config("10.0.0.2", "2,4-5", "closet")).unwrap();
    assert_eq!(sw.ip, "10.0.0.2");
    assert_eq!(sw.ports, vec![2, 4, 5]);
    assert_eq!(sw.location, "closet");
}

#[test]
fn hp_mac_is_normalised_with_colons() {
    let sw = HPSwitch::new("10.0.0.2".to_string(), vec![1], "closet".to_string());
    assert_eq!(
        sw.format_hp_mac("aabbcc-ddeeff".to_string()),
        "aa:bb:cc:dd:ee:ff"
    );
    assert_eq!(sw.format_hp_mac("aabb".to_string()), "aabb");
}

#[test]
fn mac_table_filtered_by_vlan_and_port() {
    let sw = HPSwitch::new("10.0.0.2".to_string(), vec![1, 7], "closet".to_string());
    let entries = vec![
        MacTableEntry {
            mac_address: "aabbcc-ddeeff".to_string(),
            port_id: "7".to_string(),
            vlan_id: 23,
        },
        MacTableEntry {
            mac_address: "aabbcc-dd0000".to_string(),
            port_id: "7".to_string(),
            vlan_id: 5,
        },
        MacTableEntry {
            mac_address: "aabbcc-dd1111".to_string(),
            port_id: "9".to_string(),
            vlan_id: 23,
        },
    ];
    let out = sw.map_mac_table(&entries);
    assert_eq!(out.len(), 1);
    assert_eq!(out[0].device_mac, "aa:bb:cc:dd:ee:ff");
    assert_eq!(out[0].remote_ip, "10.0.0.2");
    assert_eq!(out[0].location, "closet");
    assert_eq!(out[0].ipv4, "");
    assert_eq!(out[0].remote_mac, "");
}

#[test]
fn controller_clients_resolve_ap_location() {
    let dir = AccessPointDirectory::new(vec![
        UniFiAP {
            mac: "ap:01".to_string(),
            location: "lobby".to_string(),
        },
        UniFiAP {
            mac: "ap:02".to_string(),
            location: "office".to_string(),
        },
    ]);
    let ctl = UniFiController::new(dir);
    let clients = vec![
        WirelessClient {
            mac: "m1".to_string(),
            ap_mac: "ap:02".to_string(),
            ip: Some("10.0.0.8".to_string()),
        },
        WirelessClient {
            mac: "m2".to_string(),
            ap_mac: "ap:99".to_string(),
            ip: None,
        },
    ];
    let out = ctl.map_clients(&clients);
    assert_eq!(out.len(), 2);
    assert_eq!(out[0].device_mac, "m1");
    assert_eq!(out[0].ipv4, "10.0.0.8");
    assert_eq!(out[0].remote_mac, "ap:02");
    assert_eq!(out[0].location, "office");
    assert_eq!(out[0].remote_ip, "");
    assert_eq!(out[1].ipv4, "");
    assert_eq!(out[1].location, "");
}

#[test]
fn later_directory_entry_wins_for_same_ap() {
    let dir = AccessPointDirectory::new(vec![
        UniFiAP {
            mac: "ap:01".to_string(),
            location: "old".to_string(),
        },
        UniFiAP {
            mac: "ap:01".to_string(),
            location: "new".to_string(),
        },
    ]);
    let ctl = UniFiController::new(dir);
    assert_eq!(ctl.get_ap_location(&"ap:01".to_string()), "new");
    assert_eq!(ctl.get_ap_location(&"ap:xx".to_string()), "");
}

#[test]
fn arp_rows_map_to_ip_only_records() {
    let out = opnsense_records(&vec![ArpEntry {
        mac: "m1".to_string(),
        ip: "10.0.0.5".to_string(),
    }]);
    assert_eq!(out.len(), 1);
    assert_eq!(out[0].device_mac, "m1");
    assert_eq!(out[0].ipv4, "10.0.0.5");
    assert_eq!(out[0].remote_ip, "");
    assert_eq!(out[0].remote_mac, "");
    assert_eq!(out[0].location, "");
}

#[test]
fn controller_session_retried_exactly_once() {
    assert!(matches!(next_poll_action(false, false), PollAction::UseData));
    assert!(matches!(
        next_poll_action(true, false),
        PollAction::LoginAndRetry
    ));
    assert!(matches!(next_poll_action(true, true), PollAction::Abandon));
    assert!(matches!(next_poll_action(false, true), PollAction::UseData));
}

#[test]
fn error_meta_code_marks_session_invalid() {
    assert!(session_invalid("error"));
    assert!(!session_invalid("ok"));
    assert!(!session_invalid(""));
}
