//! Behavioural tests of the merge, reconciliation and publish core.

use device_locator::merge::{run_cycle, MergedMap};
use device_locator::publish::SharedPublishState;
use device_locator::reconcile::{fill_missing_information, reconcile};
use device_locator::record::DeviceLocation;

fn rec(
    device_mac: &str,
    ipv4: &str,
    remote_ip: &str,
    remote_mac: &str,
    location: &str,
) -> DeviceLocation {
    DeviceLocation {
        ipv4: ipv4.to_string(),
        ipv6: Vec::new(),
        device_mac: device_mac.to_string(),
        remote_ip: remote_ip.to_string(),
        remote_mac: remote_mac.to_string(),
        location: location.to_string(),
    }
}

#[test]
fn merge_preserves_learned_ipv4() {
    let mut map = MergedMap::new();
    map.insert(rec("m", "10.0.0.5", "", "", ""));
    map.insert(rec("m", "", "", "aa:bb", ""));
    let records = map.records();
    assert_eq!(records.len(), 1);
    assert_eq!(records[0].device_mac, "m");
    assert_eq!(records[0].ipv4, "10.0.0.5");
    assert_eq!(records[0].remote_mac, "aa:bb");
}

#[test]
fn merge_later_nonempty_ipv4_wins() {
    let mut map = MergedMap::new();
    map.insert(rec("m", "10.0.0.5", "", "", "old"));
    map.insert(rec("m", "10.0.0.6", "", "", "new"));
    let records = map.records();
    assert_eq!(records.len(), 1);
    assert_eq!(records[0].ipv4, "10.0.0.6");
    assert_eq!(records[0].location, "new");
}

#[test]
fn merge_other_fields_overwritten_even_when_ipv4_kept() {
    let mut map = MergedMap::new();
    map.insert(rec("m", "10.0.0.5", "1.1.1.1", "aa", "here"));
    map.insert(rec("m", "", "", "", ""));
    let records = map.records();
    assert_eq!(records[0].ipv4, "10.0.0.5");
    assert_eq!(records[0].remote_ip, "");
    assert_eq!(records[0].remote_mac, "");
    assert_eq!(records[0].location, "");
}

#[test]
fn merge_distinct_devices_kept_apart() {
    let mut map = MergedMap::new();
    map.insert(rec("m1", "10.0.0.5", "", "", ""));
    map.insert(rec("m2", "", "", "aa:bb", ""));
    let records = map.records();
    assert_eq!(records.len(), 2);
    assert_eq!(records[0].device_mac, "m1");
    assert_eq!(records[1].device_mac, "m2");
}

#[test]
fn absorb_none_contributes_nothing() {
    let mut map = MergedMap::new();
    map.insert(rec("m1", "10.0.0.5", "", "aa", ""));
    map.absorb(None);
    assert_eq!(map.records().len(), 1);
    assert_eq!(map.records()[0].device_mac, "m1");
    assert_eq!(map.records()[0].ipv4, "10.0.0.5");
}

#[test]
fn run_cycle_folds_adapter_results_in_order() {
    let map = run_cycle(vec![
        Some(vec![rec("m1", "10.0.0.5", "", "", "")]),
        None,
        Some(vec![rec("m1", "", "", "aa", ""), rec("m2", "", "", "bb", "")]),
    ]);
    let records = map.records();
    assert_eq!(records.len(), 2);
    assert_eq!(records[0].device_mac, "m1");
    assert_eq!(records[0].ipv4, "10.0.0.5");
    assert_eq!(records[0].remote_mac, "aa");
    assert_eq!(records[1].device_mac, "m2");
    assert_eq!(records[1].remote_mac, "bb");
}

#[test]
fn absorb_merges_each_record_in_order() {
    let mut map = MergedMap::new();
    map.absorb(Some(vec![
        rec("m1", "10.0.0.5", "", "", ""),
        rec("m2", "", "", "bb", ""),
        rec("m1", "", "", "aa", ""),
    ]));
    let records = map.records();
    assert_eq!(records.len(), 2);
    assert_eq!(records[0].device_mac, "m1");
    assert_eq!(records[0].ipv4, "10.0.0.5");
    assert_eq!(records[0].remote_mac, "aa");
    assert_eq!(records[1].device_mac, "m2");
}

#[test]
fn cross_reference_fills_remote_mac_from_ip() {
    let mut map = MergedMap::new();
    map.insert(rec("m1", "10.0.0.5", "", "", ""));
    map.insert(rec("m2", "", "10.0.0.5", "", ""));
    let out = reconcile(&map);
    assert_eq!(out.len(), 1);
    assert_eq!(out[0].device_mac, "m2");
    assert_eq!(out[0].remote_mac, "m1");
    assert_eq!(out[0].remote_ip, "10.0.0.5");
}

#[test]
fn cross_reference_fills_remote_ip_from_mac() {
    let mut map = MergedMap::new();
    map.insert(rec("ap1", "10.0.0.9", "", "", ""));
    map.insert(rec("m2", "", "", "ap1", ""));
    let out = fill_missing_information(&map);
    assert_eq!(out.len(), 2);
    assert_eq!(out[1].device_mac, "m2");
    assert_eq!(out[1].remote_ip, "10.0.0.9");
    assert_eq!(out[1].remote_mac, "ap1");
}

#[test]
fn fill_leaves_known_fields_alone() {
    let mut map = MergedMap::new();
    map.insert(rec("m1", "10.0.0.5", "", "", ""));
    map.insert(rec("m2", "", "10.0.0.5", "cc:dd", ""));
    let out = fill_missing_information(&map);
    assert_eq!(out[1].remote_mac, "cc:dd");
}

#[test]
fn reconcile_drops_records_without_attachment_point() {
    let mut map = MergedMap::new();
    map.insert(rec("m1", "10.0.0.5", "", "", ""));
    map.insert(rec("m2", "", "", "aa:bb", ""));
    map.insert(rec("m3", "", "", "", ""));
    let out = reconcile(&map);
    for r in out.iter() {
        assert!(!r.remote_mac.is_empty());
    }
    assert_eq!(out.len(), 1);
    assert_eq!(out[0].device_mac, "m2");
}

#[test]
fn reconcile_on_empty_map_is_empty() {
    let map = MergedMap::new();
    let out = reconcile(&map);
    assert_eq!(out.len(), 0);
}

#[test]
fn reconcile_twice_changes_nothing() {
    let mut map = MergedMap::new();
    map.insert(rec("m1", "10.0.0.5", "", "", "siteA"));
    map.insert(rec("m2", "", "10.0.0.5", "", ""));
    map.insert(rec("m3", "10.0.0.7", "", "m1", "siteB"));
    map.insert(rec("m4", "", "", "", ""));
    let once = reconcile(&map);

    let mut again = MergedMap::new();
    for r in once.iter() {
        again.insert(r.duplicate());
    }
    let twice = reconcile(&again);

    assert_eq!(once.len(), twice.len());
    for (a, b) in once.iter().zip(twice.iter()) {
        assert_eq!(a.device_mac, b.device_mac);
        assert_eq!(a.ipv4, b.ipv4);
        assert_eq!(a.ipv6, b.ipv6);
        assert_eq!(a.remote_ip, b.remote_ip);
        assert_eq!(a.remote_mac, b.remote_mac);
        assert_eq!(a.location, b.location);
    }
}

#[test]
fn dirty_flag_observed_exactly_once() {
    let mut state = SharedPublishState::new();
    assert!(state.drain().is_none());

    state.store(vec![rec("m1", "10.0.0.5", "", "aa", "site")]);
    let first = state.drain();
    assert!(first.is_some());
    let taken = first.unwrap();
    assert_eq!(taken.len(), 1);
    assert_eq!(taken[0].device_mac, "m1");

    assert!(state.drain().is_none());
    assert!(state.drain().is_none());

    state.store(Vec::new());
    let next = state.drain();
    assert!(next.is_some());
    assert_eq!(next.unwrap().len(), 0);
    assert!(state.drain().is_none());
}

#[test]
fn duplicate_copies_every_field() {
    let mut r = rec("m1", "10.0.0.5", "1.2.3.4", "aa", "site");
    r.ipv6.push("fe80::1".to_string());
    let d = r.duplicate();
    assert_eq!(d.device_mac, "m1");
    assert_eq!(d.ipv4, "10.0.0.5");
    assert_eq!(d.remote_ip, "1.2.3.4");
    assert_eq!(d.remote_mac, "aa");
    assert_eq!(d.location, "site");
    assert_eq!(d.ipv6, vec!["fe80::1".to_string()]);
}
