use findbt::models::{DeviceKind, ScanPhase};
use findbt::registry::{DeviceRegistry, RawObservation};
use findbt::time::Timestamp;

fn obs(device_id: &str, phase: ScanPhase, address: &str, rssi: i32) -> RawObservation {
    RawObservation {
        device_id: device_id.to_string(),
        phase,
        name: device_id.to_string(),
        address: address.to_string(),
        kind: DeviceKind::Ble,
        is_paired: false,
        rssi: Some(rssi),
        properties_summary: format!("phase={}", phase.number()),
        observed_at: Timestamp::now(),
    }
}

#[test]
fn registry_deduplicates_device_across_phases() {
    let mut registry = DeviceRegistry::new();

    registry.record(&obs("keyboard", ScanPhase::Baseline, "AA:AA:AA:AA:AA:AA", -62));
    registry.record(&obs("keyboard", ScanPhase::Target, "AA:AA:AA:AA:AA:AA", -55));
    registry.record(&obs("keyboard", ScanPhase::Verification, "AA:AA:AA:AA:AA:AA", -58));

    let devices = registry.devices();
    assert_eq!(devices.len(), 1);
    assert_eq!(devices[0].observations.len(), 3);
    assert!(devices[0].seen_in(ScanPhase::Baseline).is_some());
    assert!(devices[0].seen_in(ScanPhase::Target).is_some());
    assert!(devices[0].seen_in(ScanPhase::Verification).is_some());
}

#[test]
fn newly_seen_in_uses_first_sighting_phase() {
    let mut registry = DeviceRegistry::new();

    registry.record(&obs("background", ScanPhase::Baseline, "00:00:00:00:00:01", -64));
    registry.record(&obs("background", ScanPhase::Target, "00:00:00:00:00:01", -63));
    registry.record(&obs("target-only", ScanPhase::Target, "00:00:00:00:00:02", -41));
    registry.record(&obs("late-change", ScanPhase::Verification, "00:00:00:00:00:03", -72));

    assert_eq!(registry.newly_seen_in(ScanPhase::Baseline).len(), 1);
    assert_eq!(registry.newly_seen_in(ScanPhase::Target).len(), 1);
    assert_eq!(registry.newly_seen_in(ScanPhase::Verification).len(), 1);

    let target_names = registry
        .newly_seen_in(ScanPhase::Target)
        .iter()
        .map(|device| device.device_id.as_str())
        .collect::<Vec<_>>();
    assert_eq!(target_names, vec!["target-only"]);
}

#[test]
fn local_radio_tag_can_be_applied_after_capture() {
    let mut registry = DeviceRegistry::new();
    registry.record(&obs("host-radio", ScanPhase::Baseline, "AA-BB-CC-DD-EE-FF", -35));

    registry.apply_local_radio_tag("AABBCCDDEEFF");

    assert!(registry.devices()[0].is_local_radio);
}

#[test]
fn registry_lists_devices_by_kind_then_id() {
    let mut registry = DeviceRegistry::new();
    let mut classic = obs("a-classic", ScanPhase::Baseline, "", -50);
    classic.kind = DeviceKind::Classic;
    registry.record(&classic);
    registry.record(&obs("zeta", ScanPhase::Baseline, "", -50));
    registry.record(&obs("alpha", ScanPhase::Target, "", -50));
    registry.record(&obs("alphabet", ScanPhase::Target, "", -50));
    let ids: Vec<&str> = registry.devices().iter().map(|d| d.device_id.as_str()).collect();
    assert_eq!(ids, vec!["alpha", "alphabet", "zeta", "a-classic"]);
    assert_eq!(registry.len(), 4);
    registry.clear();
    assert!(registry.is_empty());
}

#[test]
fn repeat_sighting_updates_phase_detail() {
    let mut registry = DeviceRegistry::new();
    let first = obs("dev", ScanPhase::Target, "11:22:33:44:55:66", -70);
    registry.record(&first);
    let mut second = obs("dev", ScanPhase::Target, "", -40);
    second.rssi = None;
    second.name = "   ".to_string();
    second.properties_summary = "later".to_string();
    registry.record(&second);
    let devices = registry.devices();
    let detail = devices[0].seen_in(ScanPhase::Target).unwrap();
    assert_eq!(detail.sample_count, 2);
    assert_eq!(detail.rssi, Some(-70));
    assert_eq!(detail.properties_summary, "later");
    assert_eq!(devices[0].name, "dev");
    assert_eq!(devices[0].address, "11:22:33:44:55:66");
    assert_eq!(devices[0].first_seen_phase(), Some(ScanPhase::Target));
    assert!(devices[0].is_new_in(ScanPhase::Target));
    assert_eq!(registry.observed_in(ScanPhase::Baseline).len(), 0);
    assert!(registry.can_record(&second));
}

#[test]
fn tag_needs_non_empty_matching_address() {
    let mut registry = DeviceRegistry::new();
    registry.record(&obs("office", ScanPhase::Baseline, "Office", -35));
    registry.apply_local_radio_tag("");
    assert!(!registry.devices()[0].is_local_radio);
    registry.apply_local_radio_tag("AABBCCDDEEFF");
    assert!(!registry.devices()[0].is_local_radio);
}

#[test]
fn registry_order_is_the_order_of_formatted_keys() {
    let mut registry = DeviceRegistry::new();
    let entries = [
        ("Zed", DeviceKind::Unknown),
        ("émile", DeviceKind::Ble),
        ("Émile", DeviceKind::Ble),
        ("b", DeviceKind::Classic),
        ("a:b", DeviceKind::Ble),
        ("a", DeviceKind::Ble),
        ("", DeviceKind::Classic),
        ("中", DeviceKind::Unknown),
    ];
    for (id, kind) in entries {
        let mut o = obs(id, ScanPhase::Baseline, "", -50);
        o.kind = kind;
        registry.record(&o);
    }
    let keys: Vec<String> = registry.devices().iter().map(|d| format!("{:?}:{}", d.kind, d.device_id)).collect();
    let mut sorted = keys.clone();
    sorted.sort();
    sorted.dedup();
    assert_eq!(keys, sorted);
    assert_eq!(keys.len(), entries.len());
}
