use findbt::backend::{
    drift_rssi, format_bluetooth_address, mock_default_adapter, observation_from_advertisement,
    scripted_observations, summarize_properties, BackendError, WindowsBluetoothBackend,
};
use findbt::models::{DeviceKind, ScanPhase};
use findbt::time::Timestamp;

#[test]
fn mock_backend_reports_default_adapter() {
    let adapter = mock_default_adapter();
    assert_eq!(adapter.name, "Mock Bluetooth Adapter");
    assert_eq!(adapter.address, "02:00:5E:00:53:01");
}

#[test]
fn mock_backend_emits_target_phase_observations() {
    let observations = scripted_observations(ScanPhase::Target, Timestamp::now());
    let first: Vec<_> = observations.into_iter().take(3).collect();
    assert!(first
        .iter()
        .any(|obs| obs.device_id == "mock-target-speaker" && obs.phase == ScanPhase::Target));
}

#[test]
fn mock_rssi_drifts_down_by_up_to_three() {
    assert_eq!(drift_rssi(Some(-50), 0), Some(-50));
    assert_eq!(drift_rssi(Some(-50), 3), Some(-53));
    assert_eq!(drift_rssi(Some(-50), 5), Some(-51));
    assert_eq!(drift_rssi(None, 2), None);
}

#[test]
fn bluetooth_addresses_are_twelve_hex_digits_in_pairs() {
    assert_eq!(format_bluetooth_address(0x0011_2233_4455), "00:11:22:33:44:55");
    assert_eq!(format_bluetooth_address(0xAABB_CCDD_EEFF), "AA:BB:CC:DD:EE:FF");
    assert_eq!(format_bluetooth_address(0), "00:00:00:00:00:00");
}

#[test]
fn property_summary_joins_entries() {
    let entries = vec![
        ("System.Devices.Aep.IsPaired".to_string(), "true".to_string()),
        ("System.Devices.Aep.SignalStrength".to_string(), "-60".to_string()),
    ];
    assert_eq!(
        summarize_properties(&entries),
        "System.Devices.Aep.IsPaired=true; System.Devices.Aep.SignalStrength=-60"
    );
    assert_eq!(summarize_properties(&Vec::new()), "");
}

#[test]
fn advertisement_observation_fields() {
    let at = Timestamp::now();
    let o = observation_from_advertisement("11:22:33:44:55:66".to_string(), None, Some(-70), "ConnectableUndirected", ScanPhase::Baseline, at);
    assert_eq!(o.device_id, "ble-advertisement:11:22:33:44:55:66");
    assert_eq!(o.name, "(advertising)");
    assert_eq!(o.kind, DeviceKind::Ble);
    assert_eq!(o.properties_summary, "AdvertisementType=ConnectableUndirected");
}

#[test]
fn backend_error_messages() {
    assert_eq!(BackendError::AlreadyRunning.message(), "a scan is already running");
    assert_eq!(BackendError::Other("boom".to_string()).message(), "Bluetooth backend failed: boom");
}

#[test]
fn windows_backend_registers_four_watchers_and_releases_them() {
    let mut backend = WindowsBluetoothBackend::new();
    assert!(!backend.is_scanning());
    let plan = backend.start();
    assert_eq!(plan.len(), 4);
    assert_eq!((plan[0].classic, plan[0].paired), (false, false));
    assert_eq!((plan[3].classic, plan[3].paired), (true, true));
    assert_eq!(plan[2].kind_label(), "Bluetooth Classic");
    assert_eq!(plan[1].kind(), DeviceKind::Ble);
    assert!(backend.is_scanning());
    let again = backend.start();
    assert_eq!(again, plan);
    backend.stop();
    assert!(!backend.is_scanning());
}
