use findbt::device_filter::{empty_state, filtered_devices, marker_state, text_contains, MarkerState};
use findbt::models::{CaseMetadata, DeviceKind, HostAdapterInfo, ScanPhase, ScanPhaseRun};
use findbt::registry::RawObservation;
use findbt::session::CaptureSession;
use findbt::time::{CaseDate, Timestamp};
use findbt::ui::KindFilter;

fn obs(id: &str, name: &str, address: &str, kind: DeviceKind, phase: ScanPhase) -> RawObservation {
    RawObservation {
        device_id: id.to_string(),
        phase,
        name: name.to_string(),
        address: address.to_string(),
        kind,
        is_paired: false,
        rssi: Some(-50),
        properties_summary: String::new(),
        observed_at: Timestamp::now(),
    }
}

fn session() -> CaptureSession {
    let mut s = CaptureSession::new(
        CaseMetadata { date: CaseDate::from_ymd(2026, 1, 2).unwrap(), name: "c".to_string(), section: "s".to_string(), user: "u".to_string() },
        HostAdapterInfo { name: "h".to_string(), address: String::new(), computer_name: String::new() },
    );
    s.record(obs("ble-1", "Kitchen Speaker", "AA:00:00:00:00:01", DeviceKind::Ble, ScanPhase::Baseline));
    s.record(obs("cls-1", "Keyboard", "BB:00:00:00:00:02", DeviceKind::Classic, ScanPhase::Target));
    s.record(obs("ble-2", "Watch", "cc:00:00:00:00:03", DeviceKind::Ble, ScanPhase::Target));
    s
}

fn ids(s: &CaptureSession, text: &str, kind: KindFilter) -> Vec<String> {
    filtered_devices(s, text, kind).iter().map(|d| d.device_id.clone()).collect()
}

#[test]
fn search_ignores_case_and_surrounding_space() {
    let s = session();
    assert_eq!(ids(&s, "", KindFilter::All), vec!["ble-1", "ble-2", "cls-1"]);
    assert_eq!(ids(&s, "  SPEAKER ", KindFilter::All), vec!["ble-1"]);
    assert_eq!(ids(&s, "cc:00", KindFilter::All), vec!["ble-2"]);
    assert_eq!(ids(&s, "CLS", KindFilter::All), vec!["cls-1"]);
    assert_eq!(ids(&s, "zzz", KindFilter::All), Vec::<String>::new());
}

#[test]
fn kind_filter_narrows_the_rows() {
    let s = session();
    assert_eq!(ids(&s, "", KindFilter::Kind(DeviceKind::Classic)), vec!["cls-1"]);
    assert_eq!(ids(&s, "k", KindFilter::Kind(DeviceKind::Ble)), vec!["ble-1"]);
    assert_eq!(ids(&s, "", KindFilter::Kind(DeviceKind::Unknown)), Vec::<String>::new());
}

#[test]
fn substring_search() {
    assert!(text_contains("abcdef", "cde"));
    assert!(text_contains("abc", ""));
    assert!(!text_contains("ab", "abc"));
    assert!(!text_contains("abcdef", "ce"));
    assert!(text_contains("aab", "ab"));
}

#[test]
fn phase_markers() {
    let mut s = session();
    s.phase_runs.push(ScanPhaseRun { phase: ScanPhase::Target, started_at: Timestamp::now(), stopped_at: None, stop_reason: String::new() });
    let devices = s.registry.devices();
    let kitchen = devices.iter().find(|d| d.device_id == "ble-1").unwrap();
    assert_eq!(marker_state(&s, kitchen, ScanPhase::Baseline), MarkerState::Seen);
    assert_eq!(marker_state(&s, kitchen, ScanPhase::Target), MarkerState::Missed);
    assert_eq!(marker_state(&s, kitchen, ScanPhase::Verification), MarkerState::Pending);
}

#[test]
fn empty_table_messages() {
    assert_eq!(empty_state(" "), ("No devices recorded yet", "Start the active scan phase to populate this registry."));
    assert_eq!(empty_state("x").0, "No devices match the current filter");
}
