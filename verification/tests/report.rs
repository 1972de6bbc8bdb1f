use findbt::models::{CaseMetadata, DeviceKind, HostAdapterInfo, ScanPhase, ScanPhaseRun};
use findbt::registry::RawObservation;
use findbt::report::{format_duration, generate_html, html_encode, render_html};
use findbt::session::CaptureSession;
use findbt::time::{CaseDate, Timestamp};

#[test]
fn report_contains_core_sections_and_escaped_fixture_values() {
    let mut session = CaptureSession::new(
        CaseMetadata {
            date: CaseDate::from_ymd(2026, 7, 3).unwrap(),
            name: "Alice & Bob".to_string(),
            section: "Lab <A>".to_string(),
            user: "Operator <One>".to_string(),
        },
        HostAdapterInfo {
            name: "Host Radio".to_string(),
            address: "AA:BB:CC:DD:EE:FF".to_string(),
            computer_name: "LAB-PC-01".to_string(),
        },
    );
    session.record(RawObservation {
        device_id: "dev-target".to_string(),
        phase: ScanPhase::Target,
        name: "Target <Device>".to_string(),
        address: "11:22:33:44:55:66".to_string(),
        kind: DeviceKind::Ble,
        is_paired: false,
        rssi: Some(-42),
        properties_summary: "role=\"candidate\"".to_string(),
        observed_at: Timestamp::now(),
    });

    let html = generate_html(&session);

    assert!(html.contains("Phase summary"));
    assert!(html.contains("Device registry"));
    assert!(html.contains("Raw audit log"));
    assert!(html.contains("Alice &amp; Bob"));
    assert!(html.contains("Lab &lt;A&gt;"));
    assert!(html.contains("Target &lt;Device&gt;"));
    assert!(html.contains("role=&quot;candidate&quot;"));
    assert!(html.contains("AA:BB:CC:DD:EE:FF"));
    assert!(html.contains("11:22:33:44:55:66"));
    assert!(html.contains("sig-strong"));
    assert!(html.contains("pill kind-ble"));
}

#[test]
fn html_encode_escapes_markup() {
    assert_eq!(html_encode("a<b>&\"c'"), "a&lt;b&gt;&amp;&quot;c&#39;");
    assert_eq!(html_encode("plain"), "plain");
}

#[test]
fn duration_formats_minutes_and_hours() {
    assert_eq!(format_duration(-5), "00:00");
    assert_eq!(format_duration(65), "01:05");
    assert_eq!(format_duration(3600 + 62), "1:01:02");
}

#[test]
fn report_renders_exact_rows() {
    let date = CaseDate::from_ymd(2026, 7, 3).unwrap();
    assert_eq!(date.format(), "2026-07-03");
    let start = Timestamp { unix_seconds: 1_783_000_000, nanos: 0, offset_seconds: 3600 };
    let stop = Timestamp { unix_seconds: 1_783_000_125, nanos: 500, offset_seconds: 3600 };
    let mut session = CaptureSession::new(
        CaseMetadata { date, name: "N".to_string(), section: "S".to_string(), user: "U".to_string() },
        HostAdapterInfo { name: "H".to_string(), address: "Office".to_string(), computer_name: "C".to_string() },
    );
    session.phase_runs.push(ScanPhaseRun {
        phase: ScanPhase::Baseline,
        started_at: start,
        stopped_at: Some(stop),
        stop_reason: "Stopped by operator".to_string(),
    });
    session.record(RawObservation {
        device_id: "kbd".to_string(),
        phase: ScanPhase::Baseline,
        name: "Keyboard".to_string(),
        address: "20:20:30:40:50:60".to_string(),
        kind: DeviceKind::Classic,
        is_paired: true,
        rssi: Some(-48),
        properties_summary: "paired=true".to_string(),
        observed_at: start,
    });
    let html = render_html(&session, stop);
    let expected_run = format!(
        "          <tr><td>Phase 1 - Baseline (background before target activation)</td><td>{}</td><td>{}</td><td class=\"count\">02:05</td><td>Stopped by operator</td></tr>",
        "2026-07-02 14:46:40 +01:00", "2026-07-02 14:48:45 +01:00"
    );
    assert!(html.contains(&expected_run), "{html}");
    assert!(html.contains("<div class=\"sub\">Generated 2026-07-02 14:48:45 +01:00</div>"));
    assert!(html.contains("<div><dt>Tagged local radio</dt><dd>Office</dd></div>"));
    assert!(html.contains("<div><dt>Host adapter</dt><dd>H Office</dd></div>"));
    assert!(html.contains("<td class=\"count\">1</td><td class=\"count\">1</td><td class=\"count\"><strong>1</strong></td></tr>"));
    assert!(html.contains("<span class=\"sig-strong\">-48 dBm (strong)</span>"));
    assert!(html.contains("<span class=\"muted\">not seen</span>"));
    assert!(html.starts_with("<!doctype html>\n<html lang=\"en\">"));
    assert!(html.ends_with("</body>\n</html>\n"));
}
