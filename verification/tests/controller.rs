use findbt::backend::BackendError;
use findbt::controller::{event_count, observation_console_line, AppEffect, AppState, MainRoute, Screen, MAX_CONSOLE_LINES};
use findbt::models::{CaseMetadata, DeviceKind, HostAdapterInfo, ScanPhase};
use findbt::registry::RawObservation;
use findbt::settings::{AppSettings, ThemeSetting};
use findbt::time::{CaseDate, Timestamp};
use findbt::ui::{KindFilter, MainScreenAction, ReportFormat, SettingsScreenAction, SettingsSection};
use findbt::wizard::WizardState;

fn at(seconds: i64) -> Timestamp {
    Timestamp { unix_seconds: 1_780_000_000 + seconds, nanos: 0, offset_seconds: 0 }
}

fn host() -> HostAdapterInfo {
    HostAdapterInfo { name: "Host Radio".to_string(), address: "aa-bb-cc-dd-ee-ff".to_string(), computer_name: "LAB".to_string() }
}

fn app() -> AppState {
    let wizard = WizardState::with_date(host(), "2026-07-03".to_string(), "");
    AppState::new(wizard, AppSettings { theme: ThemeSetting::Dark }, at(0))
}

fn started_session() -> AppState {
    let mut state = app();
    state.begin_session(
        CaseMetadata { date: CaseDate::from_ymd(2026, 7, 3).unwrap(), name: "Case".to_string(), section: "Lab".to_string(), user: "Op".to_string() },
        host(),
    );
    state
}

fn obs(id: &str, address: &str, phase: ScanPhase) -> RawObservation {
    RawObservation {
        device_id: id.to_string(),
        phase,
        name: "Speaker".to_string(),
        address: address.to_string(),
        kind: DeviceKind::Ble,
        is_paired: false,
        rssi: Some(-60),
        properties_summary: "k=v".to_string(),
        observed_at: at(5),
    }
}

#[test]
fn app_opens_on_the_wizard_with_a_ready_log() {
    let state = app();
    assert!(matches!(state.screen, Screen::Wizard(_)));
    assert_eq!(state.status, "Ready");
    assert_eq!(state.scan_console_lines, vec!["[20:26:40] FindBT live scan log ready.".to_string()]);
    assert_eq!(state.settings, AppSettings { theme: ThemeSetting::Dark });
    assert_eq!(state.report_format, ReportFormat::Html);
}

#[test]
fn beginning_a_session_tags_the_host_radio() {
    let state = started_session();
    match &state.screen {
        Screen::Main(session) => {
            assert_eq!(session.host.address, "aa-bb-cc-dd-ee-ff");
            assert_eq!(session.registry.len(), 0);
        }
        Screen::Wizard(_) => panic!("expected a session"),
    }
    assert_eq!(state.status, "Session ready. Start the baseline scan.");
    assert_eq!(state.active_phase, ScanPhase::Baseline);
}

#[test]
fn only_one_scan_runs_at_a_time() {
    let mut state = started_session();
    assert_eq!(state.apply_action(MainScreenAction::Start(ScanPhase::Baseline), at(1)), AppEffect::StartBackend(ScanPhase::Baseline));
    state.scan_started(ScanPhase::Baseline, at(1));
    assert_eq!(state.status, "Baseline Scan running.");
    assert_eq!(state.scan_console_lines.last().unwrap(), "[20:26:41] START Phase 1 - Baseline (background before target activation)");
    assert_eq!(state.apply_action(MainScreenAction::Start(ScanPhase::Target), at(2)), AppEffect::Nothing);
    assert_eq!(state.apply_action(MainScreenAction::Rescan(ScanPhase::Baseline), at(2)), AppEffect::Nothing);
    assert_eq!(state.scanning_phase, Some(ScanPhase::Baseline));
}

#[test]
fn stopping_records_the_run() {
    let mut state = started_session();
    state.scan_started(ScanPhase::Target, at(1));
    assert_eq!(state.apply_action(MainScreenAction::Stop, at(9)), AppEffect::StopBackend);
    assert_eq!(state.scanning_phase, None);
    assert!(state.current_run.is_none());
    assert_eq!(state.status, "Target Scan stopped.");
    assert_eq!(state.scan_console_lines.last().unwrap(), "[20:26:49] STOP Phase 2 - Target activated | Stopped by operator");
    match &state.screen {
        Screen::Main(session) => {
            assert_eq!(session.phase_runs.len(), 1);
            let run = &session.phase_runs[0];
            assert_eq!(run.phase, ScanPhase::Target);
            assert_eq!(run.started_at, at(1));
            assert_eq!(run.stopped_at, Some(at(9)));
            assert_eq!(run.stop_reason, "Stopped by operator");
            assert_eq!(run.duration(), Some(8));
        }
        Screen::Wizard(_) => panic!("expected a session"),
    }
}

#[test]
fn a_failed_start_is_reported() {
    let mut state = started_session();
    state.scan_failed(&BackendError::UnsupportedPlatform, at(3));
    assert_eq!(state.status, "Scan could not start: Bluetooth backend is not available on this platform/build");
    assert_eq!(
        state.scan_console_lines.last().unwrap(),
        "[20:26:43] ERROR scan could not start: Bluetooth backend is not available on this platform/build"
    );
    assert!(state.scanning_phase.is_none());
}

#[test]
fn report_needs_all_three_phases() {
    let mut state = started_session();
    assert_eq!(state.apply_action(MainScreenAction::GenerateReport, at(1)), AppEffect::Nothing);
    assert!(state.report_error_open);
    assert_eq!(state.status, "Complete all three scan phases before generating a report.");
    state.report_error_open = false;
    state.scan_started(ScanPhase::Verification, at(2));
    state.stop_scan("done", at(3));
    assert!(!state.report_ready());
    assert_eq!(state.apply_action(MainScreenAction::GenerateReport, at(3)), AppEffect::Nothing);
    state.report_error_open = false;
    state.scan_started(ScanPhase::Baseline, at(3));
    state.stop_scan("done", at(3));
    assert!(!state.report_ready());
    state.scan_started(ScanPhase::Target, at(3));
    state.stop_scan("done", at(3));
    assert!(state.report_ready());
    state.report_format = ReportFormat::Pdf;
    assert_eq!(state.apply_action(MainScreenAction::GenerateReport, at(4)), AppEffect::SaveReport(ReportFormat::Pdf));
    state.report_saved("/tmp/r.pdf");
    assert_eq!(state.status, "Report saved to /tmp/r.pdf");
    state.report_failed("disk full");
    assert_eq!(state.status, "Report save failed: disk full");
}

#[test]
fn observations_are_logged_and_recorded() {
    let mut state = started_session();
    let o = obs("dev-1", "AA:BB:CC:DD:EE:FF", ScanPhase::Baseline);
    assert!(state.can_observe(&o));
    state.observe(o);
    state.observe(obs("dev-2", "  ", ScanPhase::Baseline));
    state.retag_local_radio();
    match &state.screen {
        Screen::Main(session) => {
            assert_eq!(session.raw_log.len(), 2);
            assert_eq!(session.registry.len(), 2);
            let tagged: Vec<bool> = session.registry.devices().iter().map(|d| d.is_local_radio).collect();
            assert_eq!(tagged.iter().filter(|t| **t).count(), 1);
        }
        Screen::Wizard(_) => panic!("expected a session"),
    }
    assert_eq!(
        state.scan_console_lines[1],
        "[20:26:45.000] phase=1 | BLE | Speaker | AA:BB:CC:DD:EE:FF | -60 dBm | not paired | k=v"
    );
    assert!(state.scan_console_lines[2].contains("| Speaker | dev-2 | "));
}

#[test]
fn console_line_for_missing_rssi_and_paired_device() {
    let mut o = obs("dev-9", "11:22:33:44:55:66", ScanPhase::Verification);
    o.rssi = None;
    o.is_paired = true;
    o.kind = DeviceKind::Classic;
    assert_eq!(
        observation_console_line(&o),
        "[20:26:45.000] phase=3 | Classic | Speaker | 11:22:33:44:55:66 | RSSI n/a | paired | k=v"
    );
}

#[test]
fn console_keeps_the_newest_lines() {
    let mut state = app();
    for i in 0..(MAX_CONSOLE_LINES + 5) {
        state.push_console_line(format!("line {i}"));
    }
    assert_eq!(state.scan_console_lines.len(), MAX_CONSOLE_LINES);
    assert_eq!(state.scan_console_lines.last().unwrap(), &format!("line {}", MAX_CONSOLE_LINES + 4));
    assert_eq!(state.scan_console_lines[0], "line 5");
    state.clear_console(at(7));
    assert_eq!(state.scan_console_lines, vec!["[20:26:47] Live scan log cleared.".to_string()]);
    assert_eq!(event_count(1), "1 raw event");
    assert_eq!(event_count(3), "3 raw events");
    assert_eq!(event_count(0), "0 raw events");
}

#[test]
fn reset_discards_the_capture() {
    let mut state = started_session();
    state.observe(obs("dev-1", "01:02:03:04:05:06", ScanPhase::Baseline));
    state.scan_started(ScanPhase::Baseline, at(1));
    state.apply_action(MainScreenAction::SelectPhase(ScanPhase::Target), at(1));
    assert_eq!(state.active_phase, ScanPhase::Target);
    assert_eq!(state.apply_action(MainScreenAction::ResetCapture, at(2)), AppEffect::StopBackend);
    assert!(state.scanning_phase.is_none());
    assert_eq!(state.active_phase, ScanPhase::Baseline);
    assert_eq!(state.status, "Capture reset.");
    assert_eq!(state.scan_console_lines, vec!["[20:26:42] Capture reset.".to_string()]);
    match &state.screen {
        Screen::Main(session) => {
            assert!(session.raw_log.is_empty());
            assert_eq!(session.registry.len(), 0);
            assert!(session.phase_runs.is_empty());
            assert_eq!(session.metadata.name, "Case");
        }
        Screen::Wizard(_) => panic!("expected a session"),
    }
}

#[test]
fn view_actions_update_preferences() {
    let mut state = started_session();
    state.apply_action(MainScreenAction::SetKindFilter(KindFilter::Kind(DeviceKind::Classic)), at(1));
    state.apply_action(MainScreenAction::SetFilterText("spk".to_string()), at(1));
    state.apply_action(MainScreenAction::OpenScanConsole, at(1));
    state.apply_action(MainScreenAction::OpenSettings, at(1));
    assert_eq!(state.kind_filter, KindFilter::Kind(DeviceKind::Classic));
    assert_eq!(state.filter_text, "spk");
    assert!(state.scan_console_open);
    assert_eq!(state.route, MainRoute::Settings);
    state.apply_settings_action(SettingsScreenAction::SelectSection(SettingsSection::ReportGeneration));
    assert_eq!(state.settings_section, SettingsSection::ReportGeneration);
    state.apply_settings_action(SettingsScreenAction::BackToCapture);
    assert_eq!(state.route, MainRoute::Capture);
}

#[test]
fn choosing_a_theme_reports_a_change_once() {
    let mut state = app();
    assert!(!state.select_theme(ThemeSetting::Dark));
    assert!(state.select_theme(ThemeSetting::Light));
    assert_eq!(state.settings, AppSettings { theme: ThemeSetting::Light });
    assert!(!state.select_theme(ThemeSetting::Light));
}
