//! The application's decisions, apart from drawing: which screen is shown, which phase
//! is selected and scanning, the run being recorded, the status line and the live scan
//! log. Each operator action or backend event is a transition of `AppState`; the work
//! it asks of the outside world (starting or stopping the Bluetooth backend, saving a
//! report) comes back as an `AppEffect` for the application to perform.

use vstd::prelude::*;
use crate::backend::BackendError;
use crate::models::{normalize_address, normalized_address, CaseMetadata, HostAdapterInfo, ScanPhase, ScanPhaseRun};
use crate::registry::{
    can_record_rows, lemma_replay_sorted, lemma_untagged_record, lemma_untagged_tag, record_rows, replay, tag_rows,
    untagged, ObservationView, RawObservation,
};
use crate::session::{law_registry_is_fold_of_log, observation_views, CaptureSession};
use crate::settings::{AppSettings, ThemeSetting};
use crate::text::{dec, int_text, is_blank, is_blank_seq, push_dec, push_int};
use crate::time::{Timestamp, CLOCK_MILLIS_PATTERN, CLOCK_PATTERN};
use crate::ui::{KindFilter, MainScreenAction, ReportFormat, SettingsScreenAction, SettingsSection};
use crate::wizard::WizardState;

verus! {

/// The live scan log keeps at most this many lines, dropping the oldest.
pub const MAX_CONSOLE_LINES: usize = 2000;

/// The main screen's two views.
#[derive(Debug, Clone, Copy, PartialEq, Eq, Structural)]
pub enum MainRoute {
    Capture,
    Settings,
}

/// The case wizard, until a session begins; then the capture session.
pub enum Screen {
    Wizard(WizardState),
    Main(CaptureSession),
}

/// Work a transition asks of the application.
#[derive(Debug, Clone, Copy, PartialEq, Eq, Structural)]
pub enum AppEffect {
    Nothing,
    /// Start the backend scanning for this phase, then report `scan_started` or `scan_failed`.
    StartBackend(ScanPhase),
    /// Stop the backend and drop its observation channel.
    StopBackend,
    /// Ask where to save the report in this format, write it, then report
    /// `report_saved` or `report_failed`.
    SaveReport(ReportFormat),
}

pub struct AppState {
    pub screen: Screen,
    pub active_phase: ScanPhase,
    pub scanning_phase: Option<ScanPhase>,
    pub current_run: Option<ScanPhaseRun>,
    pub status: String,
    pub filter_text: String,
    pub kind_filter: KindFilter,
    pub report_format: ReportFormat,
    pub route: MainRoute,
    pub settings_section: SettingsSection,
    pub report_error_open: bool,
    pub scan_console_open: bool,
    pub scan_console_lines: Vec<String>,
    pub settings: AppSettings,
}

pub open spec fn line_views(lines: Seq<String>) -> Seq<Seq<char>> {
    lines.map_values(|l: String| l@)
}

/// The log after appending `line`: the oldest line goes once the log is full.
pub open spec fn console_push(lines: Seq<Seq<char>>, line: Seq<char>) -> Seq<Seq<char>> {
    if lines.len() + 1 > MAX_CONSOLE_LINES {
        lines.push(line).subrange(lines.len() + 1 - MAX_CONSOLE_LINES, lines.len() + 1int)
    } else {
        lines.push(line)
    }
}

/// `[HH:MM:SS] `, the prefix of each log line about the app's own actions.
pub open spec fn clock_prefix(now: Timestamp) -> Seq<char> {
    "["@ + now.text_with(CLOCK_PATTERN@) + "] "@
}

pub open spec fn ready_line(now: Timestamp) -> Seq<char> {
    clock_prefix(now) + "FindBT live scan log ready."@
}

pub open spec fn start_line(phase: ScanPhase, now: Timestamp) -> Seq<char> {
    clock_prefix(now) + "START "@ + phase.report_label_text()
}

pub open spec fn error_line(err: BackendError, now: Timestamp) -> Seq<char> {
    clock_prefix(now) + "ERROR scan could not start: "@ + err.message_text()
}

pub open spec fn stop_line(phase: ScanPhase, reason: Seq<char>, now: Timestamp) -> Seq<char> {
    clock_prefix(now) + "STOP "@ + phase.report_label_text() + " | "@ + reason
}

pub open spec fn reset_line(now: Timestamp) -> Seq<char> {
    clock_prefix(now) + "Capture reset."@
}

pub open spec fn cleared_line(now: Timestamp) -> Seq<char> {
    clock_prefix(now) + "Live scan log cleared."@
}

/// Where an observation came from: its address, or its device id when the address is blank.
pub open spec fn endpoint_text(o: ObservationView) -> Seq<char> {
    if is_blank_seq(o.address) {
        o.device_id
    } else {
        o.address
    }
}

pub open spec fn console_rssi_text(rssi: Option<i32>) -> Seq<char> {
    match rssi {
        Some(v) => int_text(v as int) + " dBm"@,
        None => "RSSI n/a"@,
    }
}

/// The log line for one raw observation.
pub open spec fn observation_line(o: ObservationView) -> Seq<char> {
    "["@ + o.observed_at.text_with(CLOCK_MILLIS_PATTERN@) + "] phase="@ + dec(o.phase.rank()) + " | "@
        + o.kind.label_text() + " | "@ + o.name + " | "@ + endpoint_text(o) + " | "@
        + console_rssi_text(o.rssi) + " | "@ + (if o.is_paired {
        "paired"@
    } else {
        "not paired"@
    }) + " | "@ + o.properties_summary
}

/// The live scan log window's count line.
pub open spec fn event_count_text(n: nat) -> Seq<char> {
    dec(n) + " raw event"@ + (if n == 1 {
        Seq::<char>::empty()
    } else {
        "s"@
    })
}

pub const READY_STATUS: &'static str = "Ready";
pub const SESSION_READY_STATUS: &'static str = "Session ready. Start the baseline scan.";
pub const REPORT_NOT_READY_STATUS: &'static str = "Complete all three scan phases before generating a report.";
pub const RESET_STATUS: &'static str = "Capture reset.";
pub const OPERATOR_STOP_REASON: &'static str = "Stopped by operator";

pub open spec fn running_status(phase: ScanPhase) -> Seq<char> {
    phase.tab_title_text() + " running."@
}

pub open spec fn stopped_status(phase: ScanPhase) -> Seq<char> {
    phase.tab_title_text() + " stopped."@
}

pub open spec fn start_failed_status(err: BackendError) -> Seq<char> {
    "Scan could not start: "@ + err.message_text()
}

/// Appends `line` to `lines`, dropping the oldest line once the log is full.
fn push_line(lines: &mut Vec<String>, line: String)
    requires
        old(lines)@.len() <= MAX_CONSOLE_LINES,
    ensures
        line_views(final(lines)@) == console_push(line_views(old(lines)@), line@),
        final(lines)@.len() <= MAX_CONSOLE_LINES,
{
    let ghost before = line_views(lines@);
    lines.push(line);
    if lines.len() > MAX_CONSOLE_LINES {
        lines.remove(0);
        assert(line_views(lines@) =~= console_push(before, line@));
    } else {
        assert(line_views(lines@) =~= console_push(before, line@));
    }
}

fn clock_line(now: Timestamp, text: &str) -> (s: String)
    ensures
        s@ == clock_prefix(now) + text@,
{
    let mut s = String::from_str("[");
    let t = now.format_with(CLOCK_PATTERN);
    s.append(t.as_str());
    s.append("] ");
    s.append(text);
    s
}

/// The live scan log line for an observation.
pub fn observation_console_line(o: &RawObservation) -> (s: String)
    ensures
        s@ == observation_line(o@),
{
    let mut s = String::from_str("[");
    let t = o.observed_at.format_with(CLOCK_MILLIS_PATTERN);
    s.append(t.as_str());
    s.append("] phase=");
    push_dec(&mut s, o.phase.number() as u64);
    s.append(" | ");
    s.append(o.kind.label());
    s.append(" | ");
    s.append(o.name.as_str());
    s.append(" | ");
    if is_blank(o.address.as_str()) {
        s.append(o.device_id.as_str());
    } else {
        s.append(o.address.as_str());
    }
    s.append(" | ");
    match o.rssi {
        Some(v) => {
            push_int(&mut s, v as i64);
            s.append(" dBm");
        },
        None => s.append("RSSI n/a"),
    }
    s.append(" | ");
    if o.is_paired {
        s.append("paired");
    } else {
        s.append("not paired");
    }
    s.append(" | ");
    s.append(o.properties_summary.as_str());
    s
}

/// The live scan log window's count line, such as `3 raw events`.
pub fn event_count(n: usize) -> (s: String)
    ensures
        s@ == event_count_text(n as nat),
{
    let mut s = String::new();
    push_dec(&mut s, n as u64);
    s.append(" raw event");
    if n != 1 {
        s.append("s");
    }
    s
}

/// A run closed by a stop: the same phase and start, stopped at `now` for `reason`.
pub open spec fn run_closed(open: ScanPhaseRun, closed: ScanPhaseRun, reason: Seq<char>, now: Timestamp) -> bool {
    &&& closed.phase == open.phase
    &&& closed.started_at == open.started_at
    &&& closed.stopped_at == Some(now)
    &&& closed.stop_reason@ == reason
}

/// The operator's view settings, which scans and sessions leave alone.
pub open spec fn same_preferences(a: AppState, b: AppState) -> bool {
    &&& a.filter_text@ == b.filter_text@
    &&& a.kind_filter == b.kind_filter
    &&& a.report_format == b.report_format
    &&& a.route == b.route
    &&& a.settings_section == b.settings_section
    &&& a.scan_console_open == b.scan_console_open
    &&& a.settings == b.settings
}

/// The session bookkeeping a stop leaves: the open run, if any, is closed and appended to
/// the session's phase runs, and nothing else of the session changes.
pub open spec fn screen_after_stop(old_screen: Screen, new_screen: Screen, run: Option<ScanPhaseRun>, reason: Seq<char>, now: Timestamp) -> bool {
    match (old_screen, run) {
        (Screen::Main(s0), Some(r)) => match new_screen {
            Screen::Main(s1) => {
                &&& s1.phase_runs@.len() == s0.phase_runs@.len() + 1
                &&& s1.phase_runs@.drop_last() == s0.phase_runs@
                &&& run_closed(r, s1.phase_runs@.last(), reason, now)
                &&& s1.metadata == s0.metadata
                &&& s1.host == s0.host
                &&& s1.registry == s0.registry
                &&& s1.raw_log == s0.raw_log
            },
            Screen::Wizard(_) => false,
        },
        _ => new_screen == old_screen,
    }
}

impl AppState {
    /// What every transition keeps: a run is open exactly while a phase is scanning, and
    /// for that phase; the log stays within its limit; a session's registry keeps one row
    /// per device, in order, and apart from the local-radio flags it is exactly the fold of
    /// the session's raw log.
    pub open spec fn wf(&self) -> bool {
        &&& (self.scanning_phase is Some) == (self.current_run is Some)
        &&& (self.current_run matches Some(r) ==> self.scanning_phase == Some(r.phase))
        &&& self.scan_console_lines@.len() <= MAX_CONSOLE_LINES
        &&& (self.screen matches Screen::Main(s) ==> {
            &&& s.registry.wf()
            &&& untagged(s.registry@) == untagged(replay(observation_views(s.raw_log@)))
        })
    }

    /// Whether a report may be generated: a session is open and each of the three phases
    /// has a recorded run.
    pub open spec fn spec_report_ready(&self) -> bool {
        match self.screen {
            Screen::Main(s) => {
                &&& crate::session::last_run_of(s.phase_runs@, ScanPhase::Baseline) is Some
                &&& crate::session::last_run_of(s.phase_runs@, ScanPhase::Target) is Some
                &&& crate::session::last_run_of(s.phase_runs@, ScanPhase::Verification) is Some
            },
            Screen::Wizard(_) => false,
        }
    }

    /// The app as it opens: the wizard, nothing scanning, the baseline phase selected.
    pub fn new(wizard: WizardState, settings: AppSettings, now: Timestamp) -> (s: AppState)
        ensures
            s.wf(),
            s.screen == Screen::Wizard(wizard),
            s.active_phase == ScanPhase::Baseline,
            s.scanning_phase is None,
            s.current_run is None,
            s.status@ == READY_STATUS@,
            s.filter_text@ == Seq::<char>::empty(),
            s.kind_filter == KindFilter::All,
            s.report_format == ReportFormat::Html,
            s.route == MainRoute::Capture,
            s.settings_section == SettingsSection::Appearance,
            !s.report_error_open,
            !s.scan_console_open,
            line_views(s.scan_console_lines@) == seq![ready_line(now)],
            s.settings == settings,
    {
        let mut lines: Vec<String> = Vec::new();
        lines.push(clock_line(now, "FindBT live scan log ready."));
        assert(line_views(lines@) =~= seq![ready_line(now)]);
        AppState {
            screen: Screen::Wizard(wizard),
            active_phase: ScanPhase::Baseline,
            scanning_phase: None,
            current_run: None,
            status: String::from_str(READY_STATUS),
            filter_text: String::new(),
            kind_filter: KindFilter::All,
            report_format: ReportFormat::Html,
            route: MainRoute::Capture,
            settings_section: SettingsSection::Appearance,
            report_error_open: false,
            scan_console_open: false,
            scan_console_lines: lines,
            settings,
        }
    }

    /// Appends a line to the live scan log, dropping the oldest once it is full.
    pub fn push_console_line(&mut self, line: String)
        requires
            old(self).wf(),
        ensures
            final(self).wf(),
            line_views(final(self).scan_console_lines@) == console_push(line_views(old(self).scan_console_lines@), line@),
            final(self).screen == old(self).screen,
            final(self).active_phase == old(self).active_phase,
            final(self).scanning_phase == old(self).scanning_phase,
            final(self).current_run == old(self).current_run,
            final(self).status == old(self).status,
            final(self).report_error_open == old(self).report_error_open,
            same_preferences(*final(self), *old(self)),
    {
        push_line(&mut self.scan_console_lines, line);
    }

    /// Opens the capture session for the wizard's case details and host adapter, tagging
    /// the host's own radio, and shows the capture view with the baseline phase selected.
    pub fn begin_session(&mut self, metadata: CaseMetadata, host: HostAdapterInfo)
        requires
            old(self).wf(),
        ensures
            final(self).wf(),
            final(self).screen matches Screen::Main(s) && {
                &&& s.metadata == metadata
                &&& s.host == host
                &&& s.phase_runs@.len() == 0
                &&& s.raw_log@.len() == 0
                &&& s.registry@ == tag_rows(Seq::empty(), normalized_address(host.address@))
            },
            final(self).route == MainRoute::Capture,
            final(self).active_phase == ScanPhase::Baseline,
            final(self).status@ == SESSION_READY_STATUS@,
            final(self).scanning_phase == old(self).scanning_phase,
            final(self).current_run == old(self).current_run,
            final(self).scan_console_lines == old(self).scan_console_lines,
            final(self).report_error_open == old(self).report_error_open,
            final(self).filter_text == old(self).filter_text,
            final(self).kind_filter == old(self).kind_filter,
            final(self).report_format == old(self).report_format,
            final(self).settings_section == old(self).settings_section,
            final(self).scan_console_open == old(self).scan_console_open,
            final(self).settings == old(self).settings,
    {
        let mut session = CaptureSession::new(metadata, host);
        let local = normalize_address(session.host.address.as_str());
        session.registry.apply_local_radio_tag(local.as_str());
        assert(tag_rows(Seq::empty(), local@) =~= Seq::<crate::registry::DeviceView>::empty());
        assert(observation_views(session.raw_log@) =~= Seq::<ObservationView>::empty());
        self.screen = Screen::Main(session);
        self.route = MainRoute::Capture;
        self.active_phase = ScanPhase::Baseline;
        self.status = String::from_str(SESSION_READY_STATUS);
    }

    /// The backend started scanning `phase`: a run opens at `now`, the log and the
    /// status say so.
    pub fn scan_started(&mut self, phase: ScanPhase, now: Timestamp)
        requires
            old(self).wf(),
            old(self).scanning_phase is None,
        ensures
            final(self).wf(),
            final(self).scanning_phase == Some(phase),
            final(self).current_run matches Some(r) && {
                &&& r.phase == phase
                &&& r.started_at == now
                &&& r.stopped_at is None
                &&& r.stop_reason@ == Seq::<char>::empty()
            },
            line_views(final(self).scan_console_lines@) == console_push(line_views(old(self).scan_console_lines@), start_line(phase, now)),
            final(self).status@ == running_status(phase),
            final(self).screen == old(self).screen,
            final(self).active_phase == old(self).active_phase,
            final(self).report_error_open == old(self).report_error_open,
            same_preferences(*final(self), *old(self)),
    {
        self.scanning_phase = Some(phase);
        self.current_run = Some(ScanPhaseRun { phase, started_at: now, stopped_at: None, stop_reason: String::new() });
        let mut line = clock_line(now, "START ");
        line.append(phase.report_label());
        self.push_console_line(line);
        let mut status = String::from_str(phase.tab_title());
        status.append(" running.");
        self.status = status;
    }

    /// The backend refused to start: the log and the status carry its message.
    pub fn scan_failed(&mut self, err: &BackendError, now: Timestamp)
        requires
            old(self).wf(),
        ensures
            final(self).wf(),
            line_views(final(self).scan_console_lines@) == console_push(line_views(old(self).scan_console_lines@), error_line(*err, now)),
            final(self).status@ == start_failed_status(*err),
            final(self).screen == old(self).screen,
            final(self).active_phase == old(self).active_phase,
            final(self).scanning_phase == old(self).scanning_phase,
            final(self).current_run == old(self).current_run,
            final(self).report_error_open == old(self).report_error_open,
            same_preferences(*final(self), *old(self)),
    {
        let message = err.message();
        let mut line = clock_line(now, "ERROR scan could not start: ");
        line.append(message.as_str());
        self.push_console_line(line);
        let mut status = String::from_str("Scan could not start: ");
        status.append(message.as_str());
        self.status = status;
    }

    /// Stops the scan (the application stops the backend): the open run closes at `now`
    /// for `reason` and joins the session's phase runs; the log and the status say which
    /// phase stopped. Without a running scan nothing changes.
    pub fn stop_scan(&mut self, reason: &str, now: Timestamp)
        requires
            old(self).wf(),
        ensures
            final(self).wf(),
            final(self).scanning_phase is None,
            final(self).current_run is None,
            screen_after_stop(old(self).screen, final(self).screen, old(self).current_run, reason@, now),
            match old(self).scanning_phase {
                Some(p) => {
                    &&& line_views(final(self).scan_console_lines@) == console_push(line_views(old(self).scan_console_lines@), stop_line(p, reason@, now))
                    &&& final(self).status@ == stopped_status(p)
                },
                None => {
                    &&& final(self).scan_console_lines == old(self).scan_console_lines
                    &&& final(self).status == old(self).status
                },
            },
            final(self).active_phase == old(self).active_phase,
            final(self).report_error_open == old(self).report_error_open,
            same_preferences(*final(self), *old(self)),
    {
        let run = self.current_run.take();
        match run {
            Some(r) => {
                let closed = ScanPhaseRun {
                    phase: r.phase,
                    started_at: r.started_at,
                    stopped_at: Some(now),
                    stop_reason: String::from_str(reason),
                };
                match &mut self.screen {
                    Screen::Main(session) => {
                        let ghost s0 = *session;
                        session.phase_runs.push(closed);
                        assert(session.phase_runs@.drop_last() =~= s0.phase_runs@);
                    },
                    Screen::Wizard(_) => {},
                }
            },
            None => {},
        }
        match self.scanning_phase.take() {
            Some(phase) => {
                let mut line = clock_line(now, "STOP ");
                line.append(phase.report_label());
                line.append(" | ");
                line.append(reason);
                self.push_console_line(line);
                let mut status = String::from_str(phase.tab_title());
                status.append(" stopped.");
                self.status = status;
            },
            None => {},
        }
    }

    /// Whether `o` can be recorded: the session's per-phase sample counter has room.
    pub open spec fn spec_can_observe(&self, o: ObservationView) -> bool {
        self.screen matches Screen::Main(s) ==> can_record_rows(s.registry@, o)
    }

    pub fn can_observe(&self, o: &RawObservation) -> (b: bool)
        requires
            self.wf(),
        ensures
            b == self.spec_can_observe(o@),
    {
        match &self.screen {
            Screen::Main(s) => s.registry.can_record(o),
            Screen::Wizard(_) => true,
        }
    }

    /// One observation from the backend: logged, then recorded in the open session.
    pub fn observe(&mut self, o: RawObservation)
        requires
            old(self).wf(),
            old(self).spec_can_observe(o@),
        ensures
            final(self).wf(),
            line_views(final(self).scan_console_lines@) == console_push(line_views(old(self).scan_console_lines@), observation_line(o@)),
            match old(self).screen {
                Screen::Main(s0) => final(self).screen matches Screen::Main(s1) && {
                    &&& s1.registry@ == record_rows(s0.registry@, o@)
                    &&& s1.raw_log@ == s0.raw_log@.push(o)
                    &&& s1.phase_runs@ == s0.phase_runs@
                    &&& s1.metadata == s0.metadata
                    &&& s1.host == s0.host
                },
                Screen::Wizard(w) => final(self).screen == Screen::Wizard(w),
            },
            final(self).active_phase == old(self).active_phase,
            final(self).scanning_phase == old(self).scanning_phase,
            final(self).current_run == old(self).current_run,
            final(self).status == old(self).status,
            final(self).report_error_open == old(self).report_error_open,
            same_preferences(*final(self), *old(self)),
    {
        let line = observation_console_line(&o);
        self.push_console_line(line);
        match &mut self.screen {
            Screen::Main(session) => {
                let ghost r0 = session.registry@;
                let ghost log0 = observation_views(session.raw_log@);
                session.record(o);
                proof {
                    lemma_untagged_record(r0, o@);
                    lemma_replay_sorted(log0);
                    lemma_untagged_record(replay(log0), o@);
                    law_registry_is_fold_of_log(log0, o@);
                    assert(observation_views(session.raw_log@) =~= log0.push(o@));
                }
            },
            Screen::Wizard(_) => {},
        }
    }

    /// After a batch of observations: tags the host's own radio in the registry again.
    pub fn retag_local_radio(&mut self)
        requires
            old(self).wf(),
        ensures
            final(self).wf(),
            match old(self).screen {
                Screen::Main(s0) => final(self).screen matches Screen::Main(s1) && {
                    &&& s1.registry@ == tag_rows(s0.registry@, normalized_address(s0.host.address@))
                    &&& s1.raw_log == s0.raw_log
                    &&& s1.phase_runs == s0.phase_runs
                    &&& s1.metadata == s0.metadata
                    &&& s1.host == s0.host
                },
                Screen::Wizard(w) => final(self).screen == Screen::Wizard(w),
            },
            final(self).active_phase == old(self).active_phase,
            final(self).scanning_phase == old(self).scanning_phase,
            final(self).current_run == old(self).current_run,
            final(self).scan_console_lines == old(self).scan_console_lines,
            final(self).status == old(self).status,
            final(self).report_error_open == old(self).report_error_open,
            same_preferences(*final(self), *old(self)),
    {
        match &mut self.screen {
            Screen::Main(session) => {
                let local = normalize_address(session.host.address.as_str());
                let ghost r0 = session.registry@;
                session.registry.apply_local_radio_tag(local.as_str());
                proof {
                    lemma_untagged_tag(r0, local@);
                }
            },
            Screen::Wizard(_) => {},
        }
    }

    pub fn report_ready(&self) -> (b: bool)
        ensures
            b == self.spec_report_ready(),
    {
        match &self.screen {
            Screen::Main(session) => {
                session.phase_run_for(ScanPhase::Baseline).is_some() && session.phase_run_for(
                    ScanPhase::Target,
                ).is_some() && session.phase_run_for(ScanPhase::Verification).is_some()
            },
            Screen::Wizard(_) => false,
        }
    }

    /// The report was written to `path`.
    pub fn report_saved(&mut self, path: &str)
        ensures
            final(self).status@ == "Report saved to "@ + path@,
            final(self).screen == old(self).screen,
            final(self).active_phase == old(self).active_phase,
            final(self).scanning_phase == old(self).scanning_phase,
            final(self).current_run == old(self).current_run,
            final(self).scan_console_lines == old(self).scan_console_lines,
            final(self).report_error_open == old(self).report_error_open,
            same_preferences(*final(self), *old(self)),
    {
        let mut status = String::from_str("Report saved to ");
        status.append(path);
        self.status = status;
    }

    /// Writing the report failed with `error`.
    pub fn report_failed(&mut self, error: &str)
        ensures
            final(self).status@ == "Report save failed: "@ + error@,
            final(self).screen == old(self).screen,
            final(self).active_phase == old(self).active_phase,
            final(self).scanning_phase == old(self).scanning_phase,
            final(self).current_run == old(self).current_run,
            final(self).scan_console_lines == old(self).scan_console_lines,
            final(self).report_error_open == old(self).report_error_open,
            same_preferences(*final(self), *old(self)),
    {
        let mut status = String::from_str("Report save failed: ");
        status.append(error);
        self.status = status;
    }

    pub fn apply_settings_action(&mut self, action: SettingsScreenAction)
        ensures
            match action {
                SettingsScreenAction::BackToCapture => {
                    &&& final(self).route == MainRoute::Capture
                    &&& final(self).settings_section == old(self).settings_section
                },
                SettingsScreenAction::SelectSection(section) => {
                    &&& final(self).route == old(self).route
                    &&& final(self).settings_section == section
                },
            },
            final(self).screen == old(self).screen,
            final(self).active_phase == old(self).active_phase,
            final(self).scanning_phase == old(self).scanning_phase,
            final(self).current_run == old(self).current_run,
            final(self).status == old(self).status,
            final(self).scan_console_lines == old(self).scan_console_lines,
            final(self).report_error_open == old(self).report_error_open,
            final(self).filter_text == old(self).filter_text,
            final(self).kind_filter == old(self).kind_filter,
            final(self).report_format == old(self).report_format,
            final(self).scan_console_open == old(self).scan_console_open,
            final(self).settings == old(self).settings,
    {
        match action {
            SettingsScreenAction::BackToCapture => self.route = MainRoute::Capture,
            SettingsScreenAction::SelectSection(section) => self.settings_section = section,
        }
    }

    /// The operator picked a theme in the Appearance settings. Returns whether the choice
    /// changed the settings, which are then to be saved.
    pub fn select_theme(&mut self, theme: ThemeSetting) -> (changed: bool)
        ensures
            final(self).settings == (AppSettings { theme }),
            changed == (theme != old(self).settings.theme),
            final(self).screen == old(self).screen,
            final(self).active_phase == old(self).active_phase,
            final(self).scanning_phase == old(self).scanning_phase,
            final(self).current_run == old(self).current_run,
            final(self).status == old(self).status,
            final(self).scan_console_lines == old(self).scan_console_lines,
            final(self).report_error_open == old(self).report_error_open,
            final(self).filter_text == old(self).filter_text,
            final(self).kind_filter == old(self).kind_filter,
            final(self).report_format == old(self).report_format,
            final(self).route == old(self).route,
            final(self).settings_section == old(self).settings_section,
            final(self).scan_console_open == old(self).scan_console_open,
    {
        let previous = self.settings.theme;
        self.settings = AppSettings { theme };
        theme != previous
    }

    /// Empties the live scan log, leaving a line that says so.
    pub fn clear_console(&mut self, now: Timestamp)
        requires
            old(self).wf(),
        ensures
            final(self).wf(),
            line_views(final(self).scan_console_lines@) == seq![cleared_line(now)],
            final(self).screen == old(self).screen,
            final(self).active_phase == old(self).active_phase,
            final(self).scanning_phase == old(self).scanning_phase,
            final(self).current_run == old(self).current_run,
            final(self).status == old(self).status,
            final(self).report_error_open == old(self).report_error_open,
            same_preferences(*final(self), *old(self)),
    {
        self.scan_console_lines.clear();
        let line = clock_line(now, "Live scan log cleared.");
        self.push_console_line(line);
        assert(line_views(self.scan_console_lines@) =~= seq![cleared_line(now)]);
    }

    /// Discards the capture (the application stops the backend): no scan, no open run,
    /// an empty session for the same case and host, the baseline phase selected.
    fn reset_capture(&mut self, now: Timestamp)
        requires
            old(self).wf(),
        ensures
            final(self).wf(),
            final(self).scanning_phase is None,
            final(self).current_run is None,
            !final(self).report_error_open,
            line_views(final(self).scan_console_lines@) == seq![reset_line(now)],
            match old(self).screen {
                Screen::Main(s0) => final(self).screen matches Screen::Main(s1) && {
                    &&& s1.phase_runs@.len() == 0
                    &&& s1.raw_log@.len() == 0
                    &&& s1.registry@.len() == 0
                    &&& s1.metadata == s0.metadata
                    &&& s1.host == s0.host
                },
                Screen::Wizard(w) => final(self).screen == Screen::Wizard(w),
            },
            final(self).active_phase == ScanPhase::Baseline,
            final(self).status@ == RESET_STATUS@,
            same_preferences(*final(self), *old(self)),
    {
        self.scanning_phase = None;
        self.current_run = None;
        self.report_error_open = false;
        self.scan_console_lines.clear();
        let line = clock_line(now, "Capture reset.");
        self.push_console_line(line);
        assert(line_views(self.scan_console_lines@) =~= seq![reset_line(now)]);
        match &mut self.screen {
            Screen::Main(session) => session.reset_capture(),
            Screen::Wizard(_) => {},
        }
        self.active_phase = ScanPhase::Baseline;
        self.status = String::from_str(RESET_STATUS);
    }

    /// What an action of the capture view does. Starting (or rescanning) while a scan runs
    /// does nothing: at most one scan runs at a time. A report is offered for saving only
    /// once all three phases have run; otherwise the operator is told why not.
    pub fn apply_action(&mut self, action: MainScreenAction, now: Timestamp) -> (effect: AppEffect)
        requires
            old(self).wf(),
        ensures
            final(self).wf(),
            match action {
                MainScreenAction::Start(p) | MainScreenAction::Rescan(p) => {
                    &&& effect == (if old(self).scanning_phase is Some {
                        AppEffect::Nothing
                    } else {
                        AppEffect::StartBackend(p)
                    })
                    &&& *final(self) == *old(self)
                },
                MainScreenAction::Stop => {
                    &&& effect == AppEffect::StopBackend
                    &&& final(self).scanning_phase is None
                    &&& final(self).current_run is None
                    &&& screen_after_stop(old(self).screen, final(self).screen, old(self).current_run, OPERATOR_STOP_REASON@, now)
                    &&& (match old(self).scanning_phase {
                        Some(p) => {
                            &&& line_views(final(self).scan_console_lines@) == console_push(
                                line_views(old(self).scan_console_lines@),
                                stop_line(p, OPERATOR_STOP_REASON@, now),
                            )
                            &&& final(self).status@ == stopped_status(p)
                        },
                        None => {
                            &&& final(self).scan_console_lines == old(self).scan_console_lines
                            &&& final(self).status == old(self).status
                        },
                    })
                    &&& final(self).active_phase == old(self).active_phase
                    &&& final(self).report_error_open == old(self).report_error_open
                    &&& same_preferences(*final(self), *old(self))
                },
                MainScreenAction::SelectPhase(p) => {
                    &&& effect == AppEffect::Nothing
                    &&& *final(self) == AppState { active_phase: p, ..*old(self) }
                },
                MainScreenAction::GenerateReport => if old(self).spec_report_ready() {
                    &&& effect == AppEffect::SaveReport(old(self).report_format)
                    &&& *final(self) == *old(self)
                } else {
                    &&& effect == AppEffect::Nothing
                    &&& final(self).status@ == REPORT_NOT_READY_STATUS@
                    &&& *final(self) == AppState { report_error_open: true, status: final(self).status, ..*old(self) }
                },
                MainScreenAction::ResetCapture => {
                    &&& effect == AppEffect::StopBackend
                    &&& final(self).scanning_phase is None
                    &&& final(self).current_run is None
                    &&& !final(self).report_error_open
                    &&& line_views(final(self).scan_console_lines@) == seq![reset_line(now)]
                    &&& (match old(self).screen {
                        Screen::Main(s0) => final(self).screen matches Screen::Main(s1) && {
                            &&& s1.phase_runs@.len() == 0
                            &&& s1.raw_log@.len() == 0
                            &&& s1.registry@.len() == 0
                            &&& s1.metadata == s0.metadata
                            &&& s1.host == s0.host
                        },
                        Screen::Wizard(w) => final(self).screen == Screen::Wizard(w),
                    })
                    &&& final(self).active_phase == ScanPhase::Baseline
                    &&& final(self).status@ == RESET_STATUS@
                    &&& same_preferences(*final(self), *old(self))
                },
                MainScreenAction::SetKindFilter(k) => {
                    &&& effect == AppEffect::Nothing
                    &&& *final(self) == AppState { kind_filter: k, ..*old(self) }
                },
                MainScreenAction::SetFilterText(t) => {
                    &&& effect == AppEffect::Nothing
                    &&& *final(self) == AppState { filter_text: t, ..*old(self) }
                },
                MainScreenAction::OpenScanConsole => {
                    &&& effect == AppEffect::Nothing
                    &&& *final(self) == AppState { scan_console_open: true, ..*old(self) }
                },
                MainScreenAction::OpenSettings => {
                    &&& effect == AppEffect::Nothing
                    &&& *final(self) == AppState { route: MainRoute::Settings, ..*old(self) }
                },
            },
    {
        match action {
            MainScreenAction::Start(p) | MainScreenAction::Rescan(p) => {
                if self.scanning_phase.is_some() {
                    AppEffect::Nothing
                } else {
                    AppEffect::StartBackend(p)
                }
            },
            MainScreenAction::Stop => {
                self.stop_scan(OPERATOR_STOP_REASON, now);
                AppEffect::StopBackend
            },
            MainScreenAction::SelectPhase(p) => {
                self.active_phase = p;
                AppEffect::Nothing
            },
            MainScreenAction::GenerateReport => {
                if self.report_ready() {
                    AppEffect::SaveReport(self.report_format)
                } else {
                    self.report_error_open = true;
                    self.status = String::from_str(REPORT_NOT_READY_STATUS);
                    AppEffect::Nothing
                }
            },
            MainScreenAction::ResetCapture => {
                self.reset_capture(now);
                AppEffect::StopBackend
            },
            MainScreenAction::SetKindFilter(k) => {
                self.kind_filter = k;
                AppEffect::Nothing
            },
            MainScreenAction::SetFilterText(t) => {
                self.filter_text = t;
                AppEffect::Nothing
            },
            MainScreenAction::OpenScanConsole => {
                self.scan_console_open = true;
                AppEffect::Nothing
            },
            MainScreenAction::OpenSettings => {
                self.route = MainRoute::Settings;
                AppEffect::Nothing
            },
        }
    }
}

/// The live scan log never grows past its limit, always ends with the newest line, and
/// drops only its oldest lines: what it keeps is the tail of everything pushed.
pub proof fn law_console_keeps_newest(lines: Seq<Seq<char>>, line: Seq<char>)
    requires
        lines.len() <= MAX_CONSOLE_LINES,
    ensures
        console_push(lines, line).len() <= MAX_CONSOLE_LINES,
        console_push(lines, line).last() == line,
        lines.push(line).subrange(
            lines.len() + 1 - console_push(lines, line).len(),
            lines.len() + 1int,
        ) == console_push(lines, line),
{
    let r = console_push(lines, line);
    if lines.len() + 1 > MAX_CONSOLE_LINES {
        assert(r.last() == line);
    } else {
        assert(lines.push(line).subrange(0, lines.len() + 1int) =~= lines.push(line));
    }
}

} // verus!
