//! The standalone HTML report: capture metadata, phase runs, the per-phase
//! summary, the deduplicated device registry, and the raw audit log, with
//! every recorded value HTML-escaped.

use vstd::prelude::*;
use crate::models::{normalize_address, normalized_address, DeviceKind, ScanPhase, ScanPhaseRun, SignalStrength};
use crate::order::{compare_chars, Cmp};
use crate::registry::{
    device_views, first_seen_rows, lemma_phase_rows_are_filters, seen_rows, rows_new_in, rows_seen_in, DeviceRecord,
    DeviceView, ObservationView, PhaseObservation, RawObservation,
};
use crate::session::CaptureSession;
use crate::text::{chars_of, dec, dec_padded, int_text, push_char, push_dec, push_dec_padded, push_int};
use crate::time::{valid_clock_reading, Timestamp};

verus! {

/// Stylesheet for the standalone HTML report: self-contained, no external fonts, scripts or images.
pub const STYLE: &'static str = "    :root {\n      --accent: #0073cf; --accent-deep: #00509b; --accent-soft: #daeeff;\n      --ink: #171b1f; --muted: #646a70; --border: #dbdee3; --border-soft: #e5e8ec;\n      --bg: #f2f5f8; --card: #ffffff;\n      --strong: #1b9247; --medium: #af7c00; --weak: #cb4644;\n    }\n    * { box-sizing: border-box; }\n    body {\n      font-family: -apple-system, \"Segoe UI\", Roboto, Arial, sans-serif;\n      margin: 0; background: var(--bg); color: var(--ink);\n    }\n    .page { max-width: 1180px; margin: 0 auto; padding: 32px 24px 64px; }\n    header.report {\n      background: linear-gradient(135deg, var(--accent-deep), var(--accent));\n      color: #fff; border-radius: 12px; padding: 26px 30px;\n    }\n    header.report h1 { margin: 0 0 4px; font-size: 24px; letter-spacing: 0.2px; }\n    header.report .sub { opacity: 0.85; font-size: 13px; margin-bottom: 18px; }\n    .meta-grid {\n      display: grid; grid-template-columns: repeat(auto-fit, minmax(220px, 1fr));\n      gap: 10px 14px; margin: 0;\n    }\n    .meta-grid div { background: rgba(255,255,255,0.12); border-radius: 8px; padding: 8px 12px; }\n    .meta-grid dt { font-size: 10px; text-transform: uppercase; letter-spacing: 0.8px; opacity: 0.75; }\n    .meta-grid dd { margin: 2px 0 0; font-size: 14px; font-weight: 600; word-break: break-word; }\n    section {\n      background: var(--card); border: 1px solid var(--border-soft); border-radius: 12px;\n      padding: 20px 24px; margin-top: 20px; box-shadow: 0 1px 3px rgba(23,27,31,0.06);\n    }\n    h2 { margin: 0 0 4px; font-size: 17px; }\n    h2::before { content: \"\"; display: inline-block; width: 5px; height: 15px;\n      background: var(--accent); border-radius: 3px; margin-right: 9px; }\n    .section-note { color: var(--muted); font-size: 12.5px; margin: 0 0 14px; }\n    .table-wrap { overflow-x: auto; }\n    table { border-collapse: collapse; width: 100%; font-size: 13px; }\n    th, td { padding: 9px 10px; text-align: left; vertical-align: top;\n      border-bottom: 1px solid var(--border-soft); }\n    thead th { font-size: 11px; text-transform: uppercase; letter-spacing: 0.6px;\n      color: var(--muted); background: #f6f9fb; border-bottom: 2px solid var(--border);\n      white-space: nowrap; }\n    tbody tr:nth-child(even) { background: #fafcfd; }\n    tr.local td { background: #fff6d8; }\n    .mono { font-family: ui-monospace, Consolas, \"SFMono-Regular\", Menlo, monospace;\n      font-size: 12px; }\n    .muted { color: var(--muted); }\n    .small { font-size: 12px; }\n    .count { font-variant-numeric: tabular-nums; }\n    .pill { display: inline-block; padding: 2px 9px; border-radius: 999px;\n      font-size: 11px; font-weight: 600; white-space: nowrap; }\n    .pill.kind-ble { background: var(--accent-soft); color: var(--accent-deep); }\n    .pill.kind-classic { background: #eee6ff; color: #5a3b8f; }\n    .pill.kind-unknown { background: #eceff2; color: var(--muted); }\n    .pill.paired { background: #dbf2df; color: #135c2f; }\n    .pill.tag { background: #ffe9a8; color: #6b5200; }\n    .sig-strong { color: var(--strong); font-weight: 600; }\n    .sig-medium { color: var(--medium); font-weight: 600; }\n    .sig-weak { color: var(--weak); font-weight: 600; }\n    .sig-unknown { color: var(--muted); }\n    @media print {\n      body { background: #fff; }\n      .page { padding: 0; max-width: none; }\n      section { box-shadow: none; break-inside: avoid; }\n    }\n";

pub const DOC_HEAD: &'static str = "<!doctype html>\n<html lang=\"en\">\n<head>\n  <meta charset=\"utf-8\">\n  <meta name=\"viewport\" content=\"width=device-width, initial-scale=1\">\n  <title>FindBT Bluetooth Report</title>\n  <style>\n";
pub const DOC_AFTER_STYLE: &'static str = "  </style>\n</head>\n<body>\n  <div class=\"page\">\n    <header class=\"report\">\n      <h1>FindBT Bluetooth Report</h1>\n      <div class=\"sub\">Generated ";
pub const DOC_AFTER_GENERATED: &'static str = "</div>\n      <dl class=\"meta-grid\">\n";
pub const DOC_AFTER_META: &'static str = "\n      </dl>\n    </header>\n\n    <section>\n      <h2>Phase runs</h2>\n      <p class=\"section-note\">Every start and stop of each scan phase, as recorded during the capture.</p>\n      <div class=\"table-wrap\">\n        <table>\n          <thead><tr><th>Phase</th><th>Started</th><th>Stopped</th><th>Duration</th><th>Stop reason</th></tr></thead>\n          <tbody>\n";
pub const DOC_AFTER_PHASE_RUNS: &'static str = "\n          </tbody>\n        </table>\n      </div>\n    </section>\n\n    <section>\n      <h2>Phase summary</h2>\n      <div class=\"table-wrap\">\n        <table>\n          <thead><tr><th>Phase</th><th>Purpose</th><th>Raw observations</th><th>Unique addresses</th><th>Newly seen</th></tr></thead>\n          <tbody>\n";
pub const DOC_AFTER_SUMMARY: &'static str = "\n          </tbody>\n        </table>\n      </div>\n      <p class=\"section-note\">\"Newly seen\" means the first phase where that device appears in the registry. The report does not compute or highlight a match; it only renders the observed phase data.</p>\n    </section>\n\n    <section>\n      <h2>Device registry</h2>\n      <p class=\"section-note\">One row per device, tracked across all three phases.</p>\n      <div class=\"table-wrap\">\n        <table>\n          <thead><tr><th>Local Radio</th><th>Name</th><th>Kind</th><th>Address</th><th>Paired</th><th>First phase</th><th>Baseline RSSI</th><th>Target RSSI</th><th>Verification RSSI</th><th>Windows/device id</th><th>Last seen</th><th>Properties</th></tr></thead>\n          <tbody>\n";
pub const DOC_AFTER_DEVICES: &'static str = "\n          </tbody>\n        </table>\n      </div>\n    </section>\n\n    <section>\n      <h2>Raw audit log</h2>\n      <p class=\"section-note\">Append-only capture log. Every backend observation is listed, unfiltered.</p>\n      <div class=\"table-wrap\">\n        <table>\n          <thead><tr><th>Observed</th><th>Phase</th><th>Local Radio</th><th>Name</th><th>Kind</th><th>Address</th><th>Paired</th><th>RSSI</th><th>Device id</th><th>Properties</th></tr></thead>\n          <tbody>\n";
pub const DOC_TAIL: &'static str = "\n          </tbody>\n        </table>\n      </div>\n    </section>\n  </div>\n</body>\n</html>\n";

// ---------------------------------------------------------------------------
// Escaping and joining
// ---------------------------------------------------------------------------

/// The HTML entity for a markup-significant character, or the character itself.
pub open spec fn escape_char(c: char) -> Seq<char> {
    if c == '&' {
        "&amp;"@
    } else if c == '<' {
        "&lt;"@
    } else if c == '>' {
        "&gt;"@
    } else if c == '"' {
        "&quot;"@
    } else if c == '\'' {
        "&#39;"@
    } else {
        seq![c]
    }
}

/// A text with `& < > " '` replaced by their entities.
pub open spec fn html_escape(s: Seq<char>) -> Seq<char>
    decreases s.len(),
{
    if s.len() == 0 {
        Seq::empty()
    } else {
        html_escape(s.drop_last()) + escape_char(s.last())
    }
}

/// A character that could open or close markup or an attribute value.
pub open spec fn is_markup_char(c: char) -> bool {
    c == '<' || c == '>' || c == '"' || c == '\''
}

/// Every value in the HTML report is escaped: whatever the text holds, its escaped form
/// contains no character that opens or closes markup or an attribute value.
pub proof fn law_html_escape_has_no_markup(s: Seq<char>)
    ensures
        forall|i: int| 0 <= i < html_escape(s).len() ==> !is_markup_char(#[trigger] html_escape(s)[i]),
    decreases s.len(),
{
    if s.len() > 0 {
        law_html_escape_has_no_markup(s.drop_last());
        reveal_strlit("&amp;");
        reveal_strlit("&lt;");
        reveal_strlit("&gt;");
        reveal_strlit("&quot;");
        reveal_strlit("&#39;");
        let e = escape_char(s.last());
        assert forall|i: int| 0 <= i < e.len() implies !is_markup_char(#[trigger] e[i]) by {}
        let prev = html_escape(s.drop_last());
        assert forall|i: int| 0 <= i < html_escape(s).len() implies !is_markup_char(#[trigger] html_escape(s)[i]) by {
            if i < prev.len() {
                assert(html_escape(s)[i] == prev[i]);
            } else {
                assert(html_escape(s)[i] == e[i - prev.len()]);
            }
        }
    }
}

/// Escapes a value for inclusion in the report's HTML.
pub fn html_encode(value: &str) -> (r: String)
    ensures
        r@ == html_escape(value@),
{
    let cs = chars_of(value);
    let mut out = String::new();
    let mut i: usize = 0;
    assert(cs@.subrange(0, 0) =~= Seq::<char>::empty());
    while i < cs.len()
        invariant
            0 <= i <= cs.len(),
            cs@ == value@,
            out@ == html_escape(cs@.subrange(0, i as int)),
        decreases cs.len() - i,
    {
        let ch = cs[i];
        assert(cs@.subrange(0, i + 1).drop_last() =~= cs@.subrange(0, i as int));
        if ch == '&' {
            out.append("&amp;");
        } else if ch == '<' {
            out.append("&lt;");
        } else if ch == '>' {
            out.append("&gt;");
        } else if ch == '"' {
            out.append("&quot;");
        } else if ch == '\'' {
            out.append("&#39;");
        } else {
            push_char(&mut out, ch);
        }
        i += 1;
    }
    assert(cs@.subrange(0, i as int) =~= cs@);
    out
}

/// Items joined by newlines.
pub open spec fn join_lines(items: Seq<Seq<char>>) -> Seq<char>
    decreases items.len(),
{
    if items.len() == 0 {
        Seq::empty()
    } else if items.len() == 1 {
        items[0]
    } else {
        join_lines(items.drop_last()) + seq!['\n'] + items.last()
    }
}

pub proof fn lemma_join_step(items: Seq<Seq<char>>, i: int)
    requires
        0 <= i < items.len(),
    ensures
        join_lines(items.subrange(0, i + 1)) == (if i == 0 {
            items[0]
        } else {
            join_lines(items.subrange(0, i)) + seq!['\n'] + items[i]
        }),
{
    assert(items.subrange(0, i + 1).drop_last() =~= items.subrange(0, i));
}

/// A joined block of rows, or the placeholder row when there are none.
pub open spec fn or_placeholder(joined: Seq<char>, placeholder: Seq<char>) -> Seq<char> {
    if joined.len() == 0 {
        placeholder
    } else {
        joined
    }
}

// ---------------------------------------------------------------------------
// Cells
// ---------------------------------------------------------------------------

pub open spec fn kind_pill_text(kind: DeviceKind) -> Seq<char> {
    match kind {
        DeviceKind::Ble => "<span class=\"pill kind-ble\">BLE</span>"@,
        DeviceKind::Classic => "<span class=\"pill kind-classic\">Classic</span>"@,
        DeviceKind::Unknown => "<span class=\"pill kind-unknown\">Unknown</span>"@,
    }
}

fn kind_pill(kind: DeviceKind) -> (s: &'static str)
    ensures
        s@ == kind_pill_text(kind),
{
    match kind {
        DeviceKind::Ble => "<span class=\"pill kind-ble\">BLE</span>",
        DeviceKind::Classic => "<span class=\"pill kind-classic\">Classic</span>",
        DeviceKind::Unknown => "<span class=\"pill kind-unknown\">Unknown</span>",
    }
}

pub open spec fn paired_html_text(paired: bool) -> Seq<char> {
    if paired {
        "<span class=\"pill paired\">Paired</span>"@
    } else {
        "<span class=\"muted\">No</span>"@
    }
}

fn paired_html(paired: bool) -> (s: &'static str)
    ensures
        s@ == paired_html_text(paired),
{
    if paired {
        "<span class=\"pill paired\">Paired</span>"
    } else {
        "<span class=\"muted\">No</span>"
    }
}

pub open spec fn signal_label_text(strength: SignalStrength) -> Seq<char> {
    match strength {
        SignalStrength::Strong => "strong"@,
        SignalStrength::Medium => "medium"@,
        SignalStrength::Weak => "weak"@,
        SignalStrength::Unknown => "unknown"@,
    }
}

pub fn signal_label(strength: SignalStrength) -> (s: &'static str)
    ensures
        s@ == signal_label_text(strength),
{
    match strength {
        SignalStrength::Strong => "strong",
        SignalStrength::Medium => "medium",
        SignalStrength::Weak => "weak",
        SignalStrength::Unknown => "unknown",
    }
}

/// The CSS class suffix of a strength bucket (`sig-strong` and so on).
pub open spec fn signal_class_text(strength: SignalStrength) -> Seq<char> {
    signal_label_text(strength)
}

fn signal_class(strength: SignalStrength) -> (s: &'static str)
    ensures
        s@ == signal_class_text(strength),
{
    match strength {
        SignalStrength::Strong => "strong",
        SignalStrength::Medium => "medium",
        SignalStrength::Weak => "weak",
        SignalStrength::Unknown => "unknown",
    }
}

pub open spec fn rssi_html_text(rssi: Option<i32>) -> Seq<char> {
    match rssi {
        Some(v) => "<span class=\"sig-"@ + signal_class_text(SignalStrength::spec_from_rssi(Some(v)))
            + "\">"@ + int_text(v as int) + " dBm ("@ + signal_label_text(
            SignalStrength::spec_from_rssi(Some(v)),
        ) + ")</span>"@,
        None => "<span class=\"muted\">unknown</span>"@,
    }
}

fn rssi_html(rssi: Option<i32>) -> (s: String)
    ensures
        s@ == rssi_html_text(rssi),
{
    let mut s = String::new();
    match rssi {
        Some(value) => {
            let strength = SignalStrength::from_rssi(Some(value));
            s.append("<span class=\"sig-");
            s.append(signal_class(strength));
            s.append("\">");
            push_int(&mut s, value as i64);
            s.append(" dBm (");
            s.append(signal_label(strength));
            s.append(")</span>");
        },
        None => {
            s.append("<span class=\"muted\">unknown</span>");
        },
    }
    s
}

pub open spec fn phase_rssi_html_text(device: DeviceView, phase: ScanPhase) -> Seq<char> {
    match device.observations.at(phase) {
        Some(o) => rssi_html_text(o.rssi),
        None => "<span class=\"muted\">not seen</span>"@,
    }
}

fn phase_rssi_html(device: &DeviceRecord, phase: ScanPhase) -> (s: String)
    ensures
        s@ == phase_rssi_html_text(device@, phase),
{
    match device.seen_in(phase) {
        Some(obs) => rssi_html(obs.rssi),
        None => {
            let mut s = String::new();
            s.append("<span class=\"muted\">not seen</span>");
            s
        },
    }
}

/// Plain-text RSSI: `-42 dBm (strong)`, or `unknown`.
pub open spec fn format_rssi_text(rssi: Option<i32>) -> Seq<char> {
    match rssi {
        Some(v) => int_text(v as int) + " dBm ("@ + signal_label_text(SignalStrength::spec_from_rssi(Some(v))) + ")"@,
        None => "unknown"@,
    }
}

pub fn format_rssi(rssi: Option<i32>) -> (s: String)
    ensures
        s@ == format_rssi_text(rssi),
{
    let mut s = String::new();
    match rssi {
        Some(value) => {
            push_int(&mut s, value as i64);
            s.append(" dBm (");
            s.append(signal_label(SignalStrength::from_rssi(Some(value))));
            s.append(")");
        },
        None => {
            s.append("unknown");
        },
    }
    s
}

/// What identifies a device in the "unique addresses" count: its normalized address, or
/// `Kind:device-id` when it has none.
pub open spec fn device_identity_text(device: DeviceView) -> Seq<char> {
    if normalized_address(device.address).len() == 0 {
        device.kind.debug_name_text() + ":"@ + device.device_id
    } else {
        normalized_address(device.address)
    }
}

pub fn device_identity(device: &DeviceRecord) -> (s: String)
    ensures
        s@ == device_identity_text(device@),
{
    let normalized = normalize_address(device.address.as_str());
    if normalized.as_str().is_empty() {
        let mut s = String::new();
        s.append(device.kind.debug_name());
        s.append(":");
        s.append(device.device_id.as_str());
        s
    } else {
        normalized
    }
}

/// `H:MM:SS` when at least an hour, else `MM:SS`; negative durations count as zero.
pub open spec fn duration_text(seconds: i64) -> Seq<char> {
    let total: int = if seconds < 0 { 0 } else { seconds as int };
    let hours = total / 3600;
    let minutes = (total % 3600) / 60;
    let secs = total % 60;
    if hours > 0 {
        dec(hours as nat) + ":"@ + dec_padded(minutes as nat, 2) + ":"@ + dec_padded(secs as nat, 2)
    } else {
        dec_padded(minutes as nat, 2) + ":"@ + dec_padded(secs as nat, 2)
    }
}

pub fn format_duration(seconds: i64) -> (s: String)
    ensures
        s@ == duration_text(seconds),
{
    let total: u64 = if seconds < 0 { 0 } else { seconds as u64 };
    let hours = total / 3600;
    let minutes = (total % 3600) / 60;
    let secs = total % 60;
    let mut s = String::new();
    if hours > 0 {
        push_dec(&mut s, hours);
        s.append(":");
        push_dec_padded(&mut s, minutes, 2);
        s.append(":");
        push_dec_padded(&mut s, secs, 2);
    } else {
        push_dec_padded(&mut s, minutes, 2);
        s.append(":");
        push_dec_padded(&mut s, secs, 2);
    }
    s
}


/// Appends the escaped form of `v`.
fn append_escaped(out: &mut String, v: &str)
    ensures
        final(out)@ == old(out)@ + html_escape(v@),
{
    let e = html_encode(v);
    out.append(e.as_str());
}

fn append_escaped_seq(out: &mut String, v: &String)
    ensures
        final(out)@ == old(out)@ + html_escape(v@),
{
    append_escaped(out, v.as_str());
}

// ---------------------------------------------------------------------------
// Rows
// ---------------------------------------------------------------------------

pub open spec fn stopped_text(run: ScanPhaseRun) -> Seq<char> {
    match run.stopped_at {
        Some(t) => t.text(),
        None => Seq::empty(),
    }
}

pub open spec fn duration_cell_text(run: ScanPhaseRun) -> Seq<char> {
    match run.spec_duration() {
        Some(d) => duration_text(d),
        None => Seq::empty(),
    }
}

pub open spec fn phase_run_row_text(run: ScanPhaseRun) -> Seq<char> {
    "          <tr><td>"@ + html_escape(run.phase.report_label_text()) + "</td><td>"@ + html_escape(
        run.started_at.text(),
    ) + "</td><td>"@ + html_escape(stopped_text(run)) + "</td><td class=\"count\">"@ + html_escape(
        duration_cell_text(run),
    ) + "</td><td>"@ + html_escape(run.stop_reason@) + "</td></tr>"@
}

pub(crate) fn stopped_cell(run: &ScanPhaseRun) -> (s: String)
    ensures
        s@ == stopped_text(*run),
{
    match &run.stopped_at {
        Some(t) => t.format(),
        None => String::new(),
    }
}

pub(crate) fn duration_cell(run: &ScanPhaseRun) -> (s: String)
    ensures
        s@ == duration_cell_text(*run),
{
    match run.duration() {
        Some(d) => format_duration(d),
        None => String::new(),
    }
}

fn phase_run_row(run: &ScanPhaseRun) -> (s: String)
    ensures
        s@ == phase_run_row_text(*run),
{
    let mut s = String::new();
    s.append("          <tr><td>");
    append_escaped(&mut s, run.phase.report_label());
    s.append("</td><td>");
    let started = run.started_at.format();
    append_escaped_seq(&mut s, &started);
    s.append("</td><td>");
    let stopped = stopped_cell(run);
    append_escaped_seq(&mut s, &stopped);
    s.append("</td><td class=\"count\">");
    let duration = duration_cell(run);
    append_escaped_seq(&mut s, &duration);
    s.append("</td><td>");
    append_escaped_seq(&mut s, &run.stop_reason);
    s.append("</td></tr>");
    s
}

pub open spec fn phase_rows_text(runs: Seq<ScanPhaseRun>) -> Seq<char> {
    or_placeholder(
        join_lines(runs.map_values(|r: ScanPhaseRun| phase_run_row_text(r))),
        "          <tr><td colspan=\"5\" class=\"muted\">No phase runs recorded.</td></tr>"@,
    )
}

fn phase_rows(runs: &Vec<ScanPhaseRun>) -> (s: String)
    ensures
        s@ == phase_rows_text(runs@),
{
    let ghost items = runs@.map_values(|r: ScanPhaseRun| phase_run_row_text(r));
    let mut out = String::new();
    let mut i: usize = 0;
    assert(items.subrange(0, 0) =~= Seq::<Seq<char>>::empty());
    while i < runs.len()
        invariant
            0 <= i <= runs.len(),
            items == runs@.map_values(|r: ScanPhaseRun| phase_run_row_text(r)),
            out@ == join_lines(items.subrange(0, i as int)),
        decreases runs.len() - i,
    {
        proof {
            lemma_join_step(items, i as int);
        }
        if i > 0 {
            push_char(&mut out, '\n');
        }
        let row = phase_run_row(&runs[i]);
        out.append(row.as_str());
        i += 1;
    }
    assert(items.subrange(0, i as int) =~= items);
    if out.as_str().is_empty() {
        let mut p = String::new();
        p.append("          <tr><td colspan=\"5\" class=\"muted\">No phase runs recorded.</td></tr>");
        p
    } else {
        out
    }
}

/// The number of raw observations made in `phase`.
pub open spec fn count_in_phase(log: Seq<ObservationView>, phase: ScanPhase) -> nat
    decreases log.len(),
{
    if log.len() == 0 {
        0
    } else {
        count_in_phase(log.drop_last(), phase) + (if log.last().phase == phase { 1nat } else { 0nat })
    }
}

/// The number of distinct values.
pub open spec fn distinct_count(ids: Seq<Seq<char>>) -> nat
    decreases ids.len(),
{
    if ids.len() == 0 {
        0
    } else {
        distinct_count(ids.drop_last()) + (if ids.drop_last().contains(ids.last()) { 0nat } else { 1nat })
    }
}

pub open spec fn identities(rows: Seq<DeviceView>) -> Seq<Seq<char>> {
    rows.map_values(|d: DeviceView| device_identity_text(d))
}

pub open spec fn raw_views(log: Seq<RawObservation>) -> Seq<ObservationView> {
    log.map_values(|o: RawObservation| o@)
}

pub open spec fn summary_row_text(log: Seq<ObservationView>, rows: Seq<DeviceView>, phase: ScanPhase) -> Seq<char> {
    "          <tr><td>"@ + html_escape(phase.report_label_text()) + "</td><td class=\"muted small\">"@
        + html_escape(phase.operator_instruction_text()) + "</td><td class=\"count\">"@ + dec(
        count_in_phase(log, phase),
    ) + "</td><td class=\"count\">"@ + dec(distinct_count(identities(rows_seen_in(rows, phase))))
        + "</td><td class=\"count\"><strong>"@ + dec(rows_new_in(rows, phase).len())
        + "</strong></td></tr>"@
}

/// The observations of the log recorded in `phase`.
pub open spec fn log_in_phase(log: Seq<ObservationView>, phase: ScanPhase) -> Seq<ObservationView> {
    log.filter(|o: ObservationView| o.phase == phase)
}

/// The set of identities (normalized address, or kind and id) of the rows seen in `phase`.
pub open spec fn identities_seen(rows: Seq<DeviceView>, phase: ScanPhase) -> Set<Seq<char>> {
    seen_rows(rows, phase).map_values(|d: DeviceView| device_identity_text(d)).to_set()
}

pub proof fn lemma_count_in_phase_is_filter(log: Seq<ObservationView>, phase: ScanPhase)
    ensures
        count_in_phase(log, phase) == log_in_phase(log, phase).len(),
    decreases log.len(),
{
    reveal(Seq::filter);
    if log.len() > 0 {
        lemma_count_in_phase_is_filter(log.drop_last(), phase);
    }
}

pub proof fn lemma_distinct_count_is_set_size(ids: Seq<Seq<char>>)
    ensures
        ids.to_set().finite(),
        distinct_count(ids) == ids.to_set().len(),
    decreases ids.len(),
{
    broadcast use vstd::seq_lib::seq_to_set_is_finite;
    broadcast use vstd::seq_lib::lemma_seq_contains_after_push;

    if ids.len() == 0 {
        assert(ids.to_set() =~= Set::<Seq<char>>::empty());
    } else {
        let init = ids.drop_last();
        lemma_distinct_count_is_set_size(init);
        assert(ids == init.push(ids.last()));
        assert(ids.to_set() =~= init.to_set().insert(ids.last()));
    }
}

/// The counts of a phase's summary row: the observations logged in the phase, the distinct
/// identities among the devices seen in it, and the devices first seen in it.
pub proof fn lemma_summary_counts(log: Seq<ObservationView>, rows: Seq<DeviceView>, phase: ScanPhase)
    ensures
        count_in_phase(log, phase) == log_in_phase(log, phase).len(),
        distinct_count(identities(rows_seen_in(rows, phase))) == identities_seen(rows, phase).len(),
        rows_new_in(rows, phase).len() == first_seen_rows(rows, phase).len(),
{
    lemma_count_in_phase_is_filter(log, phase);
    lemma_phase_rows_are_filters(rows, phase);
    lemma_distinct_count_is_set_size(identities(rows_seen_in(rows, phase)));
}

/// A phase's summary row ends with its three counts: the observations logged in that
/// phase, the number of distinct identities among the devices seen in it, and, in bold
/// ("Newly seen"), the number of registry rows whose first sighting was in that phase (a
/// device already seen in an earlier phase is not counted).
pub proof fn law_summary_row_counts(log: Seq<ObservationView>, rows: Seq<DeviceView>, phase: ScanPhase)
    ensures
        exists|head: Seq<char>|
            summary_row_text(log, rows, phase) == head + dec(log_in_phase(log, phase).len())
                + "</td><td class=\"count\">"@ + dec(identities_seen(rows, phase).len())
                + "</td><td class=\"count\"><strong>"@ + dec(first_seen_rows(rows, phase).len())
                + "</strong></td></tr>"@,
{
    lemma_summary_counts(log, rows, phase);
    let head = "          <tr><td>"@ + html_escape(phase.report_label_text()) + "</td><td class=\"muted small\">"@
        + html_escape(phase.operator_instruction_text()) + "</td><td class=\"count\">"@;
    assert(summary_row_text(log, rows, phase) =~= head + dec(log_in_phase(log, phase).len())
        + "</td><td class=\"count\">"@ + dec(identities_seen(rows, phase).len())
        + "</td><td class=\"count\"><strong>"@ + dec(first_seen_rows(rows, phase).len())
        + "</strong></td></tr>"@);
}

pub(crate) fn raw_count(log: &Vec<RawObservation>, phase: ScanPhase) -> (n: u64)
    ensures
        n == count_in_phase(raw_views(log@), phase),
{
    let ghost views = raw_views(log@);
    let mut n: u64 = 0;
    let mut i: usize = 0;
    assert(views.subrange(0, 0) =~= Seq::<ObservationView>::empty());
    while i < log.len()
        invariant
            0 <= i <= log.len(),
            views == raw_views(log@),
            n == count_in_phase(views.subrange(0, i as int), phase),
            n <= i,
        decreases log.len() - i,
    {
        assert(views.subrange(0, i + 1).drop_last() =~= views.subrange(0, i as int));
        if log[i].phase == phase {
            n += 1;
        }
        i += 1;
    }
    assert(views.subrange(0, i as int) =~= views);
    n
}

fn contains_chars(seen: &Vec<Vec<char>>, x: &Vec<char>) -> (b: bool)
    ensures
        b == (exists|k: int| 0 <= k < seen@.len() && (#[trigger] seen@[k])@ == x@),
{
    let mut k: usize = 0;
    while k < seen.len()
        invariant
            0 <= k <= seen.len(),
            forall|j: int| 0 <= j < k ==> (#[trigger] seen@[j])@ != x@,
        decreases seen.len() - k,
    {
        if compare_chars(&seen[k], x) == Cmp::Equal {
            return true;
        }
        k += 1;
    }
    false
}

/// The number of distinct identities among the devices.
pub(crate) fn unique_identities(devices: &Vec<&DeviceRecord>) -> (n: u64)
    ensures
        n == distinct_count(identities(device_views(devices@))),
{
    let ghost ids = identities(device_views(devices@));
    let mut seen: Vec<Vec<char>> = Vec::new();
    let mut i: usize = 0;
    assert(ids.subrange(0, 0) =~= Seq::<Seq<char>>::empty());
    while i < devices.len()
        invariant
            0 <= i <= devices.len(),
            ids == identities(device_views(devices@)),
            seen@.len() == distinct_count(ids.subrange(0, i as int)),
            seen@.len() <= i,
            forall|x: Seq<char>| ids.subrange(0, i as int).contains(x) <==> exists|k: int|
                0 <= k < seen@.len() && (#[trigger] seen@[k])@ == x,
        decreases devices.len() - i,
    {
        let id = device_identity(devices[i]);
        let id_chars = chars_of(id.as_str());
        assert(id_chars@ == ids[i as int]);
        let ghost prefix = ids.subrange(0, i as int);
        assert(ids.subrange(0, i + 1).drop_last() =~= prefix);
        assert(ids.subrange(0, i + 1).last() == ids[i as int]);
        let ghost next = ids.subrange(0, i + 1);
        assert(next.drop_last() =~= prefix);
        let present = contains_chars(&seen, &id_chars);
        assert(present == prefix.contains(ids[i as int]));
        if !present {
            let ghost old_seen = seen@;
            seen.push(id_chars);
            assert forall|x: Seq<char>| next.contains(x) <==> exists|k: int|
                0 <= k < seen@.len() && (#[trigger] seen@[k])@ == x by {
                if next.contains(x) {
                    let j = choose|j: int| 0 <= j < next.len() && #[trigger] next[j] == x;
                    if j < i {
                        assert(prefix[j] == x);
                        assert(prefix.contains(x));
                        let k = choose|k: int| 0 <= k < old_seen.len() && (#[trigger] old_seen[k])@ == x;
                        assert(seen@[k] == old_seen[k]);
                    } else {
                        assert(seen@[old_seen.len() as int]@ == x);
                    }
                }
                if exists|k: int| 0 <= k < seen@.len() && (#[trigger] seen@[k])@ == x {
                    let k = choose|k: int| 0 <= k < seen@.len() && (#[trigger] seen@[k])@ == x;
                    if k < old_seen.len() {
                        assert(old_seen[k]@ == x);
                        assert(prefix.contains(x));
                        let j = choose|j: int| 0 <= j < prefix.len() && #[trigger] prefix[j] == x;
                        assert(next[j] == x);
                    } else {
                        assert(next[i as int] == x);
                    }
                }
            }
        } else {
            assert forall|x: Seq<char>| next.contains(x) <==> exists|k: int|
                0 <= k < seen@.len() && (#[trigger] seen@[k])@ == x by {
                if next.contains(x) {
                    let j = choose|j: int| 0 <= j < next.len() && #[trigger] next[j] == x;
                    if j < i {
                        assert(prefix[j] == x);
                    }
                    assert(prefix.contains(x));
                }
                if exists|k: int| 0 <= k < seen@.len() && (#[trigger] seen@[k])@ == x {
                    assert(prefix.contains(x));
                    let j = choose|j: int| 0 <= j < prefix.len() && #[trigger] prefix[j] == x;
                    assert(next[j] == x);
                }
            }
        }
        i += 1;
    }
    assert(ids.subrange(0, i as int) =~= ids);
    seen.len() as u64
}

fn summary_row(session: &CaptureSession, phase: ScanPhase) -> (s: String)
    ensures
        s@ == summary_row_text(raw_views(session.raw_log@), session.registry@, phase),
{
    let raw = raw_count(&session.raw_log, phase);
    let observed = session.registry.observed_in(phase);
    let unique = unique_identities(&observed);
    let newly = session.registry.newly_seen_in(phase);
    let mut s = String::new();
    s.append("          <tr><td>");
    append_escaped(&mut s, phase.report_label());
    s.append("</td><td class=\"muted small\">");
    append_escaped(&mut s, phase.operator_instruction());
    s.append("</td><td class=\"count\">");
    push_dec(&mut s, raw);
    s.append("</td><td class=\"count\">");
    push_dec(&mut s, unique);
    s.append("</td><td class=\"count\"><strong>");
    proof {
        assert(device_views(newly@).len() == newly@.len());
    }
    push_dec(&mut s, newly.len() as u64);
    s.append("</strong></td></tr>");
    s
}

pub open spec fn summary_rows_text(log: Seq<ObservationView>, rows: Seq<DeviceView>) -> Seq<char> {
    summary_row_text(log, rows, ScanPhase::Baseline) + seq!['\n'] + summary_row_text(
        log,
        rows,
        ScanPhase::Target,
    ) + seq!['\n'] + summary_row_text(log, rows, ScanPhase::Verification)
}

fn summary_rows(session: &CaptureSession) -> (s: String)
    ensures
        s@ == summary_rows_text(raw_views(session.raw_log@), session.registry@),
{
    let mut s = summary_row(session, ScanPhase::Baseline);
    push_char(&mut s, '\n');
    let t = summary_row(session, ScanPhase::Target);
    s.append(t.as_str());
    push_char(&mut s, '\n');
    let v = summary_row(session, ScanPhase::Verification);
    s.append(v.as_str());
    s
}


pub open spec fn last_seen_text(d: DeviceView) -> Seq<char> {
    match d.observations.latest() {
        Some(t) => t.text(),
        None => Seq::empty(),
    }
}

pub open spec fn properties_text(d: DeviceView) -> Seq<char> {
    match d.observations.last_observed() {
        Some(o) => o.properties_summary,
        None => Seq::empty(),
    }
}

pub open spec fn first_phase_label_text(d: DeviceView) -> Seq<char> {
    match d.observations.first_phase() {
        Some(p) => p.report_label_text(),
        None => Seq::empty(),
    }
}

pub open spec fn device_row_text(d: DeviceView) -> Seq<char> {
    "          <tr"@ + (if d.is_local_radio { " class=\"local\""@ } else { Seq::empty() }) + "><td>"@
        + (if d.is_local_radio { "<span class=\"pill tag\">Tagged radio</span>"@ } else { Seq::empty() })
        + "</td><td><strong>"@ + html_escape(d.name) + "</strong></td><td>"@ + kind_pill_text(d.kind)
        + "</td><td class=\"mono\">"@ + html_escape(d.address) + "</td><td>"@ + paired_html_text(
        d.is_paired,
    ) + "</td><td>"@ + html_escape(first_phase_label_text(d)) + "</td><td>"@ + phase_rssi_html_text(
        d,
        ScanPhase::Baseline,
    ) + "</td><td>"@ + phase_rssi_html_text(d, ScanPhase::Target) + "</td><td>"@
        + phase_rssi_html_text(d, ScanPhase::Verification) + "</td><td class=\"mono\">"@ + html_escape(
        d.device_id,
    ) + "</td><td>"@ + html_escape(last_seen_text(d)) + "</td><td class=\"muted small\">"@
        + html_escape(properties_text(d)) + "</td></tr>"@
}

fn latest_from(acc: Option<Timestamp>, o: &Option<PhaseObservation>) -> (r: Option<Timestamp>)
    ensures
        r == crate::registry::latest_of(acc, crate::registry::phase_view(*o)),
{
    match o {
        None => acc,
        Some(p) => match acc {
            None => Some(p.last_seen),
            Some(t) => if t.later_than(&p.last_seen) {
                Some(t)
            } else {
                Some(p.last_seen)
            },
        },
    }
}

/// The newest last-seen instant over all phases.
pub fn last_seen_of(device: &DeviceRecord) -> (r: Option<Timestamp>)
    ensures
        r == device@.observations.latest(),
{
    let a = latest_from(None, &device.observations.baseline);
    let b = latest_from(a, &device.observations.target);
    latest_from(b, &device.observations.verification)
}

pub(crate) fn last_seen_cell(device: &DeviceRecord) -> (s: String)
    ensures
        s@ == last_seen_text(device@),
{
    match last_seen_of(device) {
        Some(t) => t.format(),
        None => String::new(),
    }
}

pub(crate) fn properties_cell(device: &DeviceRecord) -> (s: String)
    ensures
        s@ == properties_text(device@),
{
    let o = if device.observations.verification.is_some() {
        &device.observations.verification
    } else if device.observations.target.is_some() {
        &device.observations.target
    } else {
        &device.observations.baseline
    };
    match o {
        Some(p) => p.properties_summary.clone(),
        None => String::new(),
    }
}

fn first_phase_label(device: &DeviceRecord) -> (s: &'static str)
    ensures
        s@ == first_phase_label_text(device@),
{
    match device.first_seen_phase() {
        Some(p) => p.report_label(),
        None => {
            proof {
                reveal_strlit("");
            }
            ""
        },
    }
}

#[verifier::rlimit(40)]
fn device_row(d: &DeviceRecord) -> (s: String)
    ensures
        s@ == device_row_text(d@),
{
    let mut s = String::new();
    s.append("          <tr");
    if d.is_local_radio {
        s.append(" class=\"local\"");
    }
    s.append("><td>");
    if d.is_local_radio {
        s.append("<span class=\"pill tag\">Tagged radio</span>");
    }
    s.append("</td><td><strong>");
    append_escaped_seq(&mut s, &d.name);
    s.append("</strong></td><td>");
    s.append(kind_pill(d.kind));
    s.append("</td><td class=\"mono\">");
    append_escaped_seq(&mut s, &d.address);
    s.append("</td><td>");
    s.append(paired_html(d.is_paired));
    s.append("</td><td>");
    append_escaped(&mut s, first_phase_label(d));
    s.append("</td><td>");
    let b = phase_rssi_html(d, ScanPhase::Baseline);
    s.append(b.as_str());
    s.append("</td><td>");
    let t = phase_rssi_html(d, ScanPhase::Target);
    s.append(t.as_str());
    s.append("</td><td>");
    let v = phase_rssi_html(d, ScanPhase::Verification);
    s.append(v.as_str());
    s.append("</td><td class=\"mono\">");
    append_escaped_seq(&mut s, &d.device_id);
    s.append("</td><td>");
    let last = last_seen_cell(d);
    append_escaped_seq(&mut s, &last);
    s.append("</td><td class=\"muted small\">");
    let props = properties_cell(d);
    append_escaped_seq(&mut s, &props);
    s.append("</td></tr>");
    proof {
        if d.is_local_radio {
            assert(s@ =~= device_row_text(d@));
        } else {
            assert(s@ =~= device_row_text(d@));
        }
    }
    s
}

pub open spec fn device_rows_text(rows: Seq<DeviceView>) -> Seq<char> {
    or_placeholder(
        join_lines(rows.map_values(|d: DeviceView| device_row_text(d))),
        "          <tr><td colspan=\"12\" class=\"muted\">No devices observed.</td></tr>"@,
    )
}

fn device_rows(session: &CaptureSession) -> (s: String)
    ensures
        s@ == device_rows_text(session.registry@),
{
    let devices = session.registry.devices();
    let ghost rows = session.registry@;
    let ghost items = rows.map_values(|d: DeviceView| device_row_text(d));
    let mut out = String::new();
    let mut i: usize = 0;
    assert(items.subrange(0, 0) =~= Seq::<Seq<char>>::empty());
    while i < devices.len()
        invariant
            0 <= i <= devices.len(),
            device_views(devices@) == rows,
            items == rows.map_values(|d: DeviceView| device_row_text(d)),
            out@ == join_lines(items.subrange(0, i as int)),
        decreases devices.len() - i,
    {
        proof {
            lemma_join_step(items, i as int);
        }
        if i > 0 {
            push_char(&mut out, '\n');
        }
        let row = device_row(devices[i]);
        assert(devices@[i as int]@ == rows[i as int]);
        out.append(row.as_str());
        i += 1;
    }
    assert(items.subrange(0, i as int) =~= items);
    if out.as_str().is_empty() {
        let mut p = String::new();
        p.append("          <tr><td colspan=\"12\" class=\"muted\">No devices observed.</td></tr>");
        p
    } else {
        out
    }
}

pub open spec fn raw_row_text(o: ObservationView, tag: Seq<char>) -> Seq<char> {
    let tagged = tag.len() > 0 && normalized_address(o.address) == tag;
    "          <tr><td>"@ + html_escape(o.observed_at.text()) + "</td><td>"@ + html_escape(
        o.phase.report_label_text(),
    ) + "</td><td>"@ + (if tagged { "<span class=\"pill tag\">Tagged radio</span>"@ } else { Seq::empty() })
        + "</td><td>"@ + html_escape(o.name) + "</td><td>"@ + kind_pill_text(o.kind)
        + "</td><td class=\"mono\">"@ + html_escape(o.address) + "</td><td>"@ + paired_html_text(
        o.is_paired,
    ) + "</td><td>"@ + rssi_html_text(o.rssi) + "</td><td class=\"mono\">"@ + html_escape(o.device_id)
        + "</td><td class=\"muted small\">"@ + html_escape(o.properties_summary) + "</td></tr>"@
}

#[verifier::rlimit(40)]
fn raw_row(obs: &RawObservation, tag: &Vec<char>) -> (s: String)
    ensures
        s@ == raw_row_text(obs@, tag@),
{
    let norm = normalize_address(obs.address.as_str());
    let norm_chars = chars_of(norm.as_str());
    let tagged = tag.len() > 0 && compare_chars(&norm_chars, tag) == Cmp::Equal;
    let mut s = String::new();
    s.append("          <tr><td>");
    let observed = obs.observed_at.format();
    append_escaped_seq(&mut s, &observed);
    s.append("</td><td>");
    append_escaped(&mut s, obs.phase.report_label());
    s.append("</td><td>");
    if tagged {
        s.append("<span class=\"pill tag\">Tagged radio</span>");
    }
    s.append("</td><td>");
    append_escaped_seq(&mut s, &obs.name);
    s.append("</td><td>");
    s.append(kind_pill(obs.kind));
    s.append("</td><td class=\"mono\">");
    append_escaped_seq(&mut s, &obs.address);
    s.append("</td><td>");
    s.append(paired_html(obs.is_paired));
    s.append("</td><td>");
    let rssi = rssi_html(obs.rssi);
    s.append(rssi.as_str());
    s.append("</td><td class=\"mono\">");
    append_escaped_seq(&mut s, &obs.device_id);
    s.append("</td><td class=\"muted small\">");
    append_escaped_seq(&mut s, &obs.properties_summary);
    s.append("</td></tr>");
    proof {
        if tagged {
            assert(s@ =~= raw_row_text(obs@, tag@));
        } else {
            assert(s@ =~= raw_row_text(obs@, tag@));
        }
    }
    s
}

pub open spec fn raw_rows_text(log: Seq<ObservationView>, tag: Seq<char>) -> Seq<char> {
    or_placeholder(
        join_lines(log.map_values(|o: ObservationView| raw_row_text(o, tag))),
        "          <tr><td colspan=\"10\" class=\"muted\">No raw observations recorded.</td></tr>"@,
    )
}

fn raw_rows(log: &Vec<RawObservation>, tag: &Vec<char>) -> (s: String)
    ensures
        s@ == raw_rows_text(raw_views(log@), tag@),
{
    let ghost items = raw_views(log@).map_values(|o: ObservationView| raw_row_text(o, tag@));
    let mut out = String::new();
    let mut i: usize = 0;
    assert(items.subrange(0, 0) =~= Seq::<Seq<char>>::empty());
    while i < log.len()
        invariant
            0 <= i <= log.len(),
            items == raw_views(log@).map_values(|o: ObservationView| raw_row_text(o, tag@)),
            out@ == join_lines(items.subrange(0, i as int)),
        decreases log.len() - i,
    {
        proof {
            lemma_join_step(items, i as int);
        }
        if i > 0 {
            push_char(&mut out, '\n');
        }
        let row = raw_row(&log[i], tag);
        out.append(row.as_str());
        i += 1;
    }
    assert(items.subrange(0, i as int) =~= items);
    if out.as_str().is_empty() {
        let mut p = String::new();
        p.append("          <tr><td colspan=\"10\" class=\"muted\">No raw observations recorded.</td></tr>");
        p
    } else {
        out
    }
}

// ---------------------------------------------------------------------------
// The document
// ---------------------------------------------------------------------------

pub open spec fn meta_item_text(label: Seq<char>, value: Seq<char>) -> Seq<char> {
    "        <div><dt>"@ + html_escape(label) + "</dt><dd>"@ + html_escape(value) + "</dd></div>"@
}

/// The tagged local radio as shown: its normalized address, or the raw text when it
/// does not normalize.
pub open spec fn tagged_radio_text(address: Seq<char>) -> Seq<char> {
    if normalized_address(address).len() == 0 {
        address
    } else {
        normalized_address(address)
    }
}

pub open spec fn meta_items_text(s: &CaptureSession) -> Seq<char> {
    meta_item_text("Scan date"@, s.metadata.date.text()) + seq!['\n'] + meta_item_text(
        "Scan reference"@,
        s.metadata.name@,
    ) + seq!['\n'] + meta_item_text("Target device reference"@, s.metadata.section@) + seq!['\n']
        + meta_item_text("User"@, s.metadata.user@) + seq!['\n'] + meta_item_text(
        "Computer name"@,
        s.host.computer_name@,
    ) + seq!['\n'] + meta_item_text("Tagged local radio"@, tagged_radio_text(s.host.address@))
        + seq!['\n'] + meta_item_text("Host adapter"@, s.host.name@ + seq![' '] + s.host.address@)
}

fn meta_item(label: &str, value: &String) -> (s: String)
    ensures
        s@ == meta_item_text(label@, value@),
{
    let mut s = String::new();
    s.append("        <div><dt>");
    append_escaped(&mut s, label);
    s.append("</dt><dd>");
    append_escaped_seq(&mut s, value);
    s.append("</dd></div>");
    s
}

pub fn tagged_radio(address: &str) -> (s: String)
    ensures
        s@ == tagged_radio_text(address@),
{
    let n = normalize_address(address);
    if n.as_str().is_empty() {
        String::from_str(address)
    } else {
        n
    }
}

#[verifier::rlimit(40)]
fn meta_items(session: &CaptureSession) -> (s: String)
    ensures
        s@ == meta_items_text(session),
{
    let date = session.metadata.date.format();
    let mut s = meta_item("Scan date", &date);
    push_char(&mut s, '\n');
    let a = meta_item("Scan reference", &session.metadata.name);
    s.append(a.as_str());
    push_char(&mut s, '\n');
    let b = meta_item("Target device reference", &session.metadata.section);
    s.append(b.as_str());
    push_char(&mut s, '\n');
    let c = meta_item("User", &session.metadata.user);
    s.append(c.as_str());
    push_char(&mut s, '\n');
    let d = meta_item("Computer name", &session.host.computer_name);
    s.append(d.as_str());
    push_char(&mut s, '\n');
    let tagged = tagged_radio(session.host.address.as_str());
    let e = meta_item("Tagged local radio", &tagged);
    s.append(e.as_str());
    push_char(&mut s, '\n');
    let mut adapter = session.host.name.clone();
    push_char(&mut adapter, ' ');
    adapter.append(session.host.address.as_str());
    assert(adapter@ =~= session.host.name@ + seq![' '] + session.host.address@);
    let f = meta_item("Host adapter", &adapter);
    s.append(f.as_str());
    assert(s@ =~= meta_items_text(session));
    s
}

/// The whole report for `s`, generated at `generated`.
pub open spec fn html_document(s: &CaptureSession, generated: Timestamp) -> Seq<char> {
    DOC_HEAD@ + STYLE@ + DOC_AFTER_STYLE@ + html_escape(generated.text()) + DOC_AFTER_GENERATED@
        + meta_items_text(s) + DOC_AFTER_META@ + phase_rows_text(s.phase_runs@) + DOC_AFTER_PHASE_RUNS@
        + summary_rows_text(raw_views(s.raw_log@), s.registry@) + DOC_AFTER_SUMMARY@ + device_rows_text(
        s.registry@,
    ) + DOC_AFTER_DEVICES@ + raw_rows_text(raw_views(s.raw_log@), normalized_address(s.host.address@))
        + DOC_TAIL@
}

/// Renders the session as a standalone HTML page, stamped with `generated_at`.
pub fn render_html(session: &CaptureSession, generated_at: Timestamp) -> (html: String)
    ensures
        html@ == html_document(session, generated_at),
{
    let mut out = String::new();
    out.append(DOC_HEAD);
    out.append(STYLE);
    out.append(DOC_AFTER_STYLE);
    let generated = generated_at.format();
    append_escaped_seq(&mut out, &generated);
    out.append(DOC_AFTER_GENERATED);
    let meta = meta_items(session);
    out.append(meta.as_str());
    out.append(DOC_AFTER_META);
    let runs = phase_rows(&session.phase_runs);
    out.append(runs.as_str());
    out.append(DOC_AFTER_PHASE_RUNS);
    let summary = summary_rows(session);
    out.append(summary.as_str());
    out.append(DOC_AFTER_SUMMARY);
    let devices = device_rows(session);
    out.append(devices.as_str());
    out.append(DOC_AFTER_DEVICES);
    let tag = normalize_address(session.host.address.as_str());
    let tag_chars = chars_of(tag.as_str());
    let raw = raw_rows(&session.raw_log, &tag_chars);
    out.append(raw.as_str());
    out.append(DOC_TAIL);
    out
}

/// Renders the session as a standalone HTML page, stamped with the current local time.
pub fn generate_html(session: &CaptureSession) -> (html: String)
    ensures
        exists|t: Timestamp| valid_clock_reading(t) && html@ == html_document(session, t),
{
    let now = Timestamp::now();
    render_html(session, now)
}

} // verus!
