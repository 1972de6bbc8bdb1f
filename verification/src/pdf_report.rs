//! The PDF report's content: the same sections as the HTML report, laid out as
//! headings, paragraphs, notes and tables.

use vstd::prelude::*;
use crate::models::{ScanPhase, ScanPhaseRun};
use crate::pdf::{
    cell_views, drawn, heading_spec, int_widths, into_pages_spec, layout_start, layout_wf, note_spec, paragraph_spec,
    row_views, spacer_spec, table_spec, widths_ok, LayoutView, PdfLayout, META_SIZE,
};
use crate::registry::{device_views, first_seen_rows, rows_new_in, rows_seen_in, DeviceRecord, DeviceView, ObservationView, RawObservation};
use crate::report::{
    count_in_phase, distinct_count, duration_cell, duration_cell_text, format_rssi, format_rssi_text, identities,
    identities_seen, lemma_summary_counts, log_in_phase,
    last_seen_cell, last_seen_text, properties_cell, properties_text, raw_count, raw_views, stopped_cell,
    stopped_text, tagged_radio, tagged_radio_text, unique_identities,
};
use crate::pdf_file::{assemble_document, pdf_document};
use crate::session::CaptureSession;
use crate::text::{dec, push_dec};
use crate::time::{valid_clock_reading, Timestamp};

verus! {

pub const NOTE_PHASE_RUNS: &'static str = "Every start and stop of each scan phase, as recorded during the capture.";
pub const NOTE_NEWLY_SEEN: &'static str = "\"Newly seen\" means the first phase where that device appears in the registry. The report does not compute or highlight a match; it only renders the observed phase data.";
pub const NOTE_REGISTRY: &'static str = "One row per device, tracked across all three phases.";
pub const NOTE_TAGGED: &'static str = "Devices matching the tagged local radio address are prefixed with \"(tagged radio)\".";
pub const NOTE_RAW_LOG: &'static str = "Append-only capture log. Every backend observation is listed, unfiltered.";

pub open spec fn yes_no_text(b: bool) -> Seq<char> {
    if b {
        "Yes"@
    } else {
        "No"@
    }
}

pub open spec fn phase_number_text(p: ScanPhase) -> Seq<char> {
    "Phase "@ + dec(p.rank())
}

pub open spec fn run_row(run: ScanPhaseRun) -> Seq<Seq<char>> {
    seq![run.phase.report_label_text(), run.started_at.text(), stopped_text(run), duration_cell_text(run), run.stop_reason@]
}

pub open spec fn summary_row(log: Seq<ObservationView>, rows: Seq<DeviceView>, p: ScanPhase) -> Seq<Seq<char>> {
    seq![
        p.report_label_text(),
        p.operator_instruction_text(),
        dec(count_in_phase(log, p)),
        dec(distinct_count(identities(rows_seen_in(rows, p)))),
        dec(rows_new_in(rows, p).len()),
    ]
}

/// The PDF summary row's count cells, under the headers "Raw obs.", "Unique addr." and
/// "Newly seen": the observations logged in the phase, the distinct identities among the
/// devices seen in it, and the number of registry rows whose first sighting was in it (a
/// device already seen in an earlier phase is not counted).
pub proof fn law_pdf_summary_counts(log: Seq<ObservationView>, rows: Seq<DeviceView>, p: ScanPhase)
    ensures
        summary_row(log, rows, p).len() == summary_headers().len(),
        summary_headers()[2] == "Raw obs."@,
        summary_headers()[3] == "Unique addr."@,
        summary_headers()[4] == "Newly seen"@,
        summary_row(log, rows, p)[2] == dec(log_in_phase(log, p).len()),
        summary_row(log, rows, p)[3] == dec(identities_seen(rows, p).len()),
        summary_row(log, rows, p)[4] == dec(first_seen_rows(rows, p).len()),
{
    lemma_summary_counts(log, rows, p);
}

pub open spec fn rssi_cell_text(d: DeviceView, p: ScanPhase) -> Seq<char> {
    match d.observations.at(p) {
        Some(o) => format_rssi_text(o.rssi),
        None => "not seen"@,
    }
}

pub open spec fn registry_row(d: DeviceView) -> Seq<Seq<char>> {
    seq![
        if d.is_local_radio { "(tagged radio) "@ + d.name } else { d.name },
        d.kind.label_text(),
        d.address,
        yes_no_text(d.is_paired),
        match d.observations.first_phase() {
            Some(p) => phase_number_text(p),
            None => Seq::empty(),
        },
        rssi_cell_text(d, ScanPhase::Baseline),
        rssi_cell_text(d, ScanPhase::Target),
        rssi_cell_text(d, ScanPhase::Verification),
        d.device_id,
        last_seen_text(d),
        properties_text(d),
    ]
}

pub open spec fn raw_row(o: ObservationView) -> Seq<Seq<char>> {
    seq![
        o.observed_at.text(),
        phase_number_text(o.phase),
        o.name,
        o.kind.label_text(),
        o.address,
        yes_no_text(o.is_paired),
        format_rssi_text(o.rssi),
        o.device_id,
        o.properties_summary,
    ]
}

/// An empty table body becomes a single row holding the placeholder and blank cells.
pub open spec fn non_empty(rows: Seq<Seq<Seq<char>>>, placeholder: Seq<char>, columns: nat) -> Seq<Seq<Seq<char>>> {
    if rows.len() == 0 {
        seq![seq![placeholder] + Seq::new((columns - 1) as nat, |_i: int| Seq::<char>::empty())]
    } else {
        rows
    }
}

pub open spec fn meta_lines(s: &CaptureSession, generated: Timestamp) -> Seq<Seq<char>> {
    seq![
        "Generated: "@ + generated.text(),
        "Scan date: "@ + s.metadata.date.text(),
        "Scan reference: "@ + s.metadata.name@,
        "Target device reference: "@ + s.metadata.section@,
        "User: "@ + s.metadata.user@,
        "Computer name: "@ + s.host.computer_name@,
        "Tagged local radio: "@ + tagged_radio_text(s.host.address@),
        "Host adapter: "@ + s.host.name@ + " "@ + s.host.address@,
    ]
}

pub open spec fn run_headers() -> Seq<Seq<char>> {
    seq!["Phase"@, "Started"@, "Stopped"@, "Duration"@, "Stop reason"@]
}

pub open spec fn run_widths() -> Seq<int> {
    seq![2500, 1350, 1350, 800, 1700]
}

pub open spec fn summary_headers() -> Seq<Seq<char>> {
    seq!["Phase"@, "Purpose"@, "Raw obs."@, "Unique addr."@, "Newly seen"@]
}

pub open spec fn summary_widths() -> Seq<int> {
    seq![2500, 3200, 600, 700, 700]
}

pub open spec fn registry_headers() -> Seq<Seq<char>> {
    seq![
        "Name"@,
        "Kind"@,
        "Address"@,
        "Paired"@,
        "First phase"@,
        "Baseline"@,
        "Target"@,
        "Confirmation"@,
        "Device id"@,
        "Last seen"@,
        "Properties"@,
    ]
}

pub open spec fn registry_widths() -> Seq<int> {
    seq![1050, 380, 900, 360, 640, 600, 600, 600, 920, 740, 910]
}

pub open spec fn raw_headers() -> Seq<Seq<char>> {
    seq!["Observed"@, "Phase"@, "Name"@, "Kind"@, "Address"@, "Paired"@, "RSSI"@, "Device id"@, "Properties"@]
}

pub open spec fn raw_widths() -> Seq<int> {
    seq![920, 460, 1000, 380, 900, 360, 740, 1200, 1740]
}

pub open spec fn paragraphs_spec(st: LayoutView, lines: Seq<Seq<char>>, size: int) -> LayoutView
    decreases lines.len(),
{
    if lines.len() == 0 {
        st
    } else {
        paragraph_spec(paragraphs_spec(st, lines.drop_last(), size), lines.last(), size)
    }
}

pub open spec fn title_section(st: LayoutView, s: &CaptureSession, generated: Timestamp) -> LayoutView {
    paragraphs_spec(
        spacer_spec(heading_spec(st, "FindBT Bluetooth Report"@, 160), 20),
        meta_lines(s, generated),
        META_SIZE as int,
    )
}

pub open spec fn runs_section(st: LayoutView, runs: Seq<ScanPhaseRun>) -> LayoutView {
    table_spec(
        spacer_spec(note_spec(heading_spec(st, "Phase runs"@, 120), NOTE_PHASE_RUNS@), 40),
        run_headers(),
        run_widths(),
        non_empty(runs.map_values(|r: ScanPhaseRun| run_row(r)), "No phase runs recorded."@, 5),
    )
}

pub open spec fn summary_section(st: LayoutView, log: Seq<ObservationView>, rows: Seq<DeviceView>) -> LayoutView {
    note_spec(
        table_spec(
            heading_spec(st, "Phase summary"@, 120),
            summary_headers(),
            summary_widths(),
            seq![
                summary_row(log, rows, ScanPhase::Baseline),
                summary_row(log, rows, ScanPhase::Target),
                summary_row(log, rows, ScanPhase::Verification),
            ],
        ),
        NOTE_NEWLY_SEEN@,
    )
}

pub open spec fn registry_section(st: LayoutView, rows: Seq<DeviceView>) -> LayoutView {
    note_spec(
        table_spec(
            spacer_spec(note_spec(heading_spec(st, "Device registry"@, 120), NOTE_REGISTRY@), 40),
            registry_headers(),
            registry_widths(),
            non_empty(rows.map_values(|d: DeviceView| registry_row(d)), "No devices observed."@, 11),
        ),
        NOTE_TAGGED@,
    )
}

pub open spec fn raw_section(st: LayoutView, log: Seq<ObservationView>) -> LayoutView {
    table_spec(
        spacer_spec(note_spec(heading_spec(st, "Raw audit log"@, 120), NOTE_RAW_LOG@), 40),
        raw_headers(),
        raw_widths(),
        non_empty(log.map_values(|o: ObservationView| raw_row(o)), "No raw observations recorded."@, 9),
    )
}

/// The report's pages: title and metadata, phase runs, phase summary, device registry and
/// raw audit log, in that order.
pub open spec fn report_pages(s: &CaptureSession, generated: Timestamp) -> Seq<Seq<char>> {
    let log = raw_views(s.raw_log@);
    let rows = s.registry@;
    let st1 = title_section(layout_start(), s, generated);
    let st2 = runs_section(st1, s.phase_runs@);
    let st3 = summary_section(st2, log, rows);
    let st4 = registry_section(st3, rows);
    into_pages_spec(raw_section(st4, log))
}

fn strings(items: &Vec<&str>) -> (v: Vec<String>)
    ensures
        cell_views(v@) == items@.map_values(|s: &str| s@),
{
    let mut v: Vec<String> = Vec::new();
    let mut i: usize = 0;
    while i < items.len()
        invariant
            i <= items.len(),
            v@.len() == i,
            forall|j: int| 0 <= j < i ==> #[trigger] v@[j]@ == items@[j]@,
        decreases items.len() - i,
    {
        v.push(String::from_str(items[i]));
        i += 1;
    }
    assert(cell_views(v@) =~= items@.map_values(|s: &str| s@));
    v
}

fn yes_no(b: bool) -> (s: String)
    ensures
        s@ == yes_no_text(b),
{
    if b {
        String::from_str("Yes")
    } else {
        String::from_str("No")
    }
}

fn phase_number(p: ScanPhase) -> (s: String)
    ensures
        s@ == phase_number_text(p),
{
    let mut s = String::from_str("Phase ");
    push_dec(&mut s, p.number() as u64);
    s
}

fn text_of(prefix: &str, value: &str) -> (s: String)
    ensures
        s@ == prefix@ + value@,
{
    let mut s = String::from_str(prefix);
    s.append(value);
    s
}

fn pdf_run_row(run: &ScanPhaseRun) -> (r: Vec<String>)
    ensures
        cell_views(r@) == run_row(*run),
{
    let mut r: Vec<String> = Vec::new();
    r.push(String::from_str(run.phase.report_label()));
    r.push(run.started_at.format());
    r.push(stopped_cell(run));
    r.push(duration_cell(run));
    r.push(run.stop_reason.clone());
    assert(cell_views(r@) =~= run_row(*run));
    r
}

fn pdf_summary_row(session: &CaptureSession, p: ScanPhase) -> (r: Vec<String>)
    ensures
        cell_views(r@) == summary_row(raw_views(session.raw_log@), session.registry@, p),
{
    let raw = raw_count(&session.raw_log, p);
    let observed = session.registry.observed_in(p);
    let unique = unique_identities(&observed);
    let newly = session.registry.newly_seen_in(p);
    assert(device_views(newly@).len() == newly@.len());
    let mut a = String::new();
    push_dec(&mut a, raw);
    let mut b = String::new();
    push_dec(&mut b, unique);
    let mut c = String::new();
    push_dec(&mut c, newly.len() as u64);
    let mut r: Vec<String> = Vec::new();
    r.push(String::from_str(p.report_label()));
    r.push(String::from_str(p.operator_instruction()));
    r.push(a);
    r.push(b);
    r.push(c);
    assert(cell_views(r@) =~= summary_row(raw_views(session.raw_log@), session.registry@, p));
    r
}

fn rssi_cell(d: &DeviceRecord, p: ScanPhase) -> (s: String)
    ensures
        s@ == rssi_cell_text(d@, p),
{
    match d.seen_in(p) {
        Some(o) => format_rssi(o.rssi),
        None => String::from_str("not seen"),
    }
}

fn pdf_registry_row(d: &DeviceRecord) -> (r: Vec<String>)
    ensures
        cell_views(r@) == registry_row(d@),
{
    let name = if d.is_local_radio {
        text_of("(tagged radio) ", d.name.as_str())
    } else {
        d.name.clone()
    };
    let first = match d.first_seen_phase() {
        Some(p) => phase_number(p),
        None => String::new(),
    };
    let mut r: Vec<String> = Vec::new();
    r.push(name);
    r.push(String::from_str(d.kind.label()));
    r.push(d.address.clone());
    r.push(yes_no(d.is_paired));
    r.push(first);
    r.push(rssi_cell(d, ScanPhase::Baseline));
    r.push(rssi_cell(d, ScanPhase::Target));
    r.push(rssi_cell(d, ScanPhase::Verification));
    r.push(d.device_id.clone());
    r.push(last_seen_cell(d));
    r.push(properties_cell(d));
    assert(cell_views(r@) =~= registry_row(d@));
    r
}

fn pdf_raw_row(o: &RawObservation) -> (r: Vec<String>)
    ensures
        cell_views(r@) == raw_row(o@),
{
    let mut r: Vec<String> = Vec::new();
    r.push(o.observed_at.format());
    r.push(phase_number(o.phase));
    r.push(o.name.clone());
    r.push(String::from_str(o.kind.label()));
    r.push(o.address.clone());
    r.push(yes_no(o.is_paired));
    r.push(format_rssi(o.rssi));
    r.push(o.device_id.clone());
    r.push(o.properties_summary.clone());
    assert(cell_views(r@) =~= raw_row(o@));
    r
}

/// Replaces an empty row set with a single placeholder row of `columns` cells.
fn non_empty_rows(rows: Vec<Vec<String>>, placeholder: &str, columns: usize) -> (r: Vec<Vec<String>>)
    requires
        columns >= 1,
    ensures
        row_views(r@) == non_empty(row_views(rows@), placeholder@, columns as nat),
{
    if rows.len() == 0 {
        let mut row: Vec<String> = Vec::new();
        row.push(String::from_str(placeholder));
        let mut k: usize = 1;
        while k < columns
            invariant
                1 <= k <= columns,
                row@.len() == k,
                row@[0]@ == placeholder@,
                forall|j: int| 1 <= j < k ==> #[trigger] row@[j]@ == Seq::<char>::empty(),
            decreases columns - k,
        {
            row.push(String::new());
            k += 1;
        }
        assert(cell_views(row@) =~= seq![placeholder@] + Seq::new((columns - 1) as nat, |_i: int| Seq::<char>::empty()));
        let mut r: Vec<Vec<String>> = Vec::new();
        r.push(row);
        assert(row_views(r@) =~= non_empty(row_views(rows@), placeholder@, columns as nat));
        r
    } else {
        rows
    }
}

fn meta_strings(s: &CaptureSession, generated: Timestamp) -> (v: Vec<String>)
    ensures
        cell_views(v@) == meta_lines(s, generated),
{
    let mut v: Vec<String> = Vec::new();
    let g = generated.format();
    v.push(text_of("Generated: ", g.as_str()));
    let d = s.metadata.date.format();
    v.push(text_of("Scan date: ", d.as_str()));
    v.push(text_of("Scan reference: ", s.metadata.name.as_str()));
    v.push(text_of("Target device reference: ", s.metadata.section.as_str()));
    v.push(text_of("User: ", s.metadata.user.as_str()));
    v.push(text_of("Computer name: ", s.host.computer_name.as_str()));
    let t = tagged_radio(s.host.address.as_str());
    v.push(text_of("Tagged local radio: ", t.as_str()));
    let mut h = text_of("Host adapter: ", s.host.name.as_str());
    h.append(" ");
    h.append(s.host.address.as_str());
    v.push(h);
    assert(cell_views(v@) =~= meta_lines(s, generated));
    v
}

fn paragraphs(doc: &mut PdfLayout, lines: &Vec<String>, size: i128)
    requires
        layout_wf(old(doc)@),
        0 < size < 1000,
    ensures
        final(doc)@ == paragraphs_spec(old(doc)@, cell_views(lines@), size as int),
        layout_wf(final(doc)@),
        lines@.len() > 0 ==> drawn(final(doc)@),
{
    let ghost start = doc@;
    let mut i: usize = 0;
    while i < lines.len()
        invariant
            i <= lines.len(),
            0 < size < 1000,
            layout_wf(doc@),
            doc@ == paragraphs_spec(start, cell_views(lines@).subrange(0, i as int), size as int),
            i > 0 ==> drawn(doc@),
        decreases lines.len() - i,
    {
        doc.paragraph(lines[i].as_str(), size);
        proof {
            let done = cell_views(lines@).subrange(0, i + 1);
            assert(done.drop_last() =~= cell_views(lines@).subrange(0, i as int));
        }
        i += 1;
    }
    assert(cell_views(lines@).subrange(0, i as int) =~= cell_views(lines@));
}

fn run_rows(runs: &Vec<ScanPhaseRun>) -> (r: Vec<Vec<String>>)
    ensures
        row_views(r@) == runs@.map_values(|x: ScanPhaseRun| run_row(x)),
{
    let mut r: Vec<Vec<String>> = Vec::new();
    let mut i: usize = 0;
    while i < runs.len()
        invariant
            i <= runs.len(),
            r@.len() == i,
            forall|j: int| 0 <= j < i ==> cell_views(#[trigger] r@[j]@) == run_row(runs@[j]),
        decreases runs.len() - i,
    {
        r.push(pdf_run_row(&runs[i]));
        i += 1;
    }
    assert(row_views(r@) =~= runs@.map_values(|x: ScanPhaseRun| run_row(x)));
    r
}

fn registry_rows(devices: &Vec<&DeviceRecord>) -> (r: Vec<Vec<String>>)
    ensures
        row_views(r@) == device_views(devices@).map_values(|d: DeviceView| registry_row(d)),
{
    let mut r: Vec<Vec<String>> = Vec::new();
    let mut i: usize = 0;
    while i < devices.len()
        invariant
            i <= devices.len(),
            r@.len() == i,
            forall|j: int| 0 <= j < i ==> cell_views(#[trigger] r@[j]@) == registry_row(devices@[j]@),
        decreases devices.len() - i,
    {
        r.push(pdf_registry_row(devices[i]));
        i += 1;
    }
    assert(row_views(r@) =~= device_views(devices@).map_values(|d: DeviceView| registry_row(d)));
    r
}

fn raw_rows(log: &Vec<RawObservation>) -> (r: Vec<Vec<String>>)
    ensures
        row_views(r@) == raw_views(log@).map_values(|o: ObservationView| raw_row(o)),
{
    let mut r: Vec<Vec<String>> = Vec::new();
    let mut i: usize = 0;
    while i < log.len()
        invariant
            i <= log.len(),
            r@.len() == i,
            forall|j: int| 0 <= j < i ==> cell_views(#[trigger] r@[j]@) == raw_row(log@[j]@),
        decreases log.len() - i,
    {
        r.push(pdf_raw_row(&log[i]));
        i += 1;
    }
    assert(row_views(r@) =~= raw_views(log@).map_values(|o: ObservationView| raw_row(o)));
    r
}

fn title_part(doc: &mut PdfLayout, session: &CaptureSession, generated: Timestamp)
    requires
        layout_wf(old(doc)@),
    ensures
        final(doc)@ == title_section(old(doc)@, session, generated),
        layout_wf(final(doc)@),
{
    doc.heading("FindBT Bluetooth Report", 160);
    doc.spacer(20);
    let meta = meta_strings(session, generated);
    paragraphs(doc, &meta, META_SIZE);
}

fn runs_part(doc: &mut PdfLayout, runs: &Vec<ScanPhaseRun>)
    requires
        layout_wf(old(doc)@),
    ensures
        final(doc)@ == runs_section(old(doc)@, runs@),
        layout_wf(final(doc)@),
{
    doc.heading("Phase runs", 120);
    doc.note(NOTE_PHASE_RUNS);
    doc.spacer(40);
    let names: Vec<&str> = vec!["Phase", "Started", "Stopped", "Duration", "Stop reason"];
    let header = strings(&names);
    let widths: Vec<i128> = vec![2500, 1350, 1350, 800, 1700];
    let rows = non_empty_rows(run_rows(runs), "No phase runs recorded.", 5);
    assert(cell_views(header@) =~= run_headers());
    assert(int_widths(widths@) =~= run_widths());
    doc.table(&header, &widths, &rows);
}

fn summary_part(doc: &mut PdfLayout, session: &CaptureSession)
    requires
        layout_wf(old(doc)@),
    ensures
        final(doc)@ == summary_section(old(doc)@, raw_views(session.raw_log@), session.registry@),
        layout_wf(final(doc)@),
{
    let ghost log = raw_views(session.raw_log@);
    let ghost reg = session.registry@;
    doc.heading("Phase summary", 120);
    let names: Vec<&str> = vec!["Phase", "Purpose", "Raw obs.", "Unique addr.", "Newly seen"];
    let header = strings(&names);
    let widths: Vec<i128> = vec![2500, 3200, 600, 700, 700];
    let mut rows: Vec<Vec<String>> = Vec::new();
    rows.push(pdf_summary_row(session, ScanPhase::Baseline));
    rows.push(pdf_summary_row(session, ScanPhase::Target));
    rows.push(pdf_summary_row(session, ScanPhase::Verification));
    assert(cell_views(header@) =~= summary_headers());
    assert(int_widths(widths@) =~= summary_widths());
    assert(row_views(rows@) =~= seq![
        summary_row(log, reg, ScanPhase::Baseline),
        summary_row(log, reg, ScanPhase::Target),
        summary_row(log, reg, ScanPhase::Verification),
    ]);
    doc.table(&header, &widths, &rows);
    doc.note(NOTE_NEWLY_SEEN);
}

fn registry_part(doc: &mut PdfLayout, session: &CaptureSession)
    requires
        layout_wf(old(doc)@),
    ensures
        final(doc)@ == registry_section(old(doc)@, session.registry@),
        layout_wf(final(doc)@),
{
    doc.heading("Device registry", 120);
    doc.note(NOTE_REGISTRY);
    doc.spacer(40);
    let names: Vec<&str> = vec![
        "Name",
        "Kind",
        "Address",
        "Paired",
        "First phase",
        "Baseline",
        "Target",
        "Confirmation",
        "Device id",
        "Last seen",
        "Properties",
    ];
    let header = strings(&names);
    let widths: Vec<i128> = vec![1050, 380, 900, 360, 640, 600, 600, 600, 920, 740, 910];
    let devices = session.registry.devices();
    let rows = non_empty_rows(registry_rows(&devices), "No devices observed.", 11);
    assert(cell_views(header@) =~= registry_headers());
    assert(int_widths(widths@) =~= registry_widths());
    doc.table(&header, &widths, &rows);
    doc.note(NOTE_TAGGED);
}

fn raw_part(doc: &mut PdfLayout, log: &Vec<RawObservation>)
    requires
        layout_wf(old(doc)@),
    ensures
        final(doc)@ == raw_section(old(doc)@, raw_views(log@)),
        layout_wf(final(doc)@),
{
    doc.heading("Raw audit log", 120);
    doc.note(NOTE_RAW_LOG);
    doc.spacer(40);
    let names: Vec<&str> = vec!["Observed", "Phase", "Name", "Kind", "Address", "Paired", "RSSI", "Device id", "Properties"];
    let header = strings(&names);
    let widths: Vec<i128> = vec![920, 460, 1000, 380, 900, 360, 740, 1200, 1740];
    let rows = non_empty_rows(raw_rows(log), "No raw observations recorded.", 9);
    assert(cell_views(header@) =~= raw_headers());
    assert(int_widths(widths@) =~= raw_widths());
    doc.table(&header, &widths, &rows);
}

/// Lays the report out into page content streams, in the order of `report_pages`.
pub fn build_pages(session: &CaptureSession, generated: Timestamp) -> (pages: Vec<String>)
    ensures
        pages@.map_values(|p: String| p@) == report_pages(session, generated),
{
    let mut doc = PdfLayout::new();
    title_part(&mut doc, session, generated);
    runs_part(&mut doc, &session.phase_runs);
    summary_part(&mut doc, session);
    registry_part(&mut doc, session);
    raw_part(&mut doc, &session.raw_log);
    doc.into_pages()
}

/// Renders the session as a standalone PDF document generated at `generated`.
pub fn render_pdf(session: &CaptureSession, generated: Timestamp) -> (pdf: Vec<u8>)
    ensures
        pdf@ == pdf_document(report_pages(session, generated)),
{
    let pages = build_pages(session, generated);
    assemble_document(&pages)
}

/// Renders the session as a standalone PDF document, stamped with the current local time.
pub fn generate_pdf(session: &CaptureSession) -> (pdf: Vec<u8>)
    ensures
        exists|t: Timestamp| valid_clock_reading(t) && pdf@ == pdf_document(report_pages(session, t)),
{
    let now = Timestamp::now();
    render_pdf(session, now)
}

} // verus!
