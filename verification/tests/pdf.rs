use findbt::models::{CaseMetadata, DeviceKind, HostAdapterInfo, ScanPhase};
use findbt::pdf::{escape_pdf_text, max_chars, wrap_text};
use findbt::pdf_file::assemble_document;
use findbt::pdf_report::{build_pages, generate_pdf, render_pdf};
use findbt::registry::RawObservation;
use findbt::session::CaptureSession;
use findbt::time::{CaseDate, Timestamp};

fn fixture_session() -> CaptureSession {
    let mut session = CaptureSession::new(
        CaseMetadata {
            date: CaseDate::from_ymd(2026, 7, 3).unwrap(),
            name: "Alice & Bob (Case 12)".to_string(),
            section: "Lab \\ Section <A>".to_string(),
            user: "Operator One".to_string(),
        },
        HostAdapterInfo {
            name: "Host Radio".to_string(),
            address: "AA:BB:CC:DD:EE:FF".to_string(),
            computer_name: "LAB-PC-01".to_string(),
        },
    );
    session.record(RawObservation {
        device_id: "dev-target".to_string(),
        phase: ScanPhase::Target,
        name: "Target (Device)".to_string(),
        address: "11:22:33:44:55:66".to_string(),
        kind: DeviceKind::Ble,
        is_paired: false,
        rssi: Some(-42),
        properties_summary: "role=candidate".to_string(),
        observed_at: Timestamp::now(),
    });
    session
}

fn as_text(bytes: &[u8]) -> String {
    String::from_utf8_lossy(bytes).to_string()
}

#[test]
fn pdf_has_valid_header_trailer_and_content() {
    let pdf = generate_pdf(&fixture_session());
    let text = as_text(&pdf);

    assert!(text.starts_with("%PDF-1.4"));
    assert!(text.trim_end().ends_with("%%EOF"));
    assert!(text.contains("(FindBT Bluetooth Report)"));
    assert!(text.contains("Target \\(Device\\)"));
    assert!(text.contains("11:22:33:44:55:66"));
    assert!(text.contains("/Type /Catalog"));
    assert!(text.contains("/BaseFont /Helvetica"));
    // Table header band and page footer are present.
    assert!(text.contains("re f"));
    assert!(text.contains("(FindBT Bluetooth Report - page 1)"));
}

#[test]
fn pdf_startxref_points_at_xref_table() {
    let pdf = generate_pdf(&fixture_session());
    let text = as_text(&pdf);

    let startxref = text
        .rfind("startxref\n")
        .map(|index| index + "startxref\n".len())
        .expect("startxref keyword");
    let offset: usize = text[startxref..]
        .lines()
        .next()
        .expect("offset line")
        .trim()
        .parse()
        .expect("numeric xref offset");
    assert_eq!(&pdf[offset..offset + 4], b"xref");
}

#[test]
fn pdf_object_offsets_match_xref_entries() {
    let pdf = generate_pdf(&fixture_session());
    let text = as_text(&pdf);

    let xref_start = text.rfind("\nxref\n").expect("xref table") + 1;
    let entries: Vec<usize> = text[xref_start..]
        .lines()
        .skip(2) // "xref" and "0 N" lines
        .take_while(|line| line.ends_with("n ") || line.ends_with("f "))
        .skip(1) // free-object entry
        .map(|line| line[..10].parse::<usize>().expect("offset"))
        .collect();

    assert!(!entries.is_empty());
    for (index, offset) in entries.iter().enumerate() {
        let expected = format!("{} 0 obj", index + 1);
        assert_eq!(
            &pdf[*offset..*offset + expected.len()],
            expected.as_bytes(),
            "object {} offset mismatch",
            index + 1
        );
    }
}

#[test]
fn wrap_text_hard_splits_long_words() {
    // 40 pt wide at 8 pt: ten characters a line.
    let lines = wrap_text("Averylongunbrokenidentifierthatkeepsgoing", max_chars(400, 80));
    assert!(lines.len() > 1);
    assert!(lines.iter().all(|line| line.len() <= 10));
}

#[test]
fn escape_handles_delimiters_and_non_ascii() {
    assert_eq!(escape_pdf_text("a(b)c\\d"), "a\\(b\\)c\\\\d");
    assert_eq!(escape_pdf_text("café"), "caf?");
}

#[test]
fn wrap_width_is_two_characters_per_em() {
    assert_eq!(max_chars(400, 80), 10);
    assert_eq!(max_chars(7700, 85), 181);
    assert_eq!(max_chars(10, 80), 4);
    assert_eq!(max_chars(-5, 80), 4);
}

#[test]
fn wrap_text_packs_words_greedily() {
    let lines: Vec<String> = wrap_text("one two three four", 10)
        .into_iter()
        .map(|l| l.into_iter().collect())
        .collect();
    assert_eq!(lines, vec!["one two".to_string(), "three four".to_string()]);
    let empty = wrap_text("   ", 10);
    assert_eq!(empty.len(), 1);
    assert!(empty[0].is_empty());
}

#[test]
fn single_empty_page_file_is_exact() {
    let pages = vec![String::new()];
    let pdf = assemble_document(&pages);
    let text = as_text(&pdf);
    assert_eq!(&pdf[..15], b"%PDF-1.4\n%\xE2\xE3\xCF\xD3\n");
    assert!(text.contains("2 0 obj\n<< /Type /Pages /Kids [ 6 0 R ] /Count 1 >>\nendobj\n"));
    assert!(text.contains("5 0 obj\n<< /Length 0 >>\nstream\n\nendstream\nendobj\n"));
    assert!(text.contains("/Contents 5 0 R >>"));
    assert!(text.contains("xref\n0 7\n0000000000 65535 f \n0000000015 00000 n \n"));
    assert!(text.contains("trailer\n<< /Size 7 /Root 1 0 R >>\nstartxref\n"));
    assert!(text.ends_with("\n%%EOF\n"));
}

#[test]
fn content_length_counts_bytes() {
    let pages = vec!["é".to_string(), "ab".to_string()];
    let text = as_text(&assemble_document(&pages));
    assert!(text.contains("<< /Length 2 >>\nstream\né\nendstream"));
    assert!(text.contains("/Kids [ 6 0 R 8 0 R ] /Count 2"));
    assert!(text.contains("/Contents 7 0 R >>"));
}

#[test]
fn rendering_is_a_function_of_session_and_time() {
    let session = fixture_session();
    let at = Timestamp { unix_seconds: 1_780_000_000, nanos: 0, offset_seconds: 0 };
    let a = render_pdf(&session, at);
    let b = render_pdf(&session, at);
    assert_eq!(a, b);
    let pages = build_pages(&session, at);
    assert_eq!(assemble_document(&pages), a);
    let text = as_text(&a);
    assert!(text.contains("(Generated: 2026-05-28"));
    assert!(text.contains("(Scan date: 2026-07-03)"));
    assert!(text.contains("(Scan reference: Alice & Bob \\(Case 12\\))"));
    assert!(text.contains("(Target device reference: Lab \\\\ Section <A>)"));
    assert!(text.contains("(Tagged local radio: AABBCCDDEEFF)"));
    assert!(text.contains("(No phase runs recorded.)"));
}

#[test]
fn pdf_bytes_after_the_header_are_ascii() {
    let mut session = fixture_session();
    session.record(RawObservation {
        device_id: "dev-accent".to_string(),
        phase: ScanPhase::Baseline,
        name: "Café ☕ Beacon".to_string(),
        address: "66:55:44:33:22:11".to_string(),
        kind: DeviceKind::Classic,
        is_paired: true,
        rssi: None,
        properties_summary: "naïve=ü".to_string(),
        observed_at: Timestamp { unix_seconds: 1_780_000_000, nanos: 0, offset_seconds: 3600 },
    });
    let pdf = render_pdf(&session, Timestamp { unix_seconds: 1_780_000_100, nanos: 0, offset_seconds: 0 });
    assert_eq!(&pdf[..15], b"%PDF-1.4\n%\xE2\xE3\xCF\xD3\n");
    assert!(pdf[15..].iter().all(|b| *b < 128));
    assert!(as_text(&pdf).contains("Caf? ? Beacon"));
}

#[test]
fn wrapping_keeps_every_word_and_trims_line_edges() {
    let text = "  alpha  beta\tgamma delta epsilonzetaetatheta  ";
    let lines: Vec<String> = wrap_text(text, 11).into_iter().map(|l| l.into_iter().collect()).collect();
    let joined: String = lines.concat().chars().filter(|c| *c != ' ').collect();
    assert_eq!(joined, "alphabetagammadeltaepsilonzetaetatheta");
    for line in &lines {
        assert!(!line.is_empty());
        assert!(!line.starts_with(' ') && !line.ends_with(' '));
        assert!(line.chars().count() <= 11);
    }
}

#[test]
fn pdf_objects_count_pages_and_frame_each_stream() {
    let pages = vec!["BT (one) Tj ET".to_string(), "é".to_string()];
    let pdf = assemble_document(&pages);
    let text = as_text(&pdf);
    assert!(text.contains("2 0 obj\n<< /Type /Pages /Kids [ 6 0 R 8 0 R ] /Count 2 >>\nendobj\n"));
    assert!(text.contains("5 0 obj\n<< /Length 14 >>\nstream\nBT (one) Tj ET\nendstream\nendobj\n"));
    assert!(text.contains("7 0 obj\n<< /Length 2 >>\nstream\né\nendstream\nendobj\n"));
    assert!(text.contains("6 0 obj\n<< /Type /Page /Parent 2 0 R"));
    assert!(text.contains("/Contents 5 0 R >>\nendobj\n7 0 obj\n"));
    assert!(text.contains("/Contents 7 0 R >>\nendobj\nxref\n0 9\n"));
    assert!(!text.contains("9 0 obj"));
}
