use findbt::models::HostAdapterInfo;
use findbt::text::trim;
use findbt::time::CaseDate;
use findbt::wizard::{WizardAction, WizardState};

fn host(computer_name: &str) -> HostAdapterInfo {
    HostAdapterInfo { name: " Host Radio ".to_string(), address: " AA:BB:CC:DD:EE:FF ".to_string(), computer_name: computer_name.to_string() }
}

#[test]
fn computer_name_falls_back_to_the_detected_one() {
    let w = WizardState::with_date(host("  "), "2026-07-03".to_string(), "  LAB-PC-01\n");
    assert_eq!(w.computer_name, "LAB-PC-01");
    let w = WizardState::with_date(host("BENCH"), "2026-07-03".to_string(), "LAB-PC-01");
    assert_eq!(w.computer_name, "BENCH");
    assert_eq!(w.host_name, " Host Radio ");
    assert!(w.name.is_empty() && w.section.is_empty() && w.user.is_empty());
}

#[test]
fn new_wizard_is_dated_today() {
    let w = WizardState::new(host(""), "PC");
    assert!(CaseDate::parse(&w.date).is_some());
    assert_eq!(w.computer_name, "PC");
}

#[test]
fn begin_needs_a_date_and_both_references() {
    let mut w = WizardState::with_date(host("PC"), "2026-07-03".to_string(), "");
    assert!(!w.can_begin());
    assert!(matches!(w.begin(), WizardAction::Idle));
    w.name = "  Case 12 ".to_string();
    assert!(!w.can_begin());
    w.section = "Lab".to_string();
    assert!(w.can_begin());
    w.date = "03/07/2026".to_string();
    assert!(!w.can_begin());
    assert!(w.metadata().is_none());
    w.date = " 2026-07-03 ".to_string();
    match w.begin() {
        WizardAction::Begin { metadata, host } => {
            assert_eq!(metadata.date, CaseDate::from_ymd(2026, 7, 3).unwrap());
            assert_eq!(metadata.name, "Case 12");
            assert_eq!(metadata.section, "Lab");
            assert_eq!(metadata.user, "");
            assert_eq!(host.name, "Host Radio");
            assert_eq!(host.address, "AA:BB:CC:DD:EE:FF");
            assert_eq!(host.computer_name, "PC");
        }
        WizardAction::Idle => panic!("expected to begin"),
    }
}

#[test]
fn trim_removes_unicode_whitespace_at_both_ends() {
    assert_eq!(trim("  a b \t"), "a b");
    assert_eq!(trim("\u{3000}x\u{a0}"), "x");
    assert_eq!(trim(" \n "), "");
    assert_eq!(trim("x"), "x");
}
