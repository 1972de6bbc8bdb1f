use findbt::models::{normalize_address, DeviceKind, ScanPhase, SignalStrength};
use findbt::time::{CaseDate, Timestamp};

#[test]
fn normalize_address_keeps_exactly_twelve_hex_digits() {
    assert_eq!(normalize_address("aa:bb:cc:dd:ee:ff"), "AABBCCDDEEFF");
    assert_eq!(normalize_address("AA-BB-CC-DD-EE-FF"), "AABBCCDDEEFF");
    assert_eq!(normalize_address("Office"), "");
    assert_eq!(normalize_address("AA:BB:CC:DD:EE"), "");
    assert_eq!(normalize_address(&normalize_address("01:23:45:67:89:ab")), "0123456789AB");
}

#[test]
fn phases_run_in_order() {
    assert_eq!(ScanPhase::Baseline.next(), Some(ScanPhase::Target));
    assert_eq!(ScanPhase::Target.next(), Some(ScanPhase::Verification));
    assert_eq!(ScanPhase::Verification.next(), None);
    assert_eq!(ScanPhase::Target.number(), 2);
    assert_eq!(ScanPhase::Verification.tab_title(), "Verification Scan");
    assert_eq!(DeviceKind::Classic.label(), "Classic");
}

#[test]
fn signal_buckets_follow_thresholds() {
    assert_eq!(SignalStrength::from_rssi(Some(-55)), SignalStrength::Strong);
    assert_eq!(SignalStrength::from_rssi(Some(-56)), SignalStrength::Medium);
    assert_eq!(SignalStrength::from_rssi(Some(-70)), SignalStrength::Medium);
    assert_eq!(SignalStrength::from_rssi(Some(-71)), SignalStrength::Weak);
    assert_eq!(SignalStrength::from_rssi(None), SignalStrength::Unknown);
    assert_eq!(SignalStrength::Strong.bars(), 4);
    assert_eq!(SignalStrength::Weak.bars(), 1);
}

#[test]
fn clock_readings_are_in_range() {
    let now = findbt::time::Timestamp::now();
    assert!(now.nanos < 2_000_000_000);
    assert!(-86_400 < now.offset_seconds && now.offset_seconds < 86_400);
}

#[test]
fn calendar_dates_count_days_from_the_common_era() {
    assert_eq!(CaseDate::from_ymd(1970, 1, 1).unwrap().days_from_ce, 719_163);
    assert_eq!(CaseDate::from_ymd(2026, 7, 3).unwrap().days_from_ce, 739_800);
    assert_eq!(CaseDate::from_ymd(2024, 2, 29).unwrap().days_from_ce, 738_945);
    assert_eq!(CaseDate::from_ymd(0, 1, 1).unwrap().days_from_ce, -365);
    assert!(CaseDate::from_ymd(2023, 2, 29).is_none());
    assert!(CaseDate::from_ymd(2026, 13, 1).is_none());
    assert!(CaseDate::from_ymd(2026, 4, 31).is_none());
    assert!(CaseDate::from_ymd(2026, 1, 0).is_none());
    assert!(CaseDate::from_ymd(262_142, 12, 31).is_some());
    assert!(CaseDate::from_ymd(262_143, 1, 1).is_none());
    assert!(CaseDate::from_ymd(-262_143, 1, 1).is_some());
    assert!(CaseDate::from_ymd(-262_144, 12, 31).is_none());
}

#[test]
fn calendar_dates_render_as_iso_text() {
    assert_eq!(CaseDate { days_from_ce: 739_800 }.format(), "2026-07-03");
    assert_eq!(CaseDate { days_from_ce: 1 }.format(), "0001-01-01");
    assert_eq!(CaseDate { days_from_ce: 0 }.format(), "0000-12-31");
    assert_eq!(CaseDate::from_ymd(-1, 3, 9).unwrap().format(), "-0001-03-09");
    assert_eq!(CaseDate::from_ymd(10_000, 1, 1).unwrap().format(), "+10000-01-01");
    assert_eq!(CaseDate { days_from_ce: i32::MAX }.format(), "");
}

fn local_day(unix_seconds: i64, nanos: u32, offset_seconds: i32) -> Option<i32> {
    Timestamp { unix_seconds, nanos, offset_seconds }.local_date().map(|d| d.days_from_ce)
}

#[test]
fn local_dates_follow_the_offset_and_chrono_range() {
    assert_eq!(local_day(0, 0, 0), Some(719_163));
    assert_eq!(local_day(-1, 0, 0), Some(719_162));
    assert_eq!(local_day(0, 0, -1), Some(719_162));
    assert_eq!(local_day(86_399, 0, 3_600), Some(719_164));
    assert_eq!(local_day(86_399, 0, -86_399), Some(719_163));
    assert_eq!(local_day(59, 1_500_000_000, 0), Some(719_163));
    assert_eq!(local_day(58, 1_500_000_000, 0), None);
    assert_eq!(local_day(59, 2_000_000_000, 0), None);
    assert_eq!(local_day(0, 0, 86_400), None);
    assert_eq!(local_day(0, 0, -86_400), None);
    assert_eq!(local_day(8_210_266_875_000, 0, 0), Some(95_745_399));
    assert_eq!(local_day(8_210_266_875_000, 0, 3_600), None);
    assert_eq!(local_day(-8_334_601_228_800, 0, 0), Some(-95_746_129));
    assert_eq!(local_day(-8_334_601_228_800, 0, -1), None);
    assert_eq!(local_day(-8_334_601_228_801, 0, 0), None);
    assert_eq!(local_day(i64::MAX, 0, 0), None);
    assert_eq!(local_day(i64::MIN, 0, 0), None);
}

fn between(end: (i64, u32), start: (i64, u32)) -> Option<i64> {
    let e = Timestamp { unix_seconds: end.0, nanos: end.1, offset_seconds: 0 };
    let s = Timestamp { unix_seconds: start.0, nanos: start.1, offset_seconds: 3_600 };
    e.seconds_since(&s)
}

#[test]
fn seconds_between_instants_truncate_toward_zero() {
    assert_eq!(between((10, 0), (0, 0)), Some(10));
    assert_eq!(between((10, 0), (0, 999_999_999)), Some(9));
    assert_eq!(between((0, 0), (10, 500_000_000)), Some(-10));
    assert_eq!(between((0, 0), (10, 0)), Some(-10));
    assert_eq!(between((60, 0), (59, 1_500_000_000)), Some(0));
    assert_eq!(between((59, 1_500_000_000), (0, 0)), Some(60));
    assert_eq!(between((59, 1_500_000_000), (60, 0)), Some(0));
    assert_eq!(between((172_810, 0), (86_399, 1_200_000_000)), Some(86_409));
    assert_eq!(between((58, 1_500_000_000), (0, 0)), None);
    assert_eq!(between((0, 0), (i64::MAX, 0)), None);
    assert_eq!(between((8_210_266_875_000, 0), (-8_334_601_228_800, 0)), Some(16_544_868_103_800));
}
