//! The capture procedure's vocabulary: phases, device kinds, signal buckets,
//! case metadata, the host adapter, and Bluetooth address normalization.

use vstd::prelude::*;
use crate::text::{chars_of, is_blank, is_blank_seq, is_hex_digit, push_char, upper_char, upper_seq};
use crate::time::{seconds_between, CaseDate, Timestamp};

verus! {

/// The three-phase capture procedure: capture ambient devices, capture again with the target
/// powered on, then capture once more to see what is still present after it is powered off.
#[derive(Debug, Clone, Copy, PartialEq, Eq, Structural, PartialOrd, Ord, Hash)]
pub enum ScanPhase {
    Baseline,
    Target,
    Verification,
}

impl ScanPhase {
    /// The phase's position in the procedure, 1 to 3.
    pub open spec fn rank(self) -> nat {
        match self {
            ScanPhase::Baseline => 1,
            ScanPhase::Target => 2,
            ScanPhase::Verification => 3,
        }
    }

    pub open spec fn spec_next(self) -> Option<ScanPhase> {
        match self {
            ScanPhase::Baseline => Some(ScanPhase::Target),
            ScanPhase::Target => Some(ScanPhase::Verification),
            ScanPhase::Verification => None,
        }
    }

    /// The phases in procedure order.
    pub fn all() -> (v: [ScanPhase; 3])
        ensures
            v@ == seq![ScanPhase::Baseline, ScanPhase::Target, ScanPhase::Verification],
    {
        [ScanPhase::Baseline, ScanPhase::Target, ScanPhase::Verification]
    }

    pub fn number(self) -> (n: u8)
        ensures
            n as nat == self.rank(),
    {
        match self {
            ScanPhase::Baseline => 1,
            ScanPhase::Target => 2,
            ScanPhase::Verification => 3,
        }
    }

    pub fn next(self) -> (n: Option<ScanPhase>)
        ensures
            n == self.spec_next(),
    {
        match self {
            ScanPhase::Baseline => Some(ScanPhase::Target),
            ScanPhase::Target => Some(ScanPhase::Verification),
            ScanPhase::Verification => None,
        }
    }

    pub open spec fn tab_title_text(self) -> Seq<char> {
        match self {
            ScanPhase::Baseline => "Baseline Scan"@,
            ScanPhase::Target => "Target Scan"@,
            ScanPhase::Verification => "Verification Scan"@,
        }
    }

    /// Short title used for the sidebar phase tab and the report's phase column.
    pub fn tab_title(self) -> (s: &'static str)
        ensures
            s@ == self.tab_title_text(),
    {
        match self {
            ScanPhase::Baseline => "Baseline Scan",
            ScanPhase::Target => "Target Scan",
            ScanPhase::Verification => "Verification Scan",
        }
    }

    pub open spec fn report_label_text(self) -> Seq<char> {
        match self {
            ScanPhase::Baseline => "Phase 1 - Baseline (background before target activation)"@,
            ScanPhase::Target => "Phase 2 - Target activated"@,
            ScanPhase::Verification => "Phase 3 - Confirmation (background after target deactivation)"@,
        }
    }

    /// Longer label for report tables where a fuller phrase reads better.
    pub fn report_label(self) -> (s: &'static str)
        ensures
            s@ == self.report_label_text(),
    {
        match self {
            ScanPhase::Baseline => "Phase 1 - Baseline (background before target activation)",
            ScanPhase::Target => "Phase 2 - Target activated",
            ScanPhase::Verification => "Phase 3 - Confirmation (background after target deactivation)",
        }
    }

    pub open spec fn description_text(self) -> Seq<char> {
        match self {
            ScanPhase::Baseline => "Ensure the target Bluetooth device is powered off or not currently discoverable. Run the Baseline Scan to record the background Bluetooth environment. Ideally, this scan should reveal no devices. This confirms what devices, if any, are present before the target device is introduced for scanning."@,
            ScanPhase::Target => "Power on the target Bluetooth device or enable discoverable/pairing mode. Run the Target Scan. Ideally, this scan should capture the target Bluetooth device as the only observed device. On completion, power off the target Bluetooth device or disable discoverable/pairing mode."@,
            ScanPhase::Verification => "With the target Bluetooth device powered off or discoverable/pairing mode disabled, run the Confirmation Scan. This confirms that the background Bluetooth environment matches the Baseline Scan."@,
        }
    }

    /// Shown under the phase title in the main panel header.
    pub fn description(self) -> (s: &'static str)
        ensures
            s@ == self.description_text(),
    {
        match self {
            ScanPhase::Baseline => "Ensure the target Bluetooth device is powered off or not currently discoverable. Run the Baseline Scan to record the background Bluetooth environment. Ideally, this scan should reveal no devices. This confirms what devices, if any, are present before the target device is introduced for scanning.",
            ScanPhase::Target => "Power on the target Bluetooth device or enable discoverable/pairing mode. Run the Target Scan. Ideally, this scan should capture the target Bluetooth device as the only observed device. On completion, power off the target Bluetooth device or disable discoverable/pairing mode.",
            ScanPhase::Verification => "With the target Bluetooth device powered off or discoverable/pairing mode disabled, run the Confirmation Scan. This confirms that the background Bluetooth environment matches the Baseline Scan.",
        }
    }

    pub open spec fn operator_instruction_text(self) -> Seq<char> {
        match self {
            ScanPhase::Baseline => "Instruction: ensure the target Bluetooth device is powered off or not currently discoverable. Run the Baseline Scan to record the background Bluetooth environment. Ideally, this scan should reveal no devices. This confirms what devices, if any, are present before the target device is introduced for scanning."@,
            ScanPhase::Target => "Instruction: power on the target Bluetooth device or enable discoverable/pairing mode. Run the Target Scan. Ideally, this scan should capture the target Bluetooth device as the only observed device. On completion, power off the target Bluetooth device or disable discoverable/pairing mode."@,
            ScanPhase::Verification => "Instruction: with the target Bluetooth device powered off or discoverable/pairing mode disabled, run the Confirmation Scan. This confirms that the background Bluetooth environment matches the Baseline Scan."@,
        }
    }

    /// Operator instruction used in the report's phase summary.
    pub fn operator_instruction(self) -> (s: &'static str)
        ensures
            s@ == self.operator_instruction_text(),
    {
        match self {
            ScanPhase::Baseline => "Instruction: ensure the target Bluetooth device is powered off or not currently discoverable. Run the Baseline Scan to record the background Bluetooth environment. Ideally, this scan should reveal no devices. This confirms what devices, if any, are present before the target device is introduced for scanning.",
            ScanPhase::Target => "Instruction: power on the target Bluetooth device or enable discoverable/pairing mode. Run the Target Scan. Ideally, this scan should capture the target Bluetooth device as the only observed device. On completion, power off the target Bluetooth device or disable discoverable/pairing mode.",
            ScanPhase::Verification => "Instruction: with the target Bluetooth device powered off or discoverable/pairing mode disabled, run the Confirmation Scan. This confirms that the background Bluetooth environment matches the Baseline Scan.",
        }
    }
}

/// `next` walks the procedure one step forward: it yields exactly the phase whose
/// number is one higher, and only the last phase has none.
pub proof fn law_next_is_successor(p: ScanPhase)
    ensures
        p.spec_next() matches Some(q) ==> q.rank() == p.rank() + 1,
        p.spec_next() is None <==> p.rank() == 3,
        1 <= p.rank() <= 3,
{
}

/// Kind filter used throughout the UI and the device table's kind tag.
#[derive(Debug, Clone, Copy, PartialEq, Eq, Structural, PartialOrd, Ord, Hash)]
pub enum DeviceKind {
    Ble,
    Classic,
    Unknown,
}

impl DeviceKind {
    /// Position in the `Ble < Classic < Unknown` order.
    pub open spec fn rank(self) -> nat {
        match self {
            DeviceKind::Ble => 0,
            DeviceKind::Classic => 1,
            DeviceKind::Unknown => 2,
        }
    }

    pub fn all() -> (v: [DeviceKind; 3])
        ensures
            v@ == seq![DeviceKind::Ble, DeviceKind::Classic, DeviceKind::Unknown],
    {
        [DeviceKind::Ble, DeviceKind::Classic, DeviceKind::Unknown]
    }

    pub open spec fn label_text(self) -> Seq<char> {
        match self {
            DeviceKind::Ble => "BLE"@,
            DeviceKind::Classic => "Classic"@,
            DeviceKind::Unknown => "Unknown"@,
        }
    }

    pub fn label(self) -> (s: &'static str)
        ensures
            s@ == self.label_text(),
    {
        match self {
            DeviceKind::Ble => "BLE",
            DeviceKind::Classic => "Classic",
            DeviceKind::Unknown => "Unknown",
        }
    }

    pub open spec fn debug_name_text(self) -> Seq<char> {
        match self {
            DeviceKind::Ble => "Ble"@,
            DeviceKind::Classic => "Classic"@,
            DeviceKind::Unknown => "Unknown"@,
        }
    }

    /// The variant's name, as `{:?}` prints it.
    pub fn debug_name(self) -> (s: &'static str)
        ensures
            s@ == self.debug_name_text(),
    {
        match self {
            DeviceKind::Ble => "Ble",
            DeviceKind::Classic => "Classic",
            DeviceKind::Unknown => "Unknown",
        }
    }
}

/// Coarse signal-strength bucket shared by the signal bars and the RSSI text color.
#[derive(Debug, Clone, Copy, PartialEq, Eq, Structural)]
pub enum SignalStrength {
    Strong,
    Medium,
    Weak,
    Unknown,
}

impl SignalStrength {
    pub open spec fn spec_from_rssi(rssi: Option<i32>) -> SignalStrength {
        match rssi {
            None => SignalStrength::Unknown,
            Some(v) => if v >= -55 {
                SignalStrength::Strong
            } else if v >= -70 {
                SignalStrength::Medium
            } else {
                SignalStrength::Weak
            },
        }
    }

    /// Buckets: at least -55 dBm is strong, at least -70 dBm medium, weaker is weak.
    pub fn from_rssi(rssi: Option<i32>) -> (s: SignalStrength)
        ensures
            s == Self::spec_from_rssi(rssi),
    {
        match rssi {
            None => SignalStrength::Unknown,
            Some(v) => if v >= -55 {
                SignalStrength::Strong
            } else if v >= -70 {
                SignalStrength::Medium
            } else {
                SignalStrength::Weak
            },
        }
    }

    pub open spec fn spec_bars(self) -> nat {
        match self {
            SignalStrength::Strong => 4,
            SignalStrength::Medium => 3,
            SignalStrength::Weak => 1,
            SignalStrength::Unknown => 0,
        }
    }

    /// Number of filled bars (0-4) for the 4-bar signal indicator.
    pub fn bars(self) -> (n: u8)
        ensures
            n as nat == self.spec_bars(),
    {
        match self {
            SignalStrength::Strong => 4,
            SignalStrength::Medium => 3,
            SignalStrength::Weak => 1,
            SignalStrength::Unknown => 0,
        }
    }
}

/// A stronger reading never shows fewer bars, and any reading shows at least one.
pub proof fn law_bars_monotone(a: i32, b: i32)
    requires
        a <= b,
    ensures
        SignalStrength::spec_from_rssi(Some(a)).spec_bars() <= SignalStrength::spec_from_rssi(
            Some(b),
        ).spec_bars(),
        SignalStrength::spec_from_rssi(Some(a)).spec_bars() >= 1,
        SignalStrength::spec_from_rssi(None).spec_bars() == 0,
{
}

/// Case metadata captured in the opening wizard.
#[derive(Debug, Clone, PartialEq, Eq)]
pub struct CaseMetadata {
    pub date: CaseDate,
    /// Scan reference.
    pub name: String,
    /// Target device reference.
    pub section: String,
    /// Operator running the capture.
    pub user: String,
}

impl CaseMetadata {
    /// Scan reference and target device reference are both filled in.
    pub fn is_complete(&self) -> (b: bool)
        ensures
            b == (!is_blank_seq(self.name@) && !is_blank_seq(self.section@)),
    {
        !is_blank(self.name.as_str()) && !is_blank(self.section.as_str())
    }
}

/// The host machine's own Bluetooth radio.
#[derive(Debug, Clone, PartialEq, Eq)]
pub struct HostAdapterInfo {
    pub name: String,
    pub address: String,
    /// Host machine's name, editable by the operator.
    pub computer_name: String,
}

impl Default for HostAdapterInfo {
    fn default() -> (h: HostAdapterInfo)
        ensures
            h.name@ == Seq::<char>::empty(),
            h.address@ == Seq::<char>::empty(),
            h.computer_name@ == Seq::<char>::empty(),
    {
        HostAdapterInfo { name: String::new(), address: String::new(), computer_name: String::new() }
    }
}

impl HostAdapterInfo {
    pub fn is_detected(&self) -> (b: bool)
        ensures
            b == !is_blank_seq(self.address@),
    {
        !is_blank(self.address.as_str())
    }
}

/// One phase's start/stop record, used for the report's "Phase runs" audit table.
#[derive(Debug, Clone)]
pub struct ScanPhaseRun {
    pub phase: ScanPhase,
    pub started_at: Timestamp,
    pub stopped_at: Option<Timestamp>,
    pub stop_reason: String,
}

impl ScanPhaseRun {
    pub open spec fn spec_duration(self) -> Option<i64> {
        match self.stopped_at {
            Some(stopped) => seconds_between(
                stopped.unix_seconds,
                stopped.nanos,
                self.started_at.unix_seconds,
                self.started_at.nanos,
            ),
            None => None,
        }
    }

    /// Whole seconds the run lasted; `None` while it is still running.
    pub fn duration(&self) -> (d: Option<i64>)
        ensures
            d == self.spec_duration(),
            self.stopped_at is None ==> d is None,
    {
        match &self.stopped_at {
            Some(stopped) => stopped.seconds_since(&self.started_at),
            None => None,
        }
    }
}

/// The hex digits of a text, in order.
pub open spec fn hex_digits(s: Seq<char>) -> Seq<char>
    decreases s.len(),
{
    if s.len() == 0 {
        Seq::empty()
    } else if is_hex_digit(s.last()) {
        hex_digits(s.drop_last()).push(s.last())
    } else {
        hex_digits(s.drop_last())
    }
}

/// A text reduced to a 12-hex-digit upper-case Bluetooth address, or empty when it
/// does not hold exactly twelve hex digits.
pub open spec fn normalized_address(s: Seq<char>) -> Seq<char> {
    if hex_digits(s).len() == 12 {
        upper_seq(hex_digits(s))
    } else {
        Seq::empty()
    }
}

pub fn is_hex_digit_char(c: char) -> (b: bool)
    ensures
        b == is_hex_digit(c),
{
    ('0' <= c && c <= '9') || ('a' <= c && c <= 'f') || ('A' <= c && c <= 'F')
}

pub fn upper_char_of(c: char) -> (u: char)
    ensures
        u == upper_char(c),
{
    if 'a' <= c && c <= 'z' {
        let v = (c as u32) - 32;
        assert(0x41 <= v <= 0x5a);
        char_from_ascii(v)
    } else {
        c
    }
}

/// The character with an ASCII code point.
pub fn char_from_ascii(v: u32) -> (c: char)
    requires
        v < 128,
    ensures
        c == v as char,
{
    let b: u8 = v as u8;
    b as char
}

/// Normalizes free text down to a 12-hex-digit Bluetooth address, or an empty string if the
/// value doesn't reduce to exactly that many hex digits, so a free-text radio tag can never
/// coincidentally match a device.
pub fn normalize_address(value: &str) -> (r: String)
    ensures
        r@ == normalized_address(value@),
{
    let cs = chars_of(value);
    let mut hex: Vec<char> = Vec::new();
    let mut i: usize = 0;
    while i < cs.len()
        invariant
            0 <= i <= cs.len(),
            cs@ == value@,
            hex@ == hex_digits(cs@.subrange(0, i as int)),
        decreases cs.len() - i,
    {
        assert(cs@.subrange(0, i + 1).drop_last() =~= cs@.subrange(0, i as int));
        if is_hex_digit_char(cs[i]) {
            hex.push(cs[i]);
        }
        i += 1;
    }
    assert(cs@.subrange(0, cs.len() as int) =~= cs@);
    let mut out = String::new();
    if hex.len() == 12 {
        let mut j: usize = 0;
        while j < 12
            invariant
                0 <= j <= 12,
                hex@.len() == 12,
                out@ == upper_seq(hex@).subrange(0, j as int),
            decreases 12 - j,
        {
            let u = upper_char_of(hex[j]);
            push_char(&mut out, u);
            j += 1;
            assert(out@ =~= upper_seq(hex@).subrange(0, j as int));
        }
        assert(upper_seq(hex@).subrange(0, 12) =~= upper_seq(hex@));
    } else {
        assert(out@ =~= Seq::<char>::empty());
    }
    out
}

pub open spec fn is_upper_hex(c: char) -> bool {
    '0' <= c <= '9' || 'A' <= c <= 'F'
}

proof fn lemma_hex_digits_all_hex(s: Seq<char>)
    ensures
        forall|i: int| 0 <= i < hex_digits(s).len() ==> is_hex_digit(#[trigger] hex_digits(s)[i]),
        hex_digits(s).len() <= s.len(),
    decreases s.len(),
{
    if s.len() > 0 {
        lemma_hex_digits_all_hex(s.drop_last());
    }
}

proof fn lemma_hex_digits_of_hex(s: Seq<char>)
    requires
        forall|i: int| 0 <= i < s.len() ==> is_hex_digit(#[trigger] s[i]),
    ensures
        hex_digits(s) == s,
    decreases s.len(),
{
    if s.len() > 0 {
        lemma_hex_digits_of_hex(s.drop_last());
        assert(s.drop_last().push(s.last()) =~= s);
    }
}

/// A normalized address is either empty or exactly twelve upper-case hex digits, and
/// normalizing it again changes nothing.
pub proof fn law_normalize_address(s: Seq<char>)
    ensures
        normalized_address(s).len() == 0 || (normalized_address(s).len() == 12 && forall|i: int|
            0 <= i < 12 ==> is_upper_hex(#[trigger] normalized_address(s)[i])),
        normalized_address(normalized_address(s)) == normalized_address(s),
{
    lemma_hex_digits_all_hex(s);
    let n = normalized_address(s);
    if hex_digits(s).len() == 12 {
        assert forall|i: int| 0 <= i < 12 implies is_upper_hex(#[trigger] n[i]) by {
            assert(is_hex_digit(hex_digits(s)[i]));
        }
        assert forall|i: int| 0 <= i < n.len() implies is_hex_digit(#[trigger] n[i]) by {
            assert(is_upper_hex(n[i]));
        }
        lemma_hex_digits_of_hex(n);
        assert(upper_seq(n) =~= n);
    } else {
        assert(hex_digits(n) =~= Seq::<char>::empty());
    }
}

} // verus!
