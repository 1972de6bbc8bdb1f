//! What the platform Bluetooth backends hand the capture: the error they report,
//! and the raw observations they assemble from what the operating system reports.

use vstd::prelude::*;
use crate::models::{normalize_address, normalized_address, DeviceKind, ScanPhase};
use crate::registry::{ObservationView, RawObservation};
use crate::text::{chars_of, is_blank, is_blank_seq, push_char, push_int};
use crate::time::Timestamp;

verus! {

#[derive(Debug, Clone)]
pub enum BackendError {
    AlreadyRunning,
    UnsupportedPlatform,
    Other(String),
}

impl BackendError {
    pub open spec fn message_text(&self) -> Seq<char> {
        match self {
            BackendError::AlreadyRunning => "a scan is already running"@,
            BackendError::UnsupportedPlatform => "Bluetooth backend is not available on this platform/build"@,
            BackendError::Other(m) => "Bluetooth backend failed: "@ + m@,
        }
    }

    /// The error's message as the status bar shows it.
    pub fn message(&self) -> (s: String)
        ensures
            s@ == self.message_text(),
    {
        let mut s = String::new();
        match self {
            BackendError::AlreadyRunning => s.append("a scan is already running"),
            BackendError::UnsupportedPlatform => s.append("Bluetooth backend is not available on this platform/build"),
            BackendError::Other(m) => {
                s.append("Bluetooth backend failed: ");
                s.append(m.as_str());
            },
        }
        s
    }
}

/// Upper-case hex digit for a value below sixteen.
pub open spec fn hex_char(d: nat) -> char {
    if d < 10 {
        (('0' as u32) + d) as char
    } else {
        (('A' as u32) + d - 10) as char
    }
}

/// Upper-case hex rendering, most significant digit first.
pub open spec fn hex(n: nat) -> Seq<char>
    decreases n,
{
    if n < 16 {
        seq![hex_char(n)]
    } else {
        hex(n / 16).push(hex_char(n % 16))
    }
}

/// Hex left-padded with zeros to at least twelve digits (`{:012X}`).
pub open spec fn hex12(n: nat) -> Seq<char> {
    if hex(n).len() >= 12 {
        hex(n)
    } else {
        Seq::new((12 - hex(n).len()) as nat, |_i: int| '0') + hex(n)
    }
}

/// The first twelve digits in colon-separated pairs.
pub open spec fn colon_pairs(h: Seq<char>) -> Seq<char> {
    seq![h[0], h[1], ':', h[2], h[3], ':', h[4], h[5], ':', h[6], h[7], ':', h[8], h[9], ':', h[10], h[11]]
}

pub open spec fn bluetooth_address_text(address: u64) -> Seq<char> {
    colon_pairs(hex12(address as nat))
}

proof fn lemma_hex_len(n: nat)
    ensures
        hex(n).len() >= 1,
    decreases n,
{
    if n >= 16 {
        lemma_hex_len(n / 16);
    }
}

fn hex_char_of(d: u64) -> (c: char)
    requires
        d < 16,
    ensures
        c == hex_char(d as nat),
{
    if d < 10 {
        ((d as u8) + 48) as char
    } else {
        ((d as u8) + 55) as char
    }
}

fn push_hex(s: &mut Vec<char>, n: u64)
    ensures
        final(s)@ == old(s)@ + hex(n as nat),
    decreases n,
{
    if n >= 16 {
        push_hex(s, n / 16);
    }
    s.push(hex_char_of(n % 16));
    assert(s@ =~= old(s)@ + hex(n as nat));
}

/// Formats a 48-bit Bluetooth address as `AA:BB:CC:DD:EE:FF`.
pub fn format_bluetooth_address(address: u64) -> (s: String)
    ensures
        s@ == bluetooth_address_text(address),
{
    let mut digits: Vec<char> = Vec::new();
    push_hex(&mut digits, address);
    assert(digits@ =~= hex(address as nat));
    proof {
        lemma_hex_len(address as nat);
    }
    let mut h: Vec<char> = Vec::new();
    if digits.len() < 12 {
        let pad = 12 - digits.len();
        let mut k: usize = 0;
        while k < pad
            invariant
                k <= pad,
                pad == 12 - digits@.len(),
                h@ == Seq::new(k as nat, |_i: int| '0'),
            decreases pad - k,
        {
            h.push('0');
            k += 1;
            assert(h@ =~= Seq::new(k as nat, |_i: int| '0'));
        }
    }
    let mut j: usize = 0;
    let ghost start = h@;
    while j < digits.len()
        invariant
            j <= digits.len(),
            h@ == start + digits@.subrange(0, j as int),
        decreases digits.len() - j,
    {
        h.push(digits[j]);
        j += 1;
        assert(h@ =~= start + digits@.subrange(0, j as int));
    }
    assert(digits@.subrange(0, j as int) =~= digits@);
    assert(h@ =~= hex12(address as nat));
    let mut s = String::new();
    let mut p: usize = 0;
    while p < 6
        invariant
            p <= 6,
            h@.len() >= 12,
            h@ == hex12(address as nat),
            s@ == colon_pairs(h@).subrange(0, if p == 0 { 0 } else { 3 * p - 1 }),
        decreases 6 - p,
    {
        if p > 0 {
            push_char(&mut s, ':');
        }
        push_char(&mut s, h[2 * p]);
        push_char(&mut s, h[2 * p + 1]);
        p += 1;
        assert(s@ =~= colon_pairs(h@).subrange(0, 3 * p - 1));
    }
    assert(colon_pairs(h@).subrange(0, 17) =~= colon_pairs(h@));
    s
}

/// Joins `key=value` entries with `; `.
pub open spec fn join_entries(entries: Seq<(Seq<char>, Seq<char>)>) -> Seq<char>
    decreases entries.len(),
{
    if entries.len() == 0 {
        Seq::empty()
    } else if entries.len() == 1 {
        entries[0].0 + "="@ + entries[0].1
    } else {
        join_entries(entries.drop_last()) + "; "@ + entries.last().0 + "="@ + entries.last().1
    }
}

pub open spec fn entry_views(entries: Seq<(String, String)>) -> Seq<(Seq<char>, Seq<char>)> {
    entries.map_values(|e: (String, String)| (e.0@, e.1@))
}

/// A property summary: `key=value` for each property the watcher reported, in order.
pub fn summarize_properties(entries: &Vec<(String, String)>) -> (s: String)
    ensures
        s@ == join_entries(entry_views(entries@)),
{
    let ghost items = entry_views(entries@);
    let mut s = String::new();
    let mut i: usize = 0;
    assert(items.subrange(0, 0) =~= Seq::<(Seq<char>, Seq<char>)>::empty());
    while i < entries.len()
        invariant
            i <= entries.len(),
            items == entry_views(entries@),
            s@ == join_entries(items.subrange(0, i as int)),
        decreases entries.len() - i,
    {
        assert(items.subrange(0, i + 1).drop_last() =~= items.subrange(0, i as int));
        if i > 0 {
            s.append("; ");
        }
        s.append(entries[i].0.as_str());
        s.append("=");
        s.append(entries[i].1.as_str());
        i += 1;
    }
    assert(items.subrange(0, i as int) =~= items);
    s
}

/// The name shown for a device: the reported one unless missing or blank.
pub open spec fn name_or(name: Option<Seq<char>>, fallback: Seq<char>) -> Seq<char> {
    match name {
        Some(n) => if is_blank_seq(n) { fallback } else { n },
        None => fallback,
    }
}

pub open spec fn opt_view(o: Option<String>) -> Option<Seq<char>> {
    match o {
        Some(s) => Some(s@),
        None => None,
    }
}

fn name_or_fallback(name: Option<String>, fallback: &str) -> (s: String)
    ensures
        s@ == name_or(opt_view(name), fallback@),
{
    match name {
        Some(n) => if is_blank(n.as_str()) {
            String::from_str(fallback)
        } else {
            n
        },
        None => String::from_str(fallback),
    }
}

/// The fields a Windows device watcher reports for one device (or one update of it).
pub struct WatcherFields {
    pub id: Option<String>,
    pub name: Option<String>,
    pub address: Option<String>,
    pub is_paired: Option<bool>,
    pub rssi: Option<i32>,
    pub properties: Option<Vec<(String, String)>>,
}

pub open spec fn watcher_summary(label: Seq<char>, update: bool, props: Option<Seq<(Seq<char>, Seq<char>)>>) -> Seq<char> {
    let summary = match props {
        Some(p) => join_entries(p),
        None => Seq::empty(),
    };
    let head = "Watcher="@ + label + (if update { "; update=true"@ } else { Seq::empty() });
    if summary.len() == 0 {
        head
    } else {
        head + "; "@ + summary
    }
}

pub open spec fn props_view(p: Option<Vec<(String, String)>>) -> Option<Seq<(Seq<char>, Seq<char>)>> {
    match p {
        Some(v) => Some(entry_views(v@)),
        None => None,
    }
}

/// The observation a device watcher event becomes: an added device keeps its reported
/// name (or `(unnamed)`), an update is named `(updated device)`.
pub open spec fn watcher_observation(
    f: WatcherFields,
    update: bool,
    phase: ScanPhase,
    kind: DeviceKind,
    label: Seq<char>,
    at: Timestamp,
) -> ObservationView {
    ObservationView {
        device_id: match opt_view(f.id) {
            Some(i) => i,
            None => "unknown-device-id"@,
        },
        phase,
        name: if update { "(updated device)"@ } else { name_or(opt_view(f.name), "(unnamed)"@) },
        address: match opt_view(f.address) {
            Some(a) => a,
            None => Seq::empty(),
        },
        kind,
        is_paired: match f.is_paired {
            Some(b) => b,
            None => false,
        },
        rssi: f.rssi,
        properties_summary: watcher_summary(label, update, props_view(f.properties)),
        observed_at: at,
    }
}

/// A watcher event's observation carries what the event reported: the pairing state when
/// the event reports `IsPaired` (unpaired only when it reports none), the device id and
/// address when present, the signal strength, and the watcher's phase and kind; an added
/// device with a non-blank name keeps that name.
pub proof fn law_watcher_observation_keeps_reported_fields(
    f: WatcherFields,
    update: bool,
    phase: ScanPhase,
    kind: DeviceKind,
    label: Seq<char>,
    at: Timestamp,
)
    ensures
        ({
            let o = watcher_observation(f, update, phase, kind, label, at);
            &&& (f.is_paired matches Some(b) ==> o.is_paired == b)
            &&& (f.is_paired is None ==> !o.is_paired)
            &&& (f.id matches Some(i) ==> o.device_id == i@)
            &&& (f.address matches Some(a) ==> o.address == a@)
            &&& o.rssi == f.rssi
            &&& o.phase == phase
            &&& o.kind == kind
            &&& o.observed_at == at
            &&& (!update && f.name is Some && !is_blank_seq(f.name.unwrap()@) ==> o.name == f.name.unwrap()@)
        }),
{
}

/// Builds the observation for a device watcher's `Added` (or, with `update`, `Updated`) event.
pub fn observation_from_watcher(
    f: WatcherFields,
    update: bool,
    phase: ScanPhase,
    kind: DeviceKind,
    label: &str,
    at: Timestamp,
) -> (o: RawObservation)
    ensures
        o@ == watcher_observation(f, update, phase, kind, label@, at),
{
    let ghost fv = f;
    let device_id = match f.id {
        Some(i) => i,
        None => String::from_str("unknown-device-id"),
    };
    let name = if update {
        String::from_str("(updated device)")
    } else {
        name_or_fallback(f.name, "(unnamed)")
    };
    let address = match f.address {
        Some(a) => a,
        None => String::new(),
    };
    let is_paired = match f.is_paired {
        Some(b) => b,
        None => false,
    };
    let summary = match &f.properties {
        Some(p) => summarize_properties(p),
        None => String::new(),
    };
    let mut props = String::from_str("Watcher=");
    props.append(label);
    if update {
        props.append("; update=true");
    }
    if !summary.as_str().is_empty() {
        props.append("; ");
        props.append(summary.as_str());
    }
    proof {
        reveal_strlit("");
    }
    let o = RawObservation {
        device_id,
        phase,
        name,
        address,
        kind,
        is_paired,
        rssi: f.rssi,
        properties_summary: props,
        observed_at: at,
    };
    assert(o@.properties_summary =~= watcher_summary(label@, update, props_view(fv.properties)));
    o
}

pub open spec fn advertisement_observation(
    address: Seq<char>,
    local_name: Option<Seq<char>>,
    rssi: Option<i32>,
    advertisement_type: Seq<char>,
    phase: ScanPhase,
    at: Timestamp,
) -> ObservationView {
    ObservationView {
        device_id: "ble-advertisement:"@ + address,
        phase,
        name: name_or(local_name, "(advertising)"@),
        address,
        kind: DeviceKind::Ble,
        is_paired: false,
        rssi,
        properties_summary: "AdvertisementType="@ + advertisement_type,
        observed_at: at,
    }
}

/// Builds the observation for one received BLE advertisement.
pub fn observation_from_advertisement(
    address: String,
    local_name: Option<String>,
    rssi: Option<i32>,
    advertisement_type: &str,
    phase: ScanPhase,
    at: Timestamp,
) -> (o: RawObservation)
    ensures
        o@ == advertisement_observation(address@, opt_view(local_name), rssi, advertisement_type@, phase, at),
{
    let mut device_id = String::from_str("ble-advertisement:");
    device_id.append(address.as_str());
    let name = name_or_fallback(local_name, "(advertising)");
    let mut props = String::from_str("AdvertisementType=");
    props.append(advertisement_type);
    RawObservation {
        device_id,
        phase,
        name,
        address,
        kind: DeviceKind::Ble,
        is_paired: false,
        rssi,
        properties_summary: props,
        observed_at: at,
    }
}

pub open spec fn bool_text(b: bool) -> Seq<char> {
    if b {
        "true"@
    } else {
        "false"@
    }
}

fn bool_str(b: bool) -> (s: &'static str)
    ensures
        s@ == bool_text(b),
{
    if b {
        "true"
    } else {
        "false"
    }
}

/// What CoreBluetooth reports for one discovered peripheral.
pub struct PeripheralFields {
    pub identifier: String,
    pub local_name: Option<String>,
    pub peripheral_name: Option<String>,
    pub rssi: i32,
    pub connectable: Option<bool>,
    pub advertisement_keys: u64,
}

pub open spec fn peripheral_observation(f: PeripheralFields, phase: ScanPhase, at: Timestamp) -> ObservationView {
    ObservationView {
        device_id: "corebluetooth:"@ + f.identifier@,
        phase,
        name: name_or(
            match opt_view(f.local_name) {
                Some(n) => Some(n),
                None => opt_view(f.peripheral_name),
            },
            "(advertising BLE peripheral)"@,
        ),
        address: Seq::empty(),
        kind: DeviceKind::Ble,
        is_paired: false,
        rssi: if f.rssi == 127 { None } else { Some(f.rssi) },
        properties_summary: "CoreBluetooth identifier="@ + f.identifier@ + "; connectable="@ + (match f.connectable {
            Some(b) => bool_text(b),
            None => "unknown"@,
        }) + "; advertisementKeys="@ + crate::text::dec(f.advertisement_keys as nat),
        observed_at: at,
    }
}

/// Builds the observation for one CoreBluetooth discovery; an RSSI of 127 means unavailable.
pub fn observation_from_peripheral(f: PeripheralFields, phase: ScanPhase, at: Timestamp) -> (o: RawObservation)
    ensures
        o@ == peripheral_observation(f, phase, at),
{
    let ghost fv = f;
    let mut device_id = String::from_str("corebluetooth:");
    device_id.append(f.identifier.as_str());
    let preferred = match f.local_name {
        Some(n) => Some(n),
        None => f.peripheral_name,
    };
    let name = name_or_fallback(preferred, "(advertising BLE peripheral)");
    let mut props = String::from_str("CoreBluetooth identifier=");
    props.append(f.identifier.as_str());
    props.append("; connectable=");
    match f.connectable {
        Some(b) => props.append(bool_str(b)),
        None => props.append("unknown"),
    }
    props.append("; advertisementKeys=");
    crate::text::push_dec(&mut props, f.advertisement_keys);
    let o = RawObservation {
        device_id,
        phase,
        name,
        address: String::new(),
        kind: DeviceKind::Ble,
        is_paired: false,
        rssi: if f.rssi == 127 { None } else { Some(f.rssi) },
        properties_summary: props,
        observed_at: at,
    };
    assert(o@.name == peripheral_observation(fv, phase, at).name);
    assert(o@.properties_summary =~= peripheral_observation(fv, phase, at).properties_summary);
    o
}

/// What IOBluetooth reports for one Classic device.
pub struct ClassicFields {
    pub address: Option<String>,
    pub name: Option<String>,
    pub is_paired: bool,
    pub is_connected: bool,
    pub raw_rssi: i8,
}

pub open spec fn classic_address(f: ClassicFields) -> Seq<char> {
    match opt_view(f.address) {
        Some(a) => normalized_address(a),
        None => Seq::empty(),
    }
}

pub open spec fn classic_observation(f: ClassicFields, phase: ScanPhase, at: Timestamp) -> ObservationView {
    let name = name_or(opt_view(f.name), "(unnamed classic Bluetooth device)"@);
    ObservationView {
        device_id: if classic_address(f).len() == 0 {
            "iobluetooth:"@ + name
        } else {
            "iobluetooth:"@ + classic_address(f)
        },
        phase,
        name,
        address: classic_address(f),
        kind: DeviceKind::Classic,
        is_paired: f.is_paired,
        rssi: if f.is_connected { Some(f.raw_rssi as i32) } else { None },
        properties_summary: "IOBluetooth classic; connected="@ + bool_text(f.is_connected) + "; paired="@ + bool_text(
            f.is_paired,
        ),
        observed_at: at,
    }
}

/// Builds the observation for one IOBluetooth Classic device; RSSI is only known while connected.
pub fn observation_from_classic(f: ClassicFields, phase: ScanPhase, at: Timestamp) -> (o: RawObservation)
    ensures
        o@ == classic_observation(f, phase, at),
{
    let ghost fv = f;
    let address = match &f.address {
        Some(a) => normalize_address(a.as_str()),
        None => String::new(),
    };
    let name = name_or_fallback(f.name, "(unnamed classic Bluetooth device)");
    let mut device_id = String::from_str("iobluetooth:");
    if address.as_str().is_empty() {
        device_id.append(name.as_str());
    } else {
        device_id.append(address.as_str());
    }
    let mut props = String::from_str("IOBluetooth classic; connected=");
    props.append(bool_str(f.is_connected));
    props.append("; paired=");
    props.append(bool_str(f.is_paired));
    RawObservation {
        device_id,
        phase,
        name,
        address,
        kind: DeviceKind::Classic,
        is_paired: f.is_paired,
        rssi: if f.is_connected { Some(f.raw_rssi as i32) } else { None },
        properties_summary: props,
        observed_at: at,
    }
}


pub open spec fn scripted(
    device_id: Seq<char>,
    phase: ScanPhase,
    name: Seq<char>,
    address: Seq<char>,
    kind: DeviceKind,
    is_paired: bool,
    rssi: i32,
    properties_summary: Seq<char>,
    at: Timestamp,
) -> ObservationView {
    ObservationView { device_id, phase, name, address, kind, is_paired, rssi: Some(rssi), properties_summary, observed_at: at }
}

/// The mock backend's fixed cast for a phase: a background phone always, a paired keyboard
/// in every phase, the host radio in the baseline, a target speaker only in the target phase,
/// and a door sensor that only shows up during confirmation.
pub open spec fn mock_script(phase: ScanPhase, at: Timestamp) -> Seq<ObservationView> {
    let phone = scripted("mock-phone"@, phase, "Nearby Phone"@, "10:20:30:40:50:60"@, DeviceKind::Ble, false, -61i32, "connectable=true source=mock"@, at);
    match phase {
        ScanPhase::Baseline => seq![
            phone,
            scripted("mock-keyboard"@, phase, "Desk Keyboard"@, "20:20:30:40:50:60"@, DeviceKind::Classic, true, -48i32, "paired=true source=mock"@, at),
            scripted("mock-host"@, phase, "Mock Bluetooth Adapter"@, "02:00:5E:00:53:01"@, DeviceKind::Unknown, true, -30i32, "local=true source=mock"@, at),
        ],
        ScanPhase::Target => seq![
            phone,
            scripted("mock-keyboard"@, phase, "Desk Keyboard"@, "20:20:30:40:50:60"@, DeviceKind::Classic, true, -50i32, "paired=true source=mock"@, at),
            scripted("mock-target-speaker"@, phase, "Target Speaker"@, "30:20:30:40:50:60"@, DeviceKind::Ble, false, -39i32, "advertisement=0x020106 source=mock"@, at),
        ],
        ScanPhase::Verification => seq![
            phone,
            scripted("mock-keyboard"@, phase, "Desk Keyboard"@, "20:20:30:40:50:60"@, DeviceKind::Classic, true, -51i32, "paired=true source=mock"@, at),
            scripted("mock-door-sensor"@, phase, "Door Sensor"@, "40:20:30:40:50:60"@, DeviceKind::Ble, false, -74i32, "late-change=true source=mock"@, at),
        ],
    }
}

fn raw(
    device_id: &str,
    phase: ScanPhase,
    name: &str,
    address: &str,
    kind: DeviceKind,
    is_paired: bool,
    rssi: i32,
    properties_summary: &str,
    at: Timestamp,
) -> (o: RawObservation)
    ensures
        o@ == scripted(device_id@, phase, name@, address@, kind, is_paired, rssi, properties_summary@, at),
{
    RawObservation {
        device_id: String::from_str(device_id),
        phase,
        name: String::from_str(name),
        address: String::from_str(address),
        kind,
        is_paired,
        rssi: Some(rssi),
        properties_summary: String::from_str(properties_summary),
        observed_at: at,
    }
}

pub open spec fn views_of(v: Seq<RawObservation>) -> Seq<ObservationView> {
    v.map_values(|o: RawObservation| o@)
}

/// The mock backend's script for `phase`, stamped with `at`.
pub fn scripted_observations(phase: ScanPhase, at: Timestamp) -> (v: Vec<RawObservation>)
    ensures
        views_of(v@) == mock_script(phase, at),
{
    let mut devices: Vec<RawObservation> = Vec::new();
    devices.push(raw("mock-phone", phase, "Nearby Phone", "10:20:30:40:50:60", DeviceKind::Ble, false, -61, "connectable=true source=mock", at));
    match phase {
        ScanPhase::Baseline => {
            devices.push(raw("mock-keyboard", phase, "Desk Keyboard", "20:20:30:40:50:60", DeviceKind::Classic, true, -48, "paired=true source=mock", at));
            devices.push(raw("mock-host", phase, "Mock Bluetooth Adapter", "02:00:5E:00:53:01", DeviceKind::Unknown, true, -30, "local=true source=mock", at));
        },
        ScanPhase::Target => {
            devices.push(raw("mock-keyboard", phase, "Desk Keyboard", "20:20:30:40:50:60", DeviceKind::Classic, true, -50, "paired=true source=mock", at));
            devices.push(raw("mock-target-speaker", phase, "Target Speaker", "30:20:30:40:50:60", DeviceKind::Ble, false, -39, "advertisement=0x020106 source=mock", at));
        },
        ScanPhase::Verification => {
            devices.push(raw("mock-keyboard", phase, "Desk Keyboard", "20:20:30:40:50:60", DeviceKind::Classic, true, -51, "paired=true source=mock", at));
            devices.push(raw("mock-door-sensor", phase, "Door Sensor", "40:20:30:40:50:60", DeviceKind::Ble, false, -74, "late-change=true source=mock", at));
        },
    }
    assert(views_of(devices@) =~= mock_script(phase, at));
    devices
}

/// The mock backend's host adapter.
pub fn mock_default_adapter() -> (h: crate::models::HostAdapterInfo)
    ensures
        h.name@ == "Mock Bluetooth Adapter"@,
        h.address@ == "02:00:5E:00:53:01"@,
        h.computer_name@ == Seq::<char>::empty(),
{
    crate::models::HostAdapterInfo {
        name: String::from_str("Mock Bluetooth Adapter"),
        address: String::from_str("02:00:5E:00:53:01"),
        computer_name: String::new(),
    }
}

/// The reading for the `tick`-th pass over the script: the RSSI drifts down by up to 3 dBm.
pub fn drift_rssi(rssi: Option<i32>, tick: u32) -> (r: Option<i32>)
    requires
        rssi matches Some(v) ==> v - (tick % 4) >= i32::MIN,
    ensures
        r == (match rssi {
            Some(v) => Some((v - (tick % 4) as int) as i32),
            None => None,
        }),
{
    match rssi {
        Some(v) => {
            let d = (tick % 4) as i32;
            Some(v - d)
        },
        None => None,
    }
}

/// A device watcher the Windows backend registers: Bluetooth Classic or LE devices,
/// unpaired or paired.
#[derive(Debug, Clone, Copy, PartialEq, Eq, Structural)]
pub struct WatcherPlan {
    pub classic: bool,
    pub paired: bool,
}

impl WatcherPlan {
    pub open spec fn spec_kind(self) -> DeviceKind {
        if self.classic {
            DeviceKind::Classic
        } else {
            DeviceKind::Ble
        }
    }

    pub open spec fn label_text(self) -> Seq<char> {
        if self.classic {
            "Bluetooth Classic"@
        } else {
            "Bluetooth LE"@
        }
    }

    /// The kind of device the watcher reports.
    pub fn kind(&self) -> (k: DeviceKind)
        ensures
            k == self.spec_kind(),
    {
        if self.classic {
            DeviceKind::Classic
        } else {
            DeviceKind::Ble
        }
    }

    /// The label that the watcher's observations carry in their properties summary.
    pub fn kind_label(&self) -> (s: &'static str)
        ensures
            s@ == self.label_text(),
    {
        if self.classic {
            "Bluetooth Classic"
        } else {
            "Bluetooth LE"
        }
    }
}

/// The device watchers of one scan, in registration order: LE unpaired, LE paired,
/// Classic unpaired, Classic paired.
pub open spec fn scan_watchers() -> Seq<WatcherPlan> {
    seq![
        WatcherPlan { classic: false, paired: false },
        WatcherPlan { classic: false, paired: true },
        WatcherPlan { classic: true, paired: false },
        WatcherPlan { classic: true, paired: true },
    ]
}

/// The Windows backend's registrations: the device watchers it holds and whether the
/// advertisement watcher is registered. The platform calls that create, start and stop
/// the watchers are made by the application for each registration listed here.
pub struct WindowsBluetoothBackend {
    watchers: Vec<WatcherPlan>,
    advertisement: bool,
}

impl WindowsBluetoothBackend {
    pub closed spec fn watchers(&self) -> Seq<WatcherPlan> {
        self.watchers@
    }

    pub closed spec fn advertising(&self) -> bool {
        self.advertisement
    }

    pub fn new() -> (b: WindowsBluetoothBackend)
        ensures
            b.watchers() == Seq::<WatcherPlan>::empty(),
            !b.advertising(),
    {
        WindowsBluetoothBackend { watchers: Vec::new(), advertisement: false }
    }

    /// Releases every registration.
    pub fn stop(&mut self)
        ensures
            final(self).watchers() == Seq::<WatcherPlan>::empty(),
            !final(self).advertising(),
    {
        self.watchers = Vec::new();
        self.advertisement = false;
    }

    /// Starts a scan: whatever ran before is stopped, then the four device watchers and
    /// the advertisement watcher are registered. Returns the device watchers to create,
    /// in order.
    pub fn start(&mut self) -> (plan: Vec<WatcherPlan>)
        ensures
            plan@ == scan_watchers(),
            final(self).watchers() == scan_watchers(),
            final(self).advertising(),
    {
        self.stop();
        let mut plan: Vec<WatcherPlan> = Vec::new();
        plan.push(WatcherPlan { classic: false, paired: false });
        plan.push(WatcherPlan { classic: false, paired: true });
        plan.push(WatcherPlan { classic: true, paired: false });
        plan.push(WatcherPlan { classic: true, paired: true });
        let mut i: usize = 0;
        while i < plan.len()
            invariant
                i <= plan@.len(),
                plan@ == scan_watchers(),
                self.watchers@ == plan@.subrange(0, i as int),
            decreases plan.len() - i,
        {
            self.watchers.push(plan[i]);
            i += 1;
            assert(self.watchers@ =~= plan@.subrange(0, i as int));
        }
        assert(plan@.subrange(0, i as int) =~= plan@);
        self.advertisement = true;
        plan
    }

    /// Whether any registration is live.
    pub fn is_scanning(&self) -> (b: bool)
        ensures
            b == (self.watchers().len() > 0 || self.advertising()),
    {
        self.watchers.len() > 0 || self.advertisement
    }
}

impl Default for WindowsBluetoothBackend {
    fn default() -> (b: WindowsBluetoothBackend)
        ensures
            b.watchers() == Seq::<WatcherPlan>::empty(),
            !b.advertising(),
    {
        WindowsBluetoothBackend::new()
    }
}

/// The macOS host adapter from the default `IOBluetoothHostController`'s reported name
/// and address: the name unless missing or blank, the address normalized.
pub fn host_from_controller(name: Option<String>, address: Option<String>) -> (h: crate::models::HostAdapterInfo)
    ensures
        h.name@ == name_or(opt_view(name), "macOS Bluetooth Adapter"@),
        h.address@ == (match opt_view(address) {
            Some(a) => normalized_address(a),
            None => Seq::empty(),
        }),
        h.computer_name@ == Seq::<char>::empty(),
{
    let name = name_or_fallback(name, "macOS Bluetooth Adapter");
    let address = match address {
        Some(a) => normalize_address(a.as_str()),
        None => String::new(),
    };
    crate::models::HostAdapterInfo { name, address, computer_name: String::new() }
}

/// The Windows host adapter from the default `BluetoothAdapter`'s device id and 48-bit
/// address, each when it could be read.
pub fn host_from_windows_adapter(device_id: Option<String>, address: Option<u64>) -> (h: crate::models::HostAdapterInfo)
    ensures
        h.name@ == (match opt_view(device_id) {
            Some(id) => id,
            None => "Windows Bluetooth Adapter"@,
        }),
        h.address@ == (match address {
            Some(a) => bluetooth_address_text(a),
            None => Seq::empty(),
        }),
        h.computer_name@ == Seq::<char>::empty(),
{
    let name = match device_id {
        Some(id) => id,
        None => String::from_str("Windows Bluetooth Adapter"),
    };
    let address = match address {
        Some(a) => format_bluetooth_address(a),
        None => String::new(),
    };
    crate::models::HostAdapterInfo { name, address, computer_name: String::new() }
}

} // verus!
