//! The device registry: raw observation events folded into one row per device,
//! each row carrying what was seen of the device in each phase.

use vstd::prelude::*;
use crate::models::{normalize_address, normalized_address, DeviceKind, ScanPhase, SignalStrength};
use crate::order::{
    chars_lt, compare_chars, lemma_chars_lt_asymmetric, lemma_chars_lt_irreflexive, lemma_chars_lt_skip,
    lemma_chars_lt_total, lemma_chars_lt_transitive, Cmp,
};
use crate::text::{chars_of, is_blank, is_blank_seq};
use crate::time::Timestamp;

verus! {

/// A single event as reported by a Bluetooth backend: this device was observed
/// (or updated) during this phase, at this moment.
#[derive(Debug, Clone)]
pub struct RawObservation {
    pub device_id: String,
    pub phase: ScanPhase,
    pub name: String,
    pub address: String,
    pub kind: DeviceKind,
    pub is_paired: bool,
    pub rssi: Option<i32>,
    pub properties_summary: String,
    pub observed_at: Timestamp,
}

pub struct ObservationView {
    pub device_id: Seq<char>,
    pub phase: ScanPhase,
    pub name: Seq<char>,
    pub address: Seq<char>,
    pub kind: DeviceKind,
    pub is_paired: bool,
    pub rssi: Option<i32>,
    pub properties_summary: Seq<char>,
    pub observed_at: Timestamp,
}

impl View for RawObservation {
    type V = ObservationView;

    open spec fn view(&self) -> ObservationView {
        ObservationView {
            device_id: self.device_id@,
            phase: self.phase,
            name: self.name@,
            address: self.address@,
            kind: self.kind,
            is_paired: self.is_paired,
            rssi: self.rssi,
            properties_summary: self.properties_summary@,
            observed_at: self.observed_at,
        }
    }
}

impl ObservationView {
    pub open spec fn key(self) -> (DeviceKind, Seq<char>) {
        (self.kind, self.device_id)
    }
}

/// What the registry remembers about one device in one phase.
#[derive(Debug, Clone)]
pub struct PhaseObservation {
    pub rssi: Option<i32>,
    pub first_seen: Timestamp,
    pub last_seen: Timestamp,
    pub properties_summary: String,
    pub sample_count: u32,
}

pub struct PhaseObservationView {
    pub rssi: Option<i32>,
    pub first_seen: Timestamp,
    pub last_seen: Timestamp,
    pub properties_summary: Seq<char>,
    pub sample_count: u32,
}

impl View for PhaseObservation {
    type V = PhaseObservationView;

    open spec fn view(&self) -> PhaseObservationView {
        PhaseObservationView {
            rssi: self.rssi,
            first_seen: self.first_seen,
            last_seen: self.last_seen,
            properties_summary: self.properties_summary@,
            sample_count: self.sample_count,
        }
    }
}

impl PhaseObservation {
    pub fn strength(&self) -> (s: SignalStrength)
        ensures
            s == SignalStrength::spec_from_rssi(self.rssi),
    {
        SignalStrength::from_rssi(self.rssi)
    }
}

pub open spec fn phase_view(o: Option<PhaseObservation>) -> Option<PhaseObservationView> {
    match o {
        Some(p) => Some(p@),
        None => None,
    }
}

pub open spec fn phase_ref_view(o: Option<&PhaseObservation>) -> Option<PhaseObservationView> {
    match o {
        Some(p) => Some(p@),
        None => None,
    }
}

/// A device's per-phase observations, one slot per phase.
#[derive(Debug, Clone)]
pub struct PhaseObservations {
    pub baseline: Option<PhaseObservation>,
    pub target: Option<PhaseObservation>,
    pub verification: Option<PhaseObservation>,
}

pub struct PhasesView {
    pub baseline: Option<PhaseObservationView>,
    pub target: Option<PhaseObservationView>,
    pub verification: Option<PhaseObservationView>,
}

impl View for PhaseObservations {
    type V = PhasesView;

    open spec fn view(&self) -> PhasesView {
        PhasesView {
            baseline: phase_view(self.baseline),
            target: phase_view(self.target),
            verification: phase_view(self.verification),
        }
    }
}

impl PhasesView {
    pub open spec fn empty() -> PhasesView {
        PhasesView { baseline: None, target: None, verification: None }
    }

    pub open spec fn at(self, phase: ScanPhase) -> Option<PhaseObservationView> {
        match phase {
            ScanPhase::Baseline => self.baseline,
            ScanPhase::Target => self.target,
            ScanPhase::Verification => self.verification,
        }
    }

    pub open spec fn with(self, phase: ScanPhase, v: PhaseObservationView) -> PhasesView {
        match phase {
            ScanPhase::Baseline => PhasesView { baseline: Some(v), ..self },
            ScanPhase::Target => PhasesView { target: Some(v), ..self },
            ScanPhase::Verification => PhasesView { verification: Some(v), ..self },
        }
    }

    /// The earliest phase (in procedure order) with an observation.
    pub open spec fn first_phase(self) -> Option<ScanPhase> {
        if self.baseline is Some {
            Some(ScanPhase::Baseline)
        } else if self.target is Some {
            Some(ScanPhase::Target)
        } else if self.verification is Some {
            Some(ScanPhase::Verification)
        } else {
            None
        }
    }

    pub open spec fn count(self) -> nat {
        (if self.baseline is Some { 1nat } else { 0nat }) + (if self.target is Some { 1nat } else { 0nat })
            + (if self.verification is Some { 1nat } else { 0nat })
    }

    /// The newest `last_seen` over all phases.
    pub open spec fn latest(self) -> Option<Timestamp> {
        latest_of(latest_of(latest_of(None, self.baseline), self.target), self.verification)
    }

    /// The observation of the latest phase seen (the last entry in phase order).
    pub open spec fn last_observed(self) -> Option<PhaseObservationView> {
        if self.verification is Some {
            self.verification
        } else if self.target is Some {
            self.target
        } else {
            self.baseline
        }
    }
}

/// The later of an instant and an observation's `last_seen`; on equal instants the
/// observation's, as the later of two equal maxima is kept.
pub open spec fn latest_of(acc: Option<Timestamp>, o: Option<PhaseObservationView>) -> Option<Timestamp> {
    match o {
        None => acc,
        Some(p) => match acc {
            None => Some(p.last_seen),
            Some(t) => if t.spec_later_than(p.last_seen) {
                Some(t)
            } else {
                Some(p.last_seen)
            },
        },
    }
}

impl PhaseObservations {
    pub fn new() -> (r: PhaseObservations)
        ensures
            r@ == PhasesView::empty(),
    {
        PhaseObservations { baseline: None, target: None, verification: None }
    }

    pub fn get(&self, phase: ScanPhase) -> (r: Option<&PhaseObservation>)
        ensures
            phase_ref_view(r) == self@.at(phase),
            r is Some == self@.at(phase) is Some,
    {
        match phase {
            ScanPhase::Baseline => self.baseline.as_ref(),
            ScanPhase::Target => self.target.as_ref(),
            ScanPhase::Verification => self.verification.as_ref(),
        }
    }

    /// Number of phases the device was seen in.
    pub fn len(&self) -> (n: usize)
        ensures
            n == self@.count(),
    {
        let mut n: usize = 0;
        if self.baseline.is_some() {
            n += 1;
        }
        if self.target.is_some() {
            n += 1;
        }
        if self.verification.is_some() {
            n += 1;
        }
        n
    }

    pub fn is_empty(&self) -> (b: bool)
        ensures
            b == (self@.count() == 0),
    {
        self.len() == 0
    }
}

/// One row of the device table: a single device, tracked across all three phases.
#[derive(Debug, Clone)]
pub struct DeviceRecord {
    pub device_id: String,
    pub name: String,
    pub address: String,
    pub kind: DeviceKind,
    pub is_paired: bool,
    pub is_local_radio: bool,
    pub observations: PhaseObservations,
}

pub struct DeviceView {
    pub device_id: Seq<char>,
    pub name: Seq<char>,
    pub address: Seq<char>,
    pub kind: DeviceKind,
    pub is_paired: bool,
    pub is_local_radio: bool,
    pub observations: PhasesView,
}

impl View for DeviceRecord {
    type V = DeviceView;

    open spec fn view(&self) -> DeviceView {
        DeviceView {
            device_id: self.device_id@,
            name: self.name@,
            address: self.address@,
            kind: self.kind,
            is_paired: self.is_paired,
            is_local_radio: self.is_local_radio,
            observations: self.observations@,
        }
    }
}

impl DeviceView {
    pub open spec fn key(self) -> (DeviceKind, Seq<char>) {
        (self.kind, self.device_id)
    }

    pub open spec fn is_new_in(self, phase: ScanPhase) -> bool {
        self.observations.first_phase() == Some(phase)
    }

    pub open spec fn seen_in(self, phase: ScanPhase) -> bool {
        self.observations.at(phase) is Some
    }
}

impl DeviceRecord {
    /// The earliest phase (Baseline, Target, Verification order) this device was seen in.
    pub fn first_seen_phase(&self) -> (p: Option<ScanPhase>)
        ensures
            p == self@.observations.first_phase(),
    {
        if self.observations.baseline.is_some() {
            Some(ScanPhase::Baseline)
        } else if self.observations.target.is_some() {
            Some(ScanPhase::Target)
        } else if self.observations.verification.is_some() {
            Some(ScanPhase::Verification)
        } else {
            None
        }
    }

    /// True when `phase` is the first phase this device was seen in.
    pub fn is_new_in(&self, phase: ScanPhase) -> (b: bool)
        ensures
            b == self@.is_new_in(phase),
    {
        self.first_seen_phase() == Some(phase)
    }

    pub fn seen_in(&self, phase: ScanPhase) -> (r: Option<&PhaseObservation>)
        ensures
            phase_ref_view(r) == self@.observations.at(phase),
            r is Some == self@.seen_in(phase),
    {
        self.observations.get(phase)
    }
}

// ---------------------------------------------------------------------------
// The fold of one observation into the registry
// ---------------------------------------------------------------------------

/// Registry order: by kind, then by device id.
pub open spec fn key_lt(a: (DeviceKind, Seq<char>), b: (DeviceKind, Seq<char>)) -> bool {
    a.0.rank() < b.0.rank() || (a.0 == b.0 && chars_lt(a.1, b.1))
}

pub proof fn lemma_key_order(a: (DeviceKind, Seq<char>), b: (DeviceKind, Seq<char>), c: (DeviceKind, Seq<char>))
    ensures
        !key_lt(a, a),
        !(key_lt(a, b) && key_lt(b, a)),
        key_lt(a, b) && key_lt(b, c) ==> key_lt(a, c),
        key_lt(a, b) || key_lt(b, a) || a == b,
{
    lemma_chars_lt_irreflexive(a.1);
    lemma_chars_lt_asymmetric(a.1, b.1);
    lemma_chars_lt_total(a.1, b.1);
    if key_lt(a, b) && key_lt(b, c) && a.0 == b.0 && b.0 == c.0 {
        lemma_chars_lt_transitive(a.1, b.1, c.1);
    }
    if a.0 == b.0 && a.1 == b.1 {
        assert(a == b);
    }
}

/// How `{:?}` writes a device kind.
pub open spec fn kind_debug_name(k: DeviceKind) -> Seq<char> {
    match k {
        DeviceKind::Ble => "Ble"@,
        DeviceKind::Classic => "Classic"@,
        DeviceKind::Unknown => "Unknown"@,
    }
}

/// A device's key written out as `{kind:?}:{device_id}`.
pub open spec fn key_text(k: (DeviceKind, Seq<char>)) -> Seq<char> {
    kind_debug_name(k.0) + ":"@ + k.1
}

proof fn lemma_key_text_same_kind(a: (DeviceKind, Seq<char>), b: (DeviceKind, Seq<char>))
    requires
        a.0 == b.0,
    ensures
        key_lt(a, b) == chars_lt(key_text(a), key_text(b)),
        (a == b) == (key_text(a) == key_text(b)),
{
    let p = kind_debug_name(a.0) + ":"@;
    let ta = key_text(a);
    let tb = key_text(b);
    assert(ta =~= p + a.1);
    assert(tb =~= p + b.1);
    lemma_chars_lt_skip(ta, tb, p.len() as int);
    assert(ta.skip(p.len() as int) =~= a.1);
    assert(tb.skip(p.len() as int) =~= b.1);
    lemma_chars_lt_irreflexive(a.1);
    if a.1 == b.1 {
        assert(a == b);
    }
}

/// The registry's order (kind, then device id by code point) is the order of the key
/// texts `{kind:?}:{device_id}` compared code point by code point, which is how `String`s
/// compare (UTF-8 byte order follows code point order); and two keys are equal exactly
/// when their texts are.
pub proof fn law_key_order_is_key_text_order(a: (DeviceKind, Seq<char>), b: (DeviceKind, Seq<char>))
    ensures
        key_lt(a, b) == chars_lt(key_text(a), key_text(b)),
        (a == b) == (key_text(a) == key_text(b)),
{
    reveal_strlit("Ble");
    reveal_strlit("Classic");
    reveal_strlit("Unknown");
    reveal_strlit(":");
    if a.0 == b.0 {
        lemma_key_text_same_kind(a, b);
    } else {
        let ta = key_text(a);
        let tb = key_text(b);
        assert(ta[0] == kind_debug_name(a.0)[0]);
        assert(tb[0] == kind_debug_name(b.0)[0]);
        assert(ta[0] != tb[0]);
        assert(ta.len() > 0 && tb.len() > 0);
    }
}

/// In a registry satisfying its invariant, the rows' key texts `{kind:?}:{device_id}`
/// strictly increase: the rows come in the order of those texts, and no two rows share one.
pub proof fn law_rows_in_key_text_order(rows: Seq<DeviceView>)
    requires
        rows_sorted(rows),
    ensures
        forall|i: int, j: int|
            0 <= i < j < rows.len() ==> chars_lt(key_text(#[trigger] rows[i].key()), key_text(#[trigger] rows[j].key())),
{
    assert forall|i: int, j: int| 0 <= i < j < rows.len() implies chars_lt(
        key_text(#[trigger] rows[i].key()),
        key_text(#[trigger] rows[j].key()),
    ) by {
        law_key_order_is_key_text_order(rows[i].key(), rows[j].key());
    }
}

/// Rows strictly ascending by key: one row per device.
pub open spec fn rows_sorted(rows: Seq<DeviceView>) -> bool {
    forall|i: int, j: int| 0 <= i < j < rows.len() ==> key_lt(#[trigger] rows[i].key(), #[trigger] rows[j].key())
}

/// Every row has been seen in at least one phase.
pub open spec fn rows_observed(rows: Seq<DeviceView>) -> bool {
    forall|i: int| 0 <= i < rows.len() ==> (#[trigger] rows[i]).observations.first_phase() is Some
}

pub open spec fn has_key(rows: Seq<DeviceView>, k: (DeviceKind, Seq<char>)) -> bool {
    exists|i: int| 0 <= i < rows.len() && (#[trigger] rows[i]).key() == k
}

/// The position of the row holding key `k`.
pub open spec fn index_of_key(rows: Seq<DeviceView>, k: (DeviceKind, Seq<char>)) -> int {
    choose|i: int| 0 <= i < rows.len() && (#[trigger] rows[i]).key() == k
}

/// The sorted position at which a new key `k` belongs.
pub open spec fn is_insert_pos(rows: Seq<DeviceView>, k: (DeviceKind, Seq<char>), p: int) -> bool {
    &&& 0 <= p <= rows.len()
    &&& forall|i: int| 0 <= i < p ==> key_lt(#[trigger] rows[i].key(), k)
    &&& forall|i: int| p <= i < rows.len() ==> key_lt(k, #[trigger] rows[i].key())
}

pub open spec fn insert_pos(rows: Seq<DeviceView>, k: (DeviceKind, Seq<char>)) -> int {
    choose|p: int| is_insert_pos(rows, k, p)
}

/// What one observation does to the device's detail for its phase.
pub open spec fn fold_phase(prev: Option<PhaseObservationView>, o: ObservationView) -> PhaseObservationView {
    match prev {
        Some(p) => PhaseObservationView {
            rssi: if o.rssi is Some { o.rssi } else { p.rssi },
            first_seen: p.first_seen,
            last_seen: o.observed_at,
            properties_summary: o.properties_summary,
            sample_count: (p.sample_count + 1) as u32,
        },
        None => PhaseObservationView {
            rssi: o.rssi,
            first_seen: o.observed_at,
            last_seen: o.observed_at,
            properties_summary: o.properties_summary,
            sample_count: 1,
        },
    }
}

/// What one observation does to its device's row: a non-blank name or address
/// replaces the stored one, the pairing state is taken over, and the phase detail folds in.
pub open spec fn apply_observation(d: DeviceView, o: ObservationView) -> DeviceView {
    DeviceView {
        name: if !is_blank_seq(o.name) { o.name } else { d.name },
        address: if !is_blank_seq(o.address) { o.address } else { d.address },
        is_paired: o.is_paired,
        observations: d.observations.with(o.phase, fold_phase(d.observations.at(o.phase), o)),
        ..d
    }
}

/// The row a device gets on its first sighting, before the sighting folds in.
pub open spec fn fresh_device(o: ObservationView) -> DeviceView {
    DeviceView {
        device_id: o.device_id,
        name: o.name,
        address: o.address,
        kind: o.kind,
        is_paired: o.is_paired,
        is_local_radio: false,
        observations: PhasesView::empty(),
    }
}

/// The registry's rows after recording `o`: the device's row is updated in place, or a new
/// row is inserted at its sorted position.
pub open spec fn record_rows(rows: Seq<DeviceView>, o: ObservationView) -> Seq<DeviceView> {
    if has_key(rows, o.key()) {
        let i = index_of_key(rows, o.key());
        rows.update(i, apply_observation(rows[i], o))
    } else {
        rows.insert(insert_pos(rows, o.key()), apply_observation(fresh_device(o), o))
    }
}

/// Recording `o` does not overflow the sample counter of its device's phase.
pub open spec fn can_record_rows(rows: Seq<DeviceView>, o: ObservationView) -> bool {
    has_key(rows, o.key()) ==> match rows[index_of_key(rows, o.key())].observations.at(o.phase) {
        Some(p) => p.sample_count < u32::MAX,
        None => true,
    }
}

/// The rows a sequence of observations produces, recorded in order from an empty registry.
pub open spec fn replay(obs: Seq<ObservationView>) -> Seq<DeviceView>
    decreases obs.len(),
{
    if obs.len() == 0 {
        Seq::empty()
    } else {
        record_rows(replay(obs.drop_last()), obs.last())
    }
}

/// The rows seen in `phase`, in registry order.
pub open spec fn rows_seen_in(rows: Seq<DeviceView>, phase: ScanPhase) -> Seq<DeviceView>
    decreases rows.len(),
{
    if rows.len() == 0 {
        Seq::empty()
    } else if rows.last().seen_in(phase) {
        rows_seen_in(rows.drop_last(), phase).push(rows.last())
    } else {
        rows_seen_in(rows.drop_last(), phase)
    }
}

/// The rows first seen in `phase`, in registry order.
pub open spec fn rows_new_in(rows: Seq<DeviceView>, phase: ScanPhase) -> Seq<DeviceView>
    decreases rows.len(),
{
    if rows.len() == 0 {
        Seq::empty()
    } else if rows.last().is_new_in(phase) {
        rows_new_in(rows.drop_last(), phase).push(rows.last())
    } else {
        rows_new_in(rows.drop_last(), phase)
    }
}

/// The row holding key `k`, if any.
pub open spec fn lookup(rows: Seq<DeviceView>, k: (DeviceKind, Seq<char>)) -> Option<DeviceView> {
    if has_key(rows, k) {
        Some(rows[index_of_key(rows, k)])
    } else {
        None
    }
}

/// Whether an address matches the tagged local radio.
pub open spec fn is_tagged(address: Seq<char>, tag: Seq<char>) -> bool {
    tag.len() > 0 && normalized_address(address) == tag
}

/// The rows with the local-radio flag re-evaluated against `tag`.
pub open spec fn tag_rows(rows: Seq<DeviceView>, tag: Seq<char>) -> Seq<DeviceView> {
    rows.map_values(|d: DeviceView| DeviceView { is_local_radio: is_tagged(d.address, tag), ..d })
}

pub open spec fn device_views(ds: Seq<&DeviceRecord>) -> Seq<DeviceView> {
    ds.map_values(|d: &DeviceRecord| d@)
}

/// Live, deduplicated view of every device seen across the whole session: one row per device,
/// each carrying its per-phase observations, listed by kind and then device id.
#[derive(Debug, Clone)]
pub struct DeviceRegistry {
    devices: Vec<DeviceRecord>,
}

impl View for DeviceRegistry {
    type V = Seq<DeviceView>;

    closed spec fn view(&self) -> Seq<DeviceView> {
        self.devices@.map_values(|d: DeviceRecord| d@)
    }
}

impl DeviceRegistry {
    /// The registry's invariant: rows strictly ordered by key, each seen in some phase.
    pub open spec fn wf(&self) -> bool {
        rows_sorted(self@) && rows_observed(self@)
    }

    pub fn new() -> (r: DeviceRegistry)
        ensures
            r.wf(),
            r@ == Seq::<DeviceView>::empty(),
    {
        let r = DeviceRegistry { devices: Vec::new() };
        assert(r@ =~= Seq::<DeviceView>::empty());
        r
    }

    pub fn len(&self) -> (n: usize)
        ensures
            n == self@.len(),
    {
        self.devices.len()
    }

    pub fn is_empty(&self) -> (b: bool)
        ensures
            b == (self@.len() == 0),
    {
        self.devices.len() == 0
    }

    pub fn clear(&mut self)
        ensures
            final(self).wf(),
            final(self)@ == Seq::<DeviceView>::empty(),
    {
        self.devices.clear();
        assert(self@ =~= Seq::<DeviceView>::empty());
    }

    /// Every device, in registry order.
    pub fn devices(&self) -> (r: Vec<&DeviceRecord>)
        ensures
            device_views(r@) == self@,
    {
        let mut r: Vec<&DeviceRecord> = Vec::new();
        let mut i: usize = 0;
        assert(device_views(r@) =~= self@.subrange(0, 0));
        while i < self.devices.len()
            invariant
                0 <= i <= self.devices.len(),
                r@.len() == i,
                self@.len() == self.devices@.len(),
                device_views(r@) == self@.subrange(0, i as int),
            decreases self.devices.len() - i,
        {
            let ghost before = r@;
            r.push(&self.devices[i]);
            assert(r@ == before.push(&self.devices@[i as int]));
            assert(device_views(r@)[i as int] == self@[i as int]);
            i += 1;
            assert(device_views(r@) =~= self@.subrange(0, i as int));
        }
        assert(self@.subrange(0, i as int) =~= self@);
        r
    }
}


// ---------------------------------------------------------------------------
// Ordering facts about the rows
// ---------------------------------------------------------------------------

/// In sorted rows, the row holding a key is the only one.
pub proof fn lemma_index_of_key_unique(rows: Seq<DeviceView>, k: (DeviceKind, Seq<char>), i: int)
    requires
        rows_sorted(rows),
        0 <= i < rows.len(),
        rows[i].key() == k,
    ensures
        has_key(rows, k),
        index_of_key(rows, k) == i,
{
    assert(has_key(rows, k));
    let j = index_of_key(rows, k);
    if j != i {
        lemma_key_order(k, k, k);
        if j < i {
            assert(key_lt(rows[j].key(), rows[i].key()));
        } else {
            assert(key_lt(rows[i].key(), rows[j].key()));
        }
    }
}

/// In sorted rows, a new key has exactly one sorted position.
pub proof fn lemma_insert_pos_unique(rows: Seq<DeviceView>, k: (DeviceKind, Seq<char>), p: int)
    requires
        is_insert_pos(rows, k, p),
    ensures
        insert_pos(rows, k) == p,
{
    let q = insert_pos(rows, k);
    assert(is_insert_pos(rows, k, q));
    if q < p {
        lemma_key_order(rows[q].key(), k, k);
    } else if q > p {
        lemma_key_order(rows[p].key(), k, k);
    }
}

proof fn lemma_sorted_no_key_at_insert_pos(rows: Seq<DeviceView>, k: (DeviceKind, Seq<char>), p: int)
    requires
        is_insert_pos(rows, k, p),
    ensures
        !has_key(rows, k),
{
    if has_key(rows, k) {
        let i = index_of_key(rows, k);
        lemma_key_order(k, k, k);
        if i < p {
            assert(key_lt(rows[i].key(), k));
        } else {
            assert(key_lt(k, rows[i].key()));
        }
    }
}

pub fn kind_rank(k: DeviceKind) -> (r: u8)
    ensures
        r as nat == k.rank(),
{
    match k {
        DeviceKind::Ble => 0,
        DeviceKind::Classic => 1,
        DeviceKind::Unknown => 2,
    }
}

/// Compares `(kind, id)` keys in registry order.
pub fn compare_keys(ka: DeviceKind, ida: &Vec<char>, kb: DeviceKind, idb: &Vec<char>) -> (c: Cmp)
    ensures
        c == Cmp::Less <==> key_lt((ka, ida@), (kb, idb@)),
        c == Cmp::Equal <==> (ka, ida@) == (kb, idb@),
        c == Cmp::Greater <==> key_lt((kb, idb@), (ka, ida@)),
{
    let ra = kind_rank(ka);
    let rb = kind_rank(kb);
    if ra < rb {
        Cmp::Less
    } else if ra > rb {
        Cmp::Greater
    } else {
        assert(ka == kb);
        compare_chars(ida, idb)
    }
}

/// One observation folded into the previous detail of its phase.
fn fold_one(prev: Option<PhaseObservation>, obs: &RawObservation) -> (r: PhaseObservation)
    requires
        prev matches Some(p) ==> p.sample_count < u32::MAX,
    ensures
        r@ == fold_phase(phase_view(prev), obs@),
{
    match prev {
        Some(p) => PhaseObservation {
            rssi: if obs.rssi.is_some() { obs.rssi } else { p.rssi },
            first_seen: p.first_seen,
            last_seen: obs.observed_at,
            properties_summary: obs.properties_summary.clone(),
            sample_count: p.sample_count + 1,
        },
        None => PhaseObservation {
            rssi: obs.rssi,
            first_seen: obs.observed_at,
            last_seen: obs.observed_at,
            properties_summary: obs.properties_summary.clone(),
            sample_count: 1,
        },
    }
}

impl PhaseObservations {
    /// Folds one observation into the slot of its phase.
    pub fn fold(&mut self, obs: &RawObservation)
        requires
            old(self)@.at(obs.phase) matches Some(p) ==> p.sample_count < u32::MAX,
        ensures
            final(self)@ == old(self)@.with(obs.phase, fold_phase(old(self)@.at(obs.phase), obs@)),
    {
        match obs.phase {
            ScanPhase::Baseline => {
                let prev = self.baseline.take();
                self.baseline = Some(fold_one(prev, obs));
            },
            ScanPhase::Target => {
                let prev = self.target.take();
                self.target = Some(fold_one(prev, obs));
            },
            ScanPhase::Verification => {
                let prev = self.verification.take();
                self.verification = Some(fold_one(prev, obs));
            },
        }
    }
}

/// The device's row after one observation of it.
fn apply_to(d: DeviceRecord, obs: &RawObservation) -> (r: DeviceRecord)
    requires
        d@.observations.at(obs.phase) matches Some(p) ==> p.sample_count < u32::MAX,
    ensures
        r@ == apply_observation(d@, obs@),
{
    let mut d = d;
    if !is_blank(obs.name.as_str()) {
        d.name = obs.name.clone();
    }
    if !is_blank(obs.address.as_str()) {
        d.address = obs.address.clone();
    }
    d.is_paired = obs.is_paired;
    d.observations.fold(obs);
    d
}

fn fresh_record(obs: &RawObservation) -> (r: DeviceRecord)
    ensures
        r@ == fresh_device(obs@),
{
    DeviceRecord {
        device_id: obs.device_id.clone(),
        name: obs.name.clone(),
        address: obs.address.clone(),
        kind: obs.kind,
        is_paired: obs.is_paired,
        is_local_radio: false,
        observations: PhaseObservations::new(),
    }
}

impl DeviceRegistry {
    /// Finds the row holding `(kind, id)`, or the sorted position a new row for it takes.
    fn locate(&self, kind: DeviceKind, id: &Vec<char>) -> (r: (bool, usize))
        requires
            self.wf(),
        ensures
            r.0 ==> r.1 < self@.len() && self@[r.1 as int].key() == (kind, id@),
            !r.0 ==> is_insert_pos(self@, (kind, id@), r.1 as int),
    {
        let ghost k = (kind, id@);
        let mut i: usize = 0;
        while i < self.devices.len()
            invariant
                0 <= i <= self.devices.len(),
                self.wf(),
                self@.len() == self.devices@.len(),
                k == (kind, id@),
                forall|j: int| 0 <= j < i ==> key_lt(#[trigger] self@[j].key(), k),
            decreases self.devices.len() - i,
        {
            let row = &self.devices[i];
            assert(self@[i as int] == row@);
            let row_id = chars_of(row.device_id.as_str());
            match compare_keys(row.kind, &row_id, kind, id) {
                Cmp::Less => {},
                Cmp::Equal => {
                    return (true, i);
                },
                Cmp::Greater => {
                    assert forall|j: int| i <= j < self@.len() implies key_lt(k, #[trigger] self@[j].key()) by {
                        if j > i {
                            lemma_key_order(k, self@[i as int].key(), self@[j].key());
                        }
                    }
                    return (false, i);
                },
            }
            i += 1;
        }
        (false, i)
    }

    /// Whether recording `obs` keeps its sample counter in range.
    pub fn can_record(&self, obs: &RawObservation) -> (b: bool)
        requires
            self.wf(),
        ensures
            b == can_record_rows(self@, obs@),
    {
        let id = chars_of(obs.device_id.as_str());
        let (found, pos) = self.locate(obs.kind, &id);
        if found {
            proof {
                lemma_index_of_key_unique(self@, obs@.key(), pos as int);
            }
            let row = &self.devices[pos];
            assert(self@[pos as int] == row@);
            match row.observations.get(obs.phase) {
                Some(p) => p.sample_count < u32::MAX,
                None => true,
            }
        } else {
            proof {
                lemma_sorted_no_key_at_insert_pos(self@, obs@.key(), pos as int);
            }
            true
        }
    }

    /// Folds one raw observation into the registry: creates the device's row on first
    /// sight, or updates its per-phase detail (RSSI, last-seen, properties) on repeat sight.
    pub fn record(&mut self, obs: &RawObservation)
        requires
            old(self).wf(),
            can_record_rows(old(self)@, obs@),
        ensures
            final(self).wf(),
            final(self)@ == record_rows(old(self)@, obs@),
    {
        let ghost rows = self@;
        let ghost k = obs@.key();
        let id = chars_of(obs.device_id.as_str());
        let (found, pos) = self.locate(obs.kind, &id);
        if found {
            proof {
                lemma_index_of_key_unique(rows, k, pos as int);
            }
            let d = self.devices.remove(pos);
            assert(rows[pos as int] == d@);
            let d2 = apply_to(d, obs);
            self.devices.insert(pos, d2);
            assert(self@ =~= rows.update(pos as int, apply_observation(rows[pos as int], obs@)));
            assert forall|i: int, j: int| 0 <= i < j < self@.len() implies key_lt(
                #[trigger] self@[i].key(),
                #[trigger] self@[j].key(),
            ) by {
                assert(self@[i].key() == rows[i].key());
                assert(self@[j].key() == rows[j].key());
            }
            assert forall|i: int| 0 <= i < self@.len() implies (#[trigger] self@[i]).observations.first_phase() is Some by {
                if i != pos {
                    assert(self@[i] == rows[i]);
                }
            }
        } else {
            proof {
                lemma_sorted_no_key_at_insert_pos(rows, k, pos as int);
                lemma_insert_pos_unique(rows, k, pos as int);
            }
            let d = fresh_record(obs);
            let d2 = apply_to(d, obs);
            self.devices.insert(pos, d2);
            let ghost nd = apply_observation(fresh_device(obs@), obs@);
            assert(self@ =~= rows.insert(pos as int, nd));
            assert(nd.key() == k);
            assert forall|i: int, j: int| 0 <= i < j < self@.len() implies key_lt(
                #[trigger] self@[i].key(),
                #[trigger] self@[j].key(),
            ) by {
                if j < pos {
                    assert(self@[i] == rows[i] && self@[j] == rows[j]);
                } else if j == pos {
                    assert(self@[i] == rows[i]);
                } else if i < pos {
                    assert(self@[i] == rows[i] && self@[j] == rows[j - 1]);
                    lemma_key_order(rows[i].key(), k, rows[j - 1].key());
                } else if i == pos {
                    assert(self@[j] == rows[j - 1]);
                } else {
                    assert(self@[i] == rows[i - 1] && self@[j] == rows[j - 1]);
                }
            }
            assert forall|i: int| 0 <= i < self@.len() implies (#[trigger] self@[i]).observations.first_phase() is Some by {
                if i < pos {
                    assert(self@[i] == rows[i]);
                } else if i > pos {
                    assert(self@[i] == rows[i - 1]);
                }
            }
        }
    }
}


/// An empty row: no id, name or address, unknown kind, not paired or tagged, never seen.
fn placeholder_record() -> (d: DeviceRecord)
    ensures
        d@ == (DeviceView {
            device_id: Seq::empty(),
            name: Seq::empty(),
            address: Seq::empty(),
            kind: DeviceKind::Unknown,
            is_paired: false,
            is_local_radio: false,
            observations: PhasesView::empty(),
        }),
{
    DeviceRecord {
        device_id: String::new(),
        name: String::new(),
        address: String::new(),
        kind: DeviceKind::Unknown,
        is_paired: false,
        is_local_radio: false,
        observations: PhaseObservations::new(),
    }
}

impl DeviceRegistry {
    /// Re-evaluates which devices match the tagged local radio address, so a tag entered or
    /// changed after the scan has started still flags matching rows retroactively.
    pub fn apply_local_radio_tag(&mut self, normalized_address: &str)
        requires
            old(self).wf(),
        ensures
            final(self).wf(),
            final(self)@ == tag_rows(old(self)@, normalized_address@),
    {
        let ghost rows = self@;
        let tag = chars_of(normalized_address);
        let n = self.devices.len();
        let mut i: usize = 0;
        while i < n
            invariant
                0 <= i <= n,
                n == self.devices@.len(),
                rows.len() == n,
                tag@ == normalized_address@,
                self@.len() == n,
                forall|j: int| 0 <= j < i ==> #[trigger] self@[j] == tag_rows(rows, tag@)[j],
                forall|j: int| i <= j < n ==> #[trigger] self@[j] == rows[j],
            decreases n - i,
        {
            let mut d = placeholder_record();
            let ghost before = self@;
            self.devices.set_and_swap(i, &mut d);
            assert(d@ == before[i as int]);
            let norm = normalize_address(d.address.as_str());
            let norm_chars = chars_of(norm.as_str());
            let matches = tag.len() > 0 && compare_chars(&norm_chars, &tag) == Cmp::Equal;
            assert(matches == is_tagged(rows[i as int].address, tag@));
            d.is_local_radio = matches;
            let ghost mid = self.devices@;
            self.devices.set(i, d);
            assert(self.devices@ == mid.update(i as int, d));
            assert(self@[i as int] == d@);
            assert(d@ == tag_rows(rows, tag@)[i as int]);
            assert forall|j: int| 0 <= j < n && j != i implies #[trigger] self@[j] == before[j] by {
                assert(self.devices@[j] == mid[j]);
            }
            i += 1;
        }
        assert(self@ =~= tag_rows(rows, tag@));
        assert forall|a: int, b: int| 0 <= a < b < self@.len() implies key_lt(#[trigger] self@[a].key(), #[trigger] self@[b].key()) by {
            assert(self@[a].key() == rows[a].key());
            assert(self@[b].key() == rows[b].key());
        }
        assert forall|a: int| 0 <= a < self@.len() implies (#[trigger] self@[a]).observations.first_phase() is Some by {
            assert(self@[a].observations == rows[a].observations);
        }
    }

    /// Devices observed at all during `phase`, in registry order.
    pub fn observed_in(&self, phase: ScanPhase) -> (r: Vec<&DeviceRecord>)
        ensures
            device_views(r@) == rows_seen_in(self@, phase),
    {
        let mut r: Vec<&DeviceRecord> = Vec::new();
        let mut i: usize = 0;
        assert(self@.subrange(0, 0) =~= Seq::<DeviceView>::empty());
        assert(device_views(r@) =~= Seq::<DeviceView>::empty());
        while i < self.devices.len()
            invariant
                0 <= i <= self.devices.len(),
                self@.len() == self.devices@.len(),
                device_views(r@) == rows_seen_in(self@.subrange(0, i as int), phase),
            decreases self.devices.len() - i,
        {
            let d = &self.devices[i];
            assert(self@[i as int] == d@);
            assert(self@.subrange(0, i + 1).drop_last() =~= self@.subrange(0, i as int));
            if d.observations.get(phase).is_some() {
                let ghost before = r@;
                r.push(d);
                assert(device_views(r@) =~= device_views(before).push(d@));
            }
            i += 1;
        }
        assert(self@.subrange(0, i as int) =~= self@);
        r
    }

    /// Devices whose first sighting was in `phase`. Phase 2's should ideally be the target
    /// alone and phase 3's none; anything in phase 3 means something changed mid-capture.
    pub fn newly_seen_in(&self, phase: ScanPhase) -> (r: Vec<&DeviceRecord>)
        ensures
            device_views(r@) == rows_new_in(self@, phase),
    {
        let mut r: Vec<&DeviceRecord> = Vec::new();
        let mut i: usize = 0;
        assert(self@.subrange(0, 0) =~= Seq::<DeviceView>::empty());
        assert(device_views(r@) =~= Seq::<DeviceView>::empty());
        while i < self.devices.len()
            invariant
                0 <= i <= self.devices.len(),
                self@.len() == self.devices@.len(),
                device_views(r@) == rows_new_in(self@.subrange(0, i as int), phase),
            decreases self.devices.len() - i,
        {
            let d = &self.devices[i];
            assert(self@[i as int] == d@);
            assert(self@.subrange(0, i + 1).drop_last() =~= self@.subrange(0, i as int));
            if d.is_new_in(phase) {
                let ghost before = r@;
                r.push(d);
                assert(device_views(r@) =~= device_views(before).push(d@));
            }
            i += 1;
        }
        assert(self@.subrange(0, i as int) =~= self@);
        r
    }
}

// ---------------------------------------------------------------------------
// Laws
// ---------------------------------------------------------------------------

/// One row per device: in a well-formed registry no two rows share a kind and device id,
/// so a device rediscovered in every phase is one row, not three.
pub proof fn law_one_row_per_device(reg: DeviceRegistry, i: int, j: int)
    requires
        reg.wf(),
        0 <= i < reg@.len(),
        0 <= j < reg@.len(),
        i != j,
    ensures
        reg@[i].key() != reg@[j].key(),
{
    let rows = reg@;
    lemma_key_order(rows[i].key(), rows[j].key(), rows[i].key());
    if i < j {
        assert(key_lt(rows[i].key(), rows[j].key()));
    } else {
        assert(key_lt(rows[j].key(), rows[i].key()));
    }
}

/// Recording an observation: the observed device has a row afterwards that is the old row (or
/// a fresh one) with the observation folded in, and every other device's row is unchanged.
pub proof fn law_record_touches_only_its_device(
    rows: Seq<DeviceView>,
    o: ObservationView,
    k: (DeviceKind, Seq<char>),
)
    requires
        rows_sorted(rows),
    ensures
        rows_sorted(record_rows(rows, o)),
        lookup(record_rows(rows, o), o.key()) == Some(
            apply_observation(
                match lookup(rows, o.key()) {
                    Some(d) => d,
                    None => fresh_device(o),
                },
                o,
            ),
        ),
        k != o.key() ==> lookup(record_rows(rows, o), k) == lookup(rows, k),
        record_rows(rows, o).len() == rows.len() + (if has_key(rows, o.key()) { 0int } else { 1int }),
{
    let new = record_rows(rows, o);
    let ko = o.key();
    lemma_record_rows_sorted(rows, o);
    if has_key(rows, ko) {
        let i = index_of_key(rows, ko);
        lemma_index_of_key_unique(new, ko, i);
        if k != ko {
            if has_key(rows, k) {
                let j = index_of_key(rows, k);
                assert(new[j].key() == k);
                lemma_index_of_key_unique(new, k, j);
            }
            if has_key(new, k) {
                let j = index_of_key(new, k);
                assert(rows[j].key() == k);
            }
        }
    } else {
        let p = insert_pos(rows, ko);
        lemma_insert_pos_exists(rows, ko);
        assert(new[p].key() == ko);
        lemma_index_of_key_unique(new, ko, p);
        if k != ko {
            if has_key(rows, k) {
                let j = index_of_key(rows, k);
                let jn = if j < p { j } else { j + 1 };
                assert(new[jn] == rows[j]);
                lemma_index_of_key_unique(new, k, jn);
            }
            if has_key(new, k) {
                let j = index_of_key(new, k);
                if j < p {
                    assert(rows[j].key() == k);
                } else if j > p {
                    assert(rows[j - 1].key() == k);
                }
            }
        }
    }
}

/// A new key always has a sorted position in sorted rows.
pub proof fn lemma_insert_pos_exists(rows: Seq<DeviceView>, k: (DeviceKind, Seq<char>))
    requires
        rows_sorted(rows),
        !has_key(rows, k),
    ensures
        is_insert_pos(rows, k, insert_pos(rows, k)),
    decreases rows.len(),
{
    // The position is the number of leading rows below k.
    let p = leading_below(rows, k);
    lemma_leading_below(rows, k);
    assert forall|i: int| p <= i < rows.len() implies key_lt(k, #[trigger] rows[i].key()) by {
        if i == p {
            lemma_key_order(k, rows[i].key(), k);
            assert(rows[i].key() != k);
        } else {
            lemma_key_order(k, rows[p].key(), rows[i].key());
            lemma_key_order(rows[p].key(), k, k);
            assert(rows[p].key() != k);
        }
    }
    assert(is_insert_pos(rows, k, p));
}

/// The number of leading rows whose key is below `k`.
pub open spec fn leading_below(rows: Seq<DeviceView>, k: (DeviceKind, Seq<char>)) -> int
    decreases rows.len(),
{
    if rows.len() == 0 {
        0
    } else if key_lt(rows[0].key(), k) {
        1 + leading_below(rows.drop_first(), k)
    } else {
        0
    }
}

proof fn lemma_leading_below(rows: Seq<DeviceView>, k: (DeviceKind, Seq<char>))
    ensures
        0 <= leading_below(rows, k) <= rows.len(),
        forall|i: int| 0 <= i < leading_below(rows, k) ==> key_lt(#[trigger] rows[i].key(), k),
        leading_below(rows, k) < rows.len() ==> !key_lt(rows[leading_below(rows, k)].key(), k),
    decreases rows.len(),
{
    if rows.len() > 0 && key_lt(rows[0].key(), k) {
        lemma_leading_below(rows.drop_first(), k);
        assert forall|i: int| 0 <= i < leading_below(rows, k) implies key_lt(#[trigger] rows[i].key(), k) by {
            if i > 0 {
                assert(rows[i] == rows.drop_first()[i - 1]);
            }
        }
    }
}

/// Recording keeps rows sorted.
pub proof fn lemma_record_rows_sorted(rows: Seq<DeviceView>, o: ObservationView)
    requires
        rows_sorted(rows),
    ensures
        rows_sorted(record_rows(rows, o)),
{
    let new = record_rows(rows, o);
    let k = o.key();
    if has_key(rows, k) {
        let i = index_of_key(rows, k);
        assert forall|a: int, b: int| 0 <= a < b < new.len() implies key_lt(#[trigger] new[a].key(), #[trigger] new[b].key()) by {
            assert(new[a].key() == rows[a].key());
            assert(new[b].key() == rows[b].key());
        }
    } else {
        lemma_insert_pos_exists(rows, k);
        let p = insert_pos(rows, k);
        assert forall|a: int, b: int| 0 <= a < b < new.len() implies key_lt(#[trigger] new[a].key(), #[trigger] new[b].key()) by {
            if b < p {
                assert(new[a] == rows[a] && new[b] == rows[b]);
            } else if b == p {
                assert(new[a] == rows[a]);
            } else if a < p {
                assert(new[a] == rows[a] && new[b] == rows[b - 1]);
                lemma_key_order(rows[a].key(), k, rows[b - 1].key());
            } else if a == p {
                assert(new[b] == rows[b - 1]);
            } else {
                assert(new[a] == rows[a - 1] && new[b] == rows[b - 1]);
            }
        }
    }
}

/// Phases seen are never lost: once a device has been seen in a phase, it stays seen in that
/// phase whatever is recorded afterwards, and its first-seen phase can only move earlier.
pub proof fn law_seen_phases_are_kept(
    rows: Seq<DeviceView>,
    o: ObservationView,
    k: (DeviceKind, Seq<char>),
    p: ScanPhase,
)
    requires
        rows_sorted(rows),
        lookup(rows, k) matches Some(d) && d.seen_in(p),
    ensures
        lookup(record_rows(rows, o), k) matches Some(d2) && d2.seen_in(p) && (d2.observations.first_phase()->0).rank()
            <= (lookup(rows, k)->0.observations.first_phase()->0).rank(),
{
    law_record_touches_only_its_device(rows, o, k);
}

/// The recorded observation's phase is seen for its device afterwards, with the
/// observation's RSSI (when it has one), time and properties as the phase's latest detail.
pub proof fn law_record_sees_its_phase(rows: Seq<DeviceView>, o: ObservationView)
    requires
        rows_sorted(rows),
    ensures
        lookup(record_rows(rows, o), o.key()) matches Some(d) && d.seen_in(o.phase)
            && d.observations.at(o.phase)->0.last_seen == o.observed_at
            && d.observations.at(o.phase)->0.properties_summary == o.properties_summary
            && (o.rssi is Some ==> d.observations.at(o.phase)->0.rssi == o.rssi),
{
    law_record_touches_only_its_device(rows, o, o.key());
}

proof fn lemma_first_phase_partition(d: DeviceView)
    requires
        d.observations.first_phase() is Some,
    ensures
        (d.is_new_in(ScanPhase::Baseline) as int) + (d.is_new_in(ScanPhase::Target) as int) + (
        d.is_new_in(ScanPhase::Verification) as int) == 1,
{
}

/// Every device is newly seen in exactly one phase, so the per-phase "newly seen" counts add
/// up to the number of devices, and a device newly seen in a phase was observed in it.
pub proof fn law_newly_seen_partition(rows: Seq<DeviceView>, p: ScanPhase)
    requires
        rows_observed(rows),
    ensures
        rows_new_in(rows, ScanPhase::Baseline).len() + rows_new_in(rows, ScanPhase::Target).len()
            + rows_new_in(rows, ScanPhase::Verification).len() == rows.len(),
        rows_new_in(rows, p).len() <= rows_seen_in(rows, p).len(),
    decreases rows.len(),
{
    if rows.len() > 0 {
        let init = rows.drop_last();
        assert forall|i: int| 0 <= i < init.len() implies (#[trigger] init[i]).observations.first_phase() is Some by {
            assert(init[i] == rows[i]);
        }
        law_newly_seen_partition(init, p);
        lemma_first_phase_partition(rows.last());
    }
}

/// Recording `o` leaves its device's row with the observation's name and address where
/// those are not blank (the row's old ones, or the observation's for a new row, where they
/// are), the observation's pairing state, the device's id, kind and local-radio flag
/// (cleared for a new row), and a sighting in `o`'s phase.
pub proof fn law_record_updates_the_row(rows: Seq<DeviceView>, o: ObservationView)
    requires
        rows_sorted(rows),
        can_record_rows(rows, o),
    ensures
        lookup(record_rows(rows, o), o.key()) is Some,
        ({
            let e = lookup(record_rows(rows, o), o.key()).unwrap();
            let (old_name, old_address, old_tag) = match lookup(rows, o.key()) {
                Some(d) => (d.name, d.address, d.is_local_radio),
                None => (o.name, o.address, false),
            };
            &&& e.name == (if is_blank_seq(o.name) { old_name } else { o.name })
            &&& e.address == (if is_blank_seq(o.address) { old_address } else { o.address })
            &&& e.is_paired == o.is_paired
            &&& e.device_id == o.device_id
            &&& e.kind == o.kind
            &&& e.is_local_radio == old_tag
            &&& e.observations.at(o.phase) is Some
        }),
        ({
            let e = lookup(record_rows(rows, o), o.key()).unwrap();
            let prev = match lookup(rows, o.key()) {
                Some(d) => d.observations,
                None => PhasesView::empty(),
            };
            let now = e.observations.at(o.phase).unwrap();
            &&& now.last_seen == o.observed_at
            &&& now.properties_summary == o.properties_summary
            &&& match prev.at(o.phase) {
                Some(before) => {
                    &&& now.first_seen == before.first_seen
                    &&& now.sample_count == before.sample_count + 1
                    &&& now.rssi == (if o.rssi is Some { o.rssi } else { before.rssi })
                },
                None => {
                    &&& now.first_seen == o.observed_at
                    &&& now.sample_count == 1
                    &&& now.rssi == o.rssi
                },
            }
            &&& forall|q: ScanPhase| q != o.phase ==> #[trigger] e.observations.at(q) == prev.at(q)
        }),
{
    law_record_touches_only_its_device(rows, o, o.key());
    if has_key(rows, o.key()) {
        let i = index_of_key(rows, o.key());
        assert(rows[i].key() == o.key());
    }
    let e = lookup(record_rows(rows, o), o.key()).unwrap();
    let prev = match lookup(rows, o.key()) {
        Some(d) => d.observations,
        None => PhasesView::empty(),
    };
    assert forall|q: ScanPhase| q != o.phase implies #[trigger] e.observations.at(q) == prev.at(q) by {
        match q {
            ScanPhase::Baseline => {},
            ScanPhase::Target => {},
            ScanPhase::Verification => {},
        }
    }
}

/// The rows whose first sighting was in `phase`, picked by each row's first phase.
pub open spec fn first_seen_rows(rows: Seq<DeviceView>, phase: ScanPhase) -> Seq<DeviceView> {
    rows.filter(|d: DeviceView| d.observations.first_phase() == Some(phase))
}

/// The rows seen in `phase`, picked by whether each row has a sighting in it.
pub open spec fn seen_rows(rows: Seq<DeviceView>, phase: ScanPhase) -> Seq<DeviceView> {
    rows.filter(|d: DeviceView| d.observations.at(phase) is Some)
}

pub proof fn lemma_phase_rows_are_filters(rows: Seq<DeviceView>, phase: ScanPhase)
    ensures
        rows_new_in(rows, phase) == first_seen_rows(rows, phase),
        rows_seen_in(rows, phase) == seen_rows(rows, phase),
    decreases rows.len(),
{
    reveal(Seq::filter);
    if rows.len() > 0 {
        lemma_phase_rows_are_filters(rows.drop_last(), phase);
    }
}

/// "Newly seen" counts each device once, in the phase it was first seen in: over the three
/// phases the counts add up to the number of devices, a phase's count never exceeds the
/// number of devices seen in it, and a device seen in an earlier phase is not counted.
pub proof fn law_first_seen_counts(rows: Seq<DeviceView>, p: ScanPhase)
    requires
        rows_observed(rows),
    ensures
        first_seen_rows(rows, ScanPhase::Baseline).len() + first_seen_rows(rows, ScanPhase::Target).len()
            + first_seen_rows(rows, ScanPhase::Verification).len() == rows.len(),
        first_seen_rows(rows, p).len() <= seen_rows(rows, p).len(),
        forall|i: int|
            0 <= i < first_seen_rows(rows, p).len() ==> {
                let d = #[trigger] first_seen_rows(rows, p)[i];
                &&& d.observations.at(p) is Some
                &&& (p != ScanPhase::Baseline ==> d.observations.at(ScanPhase::Baseline) is None)
                &&& (p == ScanPhase::Verification ==> d.observations.at(ScanPhase::Target) is None)
            },
{
    lemma_phase_rows_are_filters(rows, ScanPhase::Baseline);
    lemma_phase_rows_are_filters(rows, ScanPhase::Target);
    lemma_phase_rows_are_filters(rows, ScanPhase::Verification);
    lemma_phase_rows_are_filters(rows, p);
    law_newly_seen_partition(rows, p);
    let f = first_seen_rows(rows, p);
    assert forall|i: int| 0 <= i < f.len() implies {
        let d = #[trigger] f[i];
        &&& d.observations.at(p) is Some
        &&& (p != ScanPhase::Baseline ==> d.observations.at(ScanPhase::Baseline) is None)
        &&& (p == ScanPhase::Verification ==> d.observations.at(ScanPhase::Target) is None)
    } by {
        rows.filter_lemma(|d: DeviceView| d.observations.first_phase() == Some(p));
        assert(f[i].observations.first_phase() == Some(p));
    }
}

/// Tagging the local radio changes nothing but each row's local-radio flag, which is set
/// exactly when the row's address normalizes to the (non-empty) tag.
pub proof fn law_tag_only_sets_flag(rows: Seq<DeviceView>, tag: Seq<char>, i: int)
    requires
        0 <= i < rows.len(),
    ensures
        tag_rows(rows, tag).len() == rows.len(),
        tag_rows(rows, tag)[i].is_local_radio == (tag.len() > 0 && normalized_address(rows[i].address) == tag),
        tag_rows(rows, tag)[i].key() == rows[i].key(),
        tag_rows(rows, tag)[i].observations == rows[i].observations,
        tag_rows(rows, tag)[i].name == rows[i].name,
        tag_rows(rows, tag)[i].address == rows[i].address,
{
}

/// The rows with every local-radio flag cleared.
pub open spec fn untagged(rows: Seq<DeviceView>) -> Seq<DeviceView> {
    rows.map_values(|d: DeviceView| DeviceView { is_local_radio: false, ..d })
}

/// Replaying a log always yields rows in key order.
pub proof fn lemma_replay_sorted(log: Seq<ObservationView>)
    ensures
        rows_sorted(replay(log)),
    decreases log.len(),
{
    if log.len() > 0 {
        lemma_replay_sorted(log.drop_last());
        lemma_record_rows_sorted(replay(log.drop_last()), log.last());
    }
}

/// Recording does not read the local-radio flags: recording into untagged rows gives the
/// untagged result.
pub proof fn lemma_untagged_record(rows: Seq<DeviceView>, o: ObservationView)
    requires
        rows_sorted(rows),
    ensures
        untagged(record_rows(rows, o)) == record_rows(untagged(rows), o),
{
    let u = untagged(rows);
    let k = o.key();
    assert forall|i: int| 0 <= i < rows.len() implies #[trigger] u[i].key() == rows[i].key() by {}
    assert(rows_sorted(u)) by {
        assert forall|i: int, j: int| 0 <= i < j < u.len() implies key_lt(#[trigger] u[i].key(), #[trigger] u[j].key()) by {
            assert(u[i].key() == rows[i].key());
            assert(u[j].key() == rows[j].key());
        }
    }
    if has_key(rows, k) {
        let i = index_of_key(rows, k);
        assert(rows[i].key() == k);
        assert(u[i].key() == k);
        lemma_index_of_key_unique(u, k, i);
        assert(untagged(record_rows(rows, o)) =~= record_rows(u, o));
    } else {
        assert(!has_key(u, k)) by {
            if has_key(u, k) {
                let j = index_of_key(u, k);
                assert(rows[j].key() == k);
            }
        }
        lemma_insert_pos_exists(rows, k);
        let p = insert_pos(rows, k);
        assert(is_insert_pos(u, k, p)) by {
            assert forall|i: int| 0 <= i < p implies key_lt(#[trigger] u[i].key(), k) by {
                assert(u[i].key() == rows[i].key());
            }
            assert forall|i: int| p <= i < u.len() implies key_lt(k, #[trigger] u[i].key()) by {
                assert(u[i].key() == rows[i].key());
            }
        }
        lemma_insert_pos_unique(u, k, p);
        assert(untagged(record_rows(rows, o)) =~= record_rows(u, o));
    }
}

/// Tagging changes only the local-radio flags.
pub proof fn lemma_untagged_tag(rows: Seq<DeviceView>, tag: Seq<char>)
    ensures
        untagged(tag_rows(rows, tag)) == untagged(rows),
{
    assert(untagged(tag_rows(rows, tag)) =~= untagged(rows));
}

} // verus!
