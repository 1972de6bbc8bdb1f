//! What the capture view's device table shows: which devices pass the search text and
//! kind filter, and how each phase of a row is marked.

use vstd::prelude::*;
use crate::models::ScanPhase;
use crate::registry::{device_views, DeviceRecord, DeviceView};
use crate::session::{last_run_of, CaptureSession};
use crate::text::{chars_of, is_blank, is_blank_seq, trim, trimmed};
use crate::ui::KindFilter;

verus! {

/// What `str::to_lowercase` gives for the text (the Unicode lowercase mapping).
pub uninterp spec fn lowercase(text: Seq<char>) -> Seq<char>;

/// `str::to_lowercase`. Claims only that the result is the named lowercase form of
/// exactly the argument.
#[verifier::external_body]
fn to_lowercase(text: &str) -> (r: String)
    ensures
        r@ == lowercase(text@),
{
    text.to_lowercase()
}

/// Whether `needle` occurs in `hay` as a contiguous run of characters (`str::contains`).
pub open spec fn contains_text(hay: Seq<char>, needle: Seq<char>) -> bool {
    exists|i: int| 0 <= i <= hay.len() - needle.len() && #[trigger] hay.subrange(i, i + needle.len()) == needle
}

fn occurs_at(hay: &Vec<char>, needle: &Vec<char>, at: usize) -> (b: bool)
    requires
        at + needle@.len() <= hay@.len(),
    ensures
        b == (hay@.subrange(at as int, at + needle@.len()) == needle@),
{
    let hl = hay.len();
    let mut k: usize = 0;
    while k < needle.len()
        invariant
            k <= needle@.len(),
            at + needle@.len() <= hay@.len(),
            hl == hay@.len(),
            forall|j: int| 0 <= j < k ==> hay@[at + j] == needle@[j],
        decreases needle.len() - k,
    {
        if hay[at + k] != needle[k] {
            assert(hay@.subrange(at as int, at + needle@.len())[k as int] != needle@[k as int]);
            return false;
        }
        k += 1;
    }
    assert(hay@.subrange(at as int, at + needle@.len()) =~= needle@);
    true
}

pub fn text_contains(hay: &str, needle: &str) -> (b: bool)
    ensures
        b == contains_text(hay@, needle@),
{
    let h = chars_of(hay);
    let n = chars_of(needle);
    if n.len() > h.len() {
        return false;
    }
    if n.len() == 0 {
        assert(hay@.subrange(0int, 0int + needle@.len()) =~= needle@);
        return true;
    }
    let last = h.len() - n.len();
    assert(last < usize::MAX);
    let mut i: usize = 0;
    while i <= last
        invariant
            last < usize::MAX,
            h@ == hay@,
            n@ == needle@,
            last == h@.len() - n@.len(),
            forall|j: int| 0 <= j < i ==> #[trigger] h@.subrange(j, j + n@.len()) != n@,
        decreases last + 1 - i,
    {
        if occurs_at(&h, &n, i) {
            return true;
        }
        i += 1;
    }
    false
}

/// The search text as devices are matched against it: trimmed and lowercased.
pub open spec fn search_needle(filter_text: Seq<char>) -> Seq<char> {
    lowercase(trimmed(filter_text))
}

/// A device passes when the kind filter admits it and the search text is empty or occurs,
/// ignoring case, in its name, address or device id.
pub open spec fn device_matches(d: DeviceView, needle: Seq<char>, kind_filter: KindFilter) -> bool {
    &&& kind_filter.spec_admits(d.kind)
    &&& {
        ||| needle.len() == 0
        ||| contains_text(lowercase(d.name), needle)
        ||| contains_text(lowercase(d.address), needle)
        ||| contains_text(lowercase(d.device_id), needle)
    }
}

fn device_passes(d: &DeviceRecord, needle: &str, kind_filter: KindFilter) -> (b: bool)
    ensures
        b == device_matches(d@, needle@, kind_filter),
{
    if !kind_filter.admits(d.kind) {
        return false;
    }
    if needle.is_empty() {
        return true;
    }
    let name = to_lowercase(d.name.as_str());
    if text_contains(name.as_str(), needle) {
        return true;
    }
    let address = to_lowercase(d.address.as_str());
    if text_contains(address.as_str(), needle) {
        return true;
    }
    let id = to_lowercase(d.device_id.as_str());
    text_contains(id.as_str(), needle)
}

/// The registry rows the device table shows, in registry order.
pub fn filtered_devices<'a>(session: &'a CaptureSession, filter_text: &str, kind_filter: KindFilter) -> (r: Vec<
    &'a DeviceRecord,
>)
    ensures
        device_views(r@) == session.registry@.filter(
            |d: DeviceView| device_matches(d, search_needle(filter_text@), kind_filter),
        ),
{
    let trimmed_text = trim(filter_text);
    let needle = to_lowercase(trimmed_text.as_str());
    let ghost pred = |d: DeviceView| device_matches(d, search_needle(filter_text@), kind_filter);
    let all = session.registry.devices();
    let ghost rows = device_views(all@);
    let mut r: Vec<&'a DeviceRecord> = Vec::new();
    let mut i: usize = 0;
    proof {
        reveal(Seq::filter);
        assert(rows.subrange(0, 0) =~= Seq::<DeviceView>::empty());
        assert(device_views(r@) =~= rows.subrange(0, 0).filter(pred));
    }
    while i < all.len()
        invariant
            i <= all@.len(),
            rows == device_views(all@),
            needle@ == search_needle(filter_text@),
            pred == (|d: DeviceView| device_matches(d, search_needle(filter_text@), kind_filter)),
            device_views(r@) == rows.subrange(0, i as int).filter(pred),
        decreases all.len() - i,
    {
        let d = all[i];
        let pass = device_passes(d, needle.as_str(), kind_filter);
        proof {
            reveal(Seq::filter);
            assert(rows.subrange(0, i + 1).drop_last() =~= rows.subrange(0, i as int));
            assert(rows.subrange(0, i + 1).last() == d@);
        }
        if pass {
            r.push(d);
            assert(device_views(r@) =~= rows.subrange(0, i + 1).filter(pred));
        }
        i += 1;
    }
    assert(rows.subrange(0, i as int) =~= rows);
    r
}

/// A registry row is among the devices the table shows exactly when the kind filter
/// admits its kind and the search text, trimmed and lowercased, is empty or occurs in the
/// lowercased name, the lowercased address or the lowercased device id. Case is ignored in
/// all three fields alike.
pub proof fn law_search_ignores_case(rows: Seq<DeviceView>, filter_text: Seq<char>, kind_filter: KindFilter, i: int)
    requires
        0 <= i < rows.len(),
    ensures
        ({
            let row = rows[i];
            let needle = lowercase(trimmed(filter_text));
            rows.filter(|x: DeviceView| device_matches(x, search_needle(filter_text), kind_filter)).contains(row) <==> {
                &&& kind_filter.spec_admits(row.kind)
                &&& {
                    ||| needle.len() == 0
                    ||| contains_text(lowercase(row.name), needle)
                    ||| contains_text(lowercase(row.address), needle)
                    ||| contains_text(lowercase(row.device_id), needle)
                }
            }
        }),
{
    let pred = |x: DeviceView| device_matches(x, search_needle(filter_text), kind_filter);
    let f = rows.filter(pred);
    rows.filter_lemma(pred);
    if f.contains(rows[i]) {
        let k = choose|k: int| 0 <= k < f.len() && f[k] == rows[i];
        assert(pred(f[k]));
    }
}

/// How a row marks one phase: seen in it, missed though the phase ran, or not yet run.
#[derive(Debug, Clone, Copy, PartialEq, Eq, Structural)]
pub enum MarkerState {
    Seen,
    Missed,
    Pending,
}

pub open spec fn spec_marker_state(d: DeviceView, runs: Seq<crate::models::ScanPhaseRun>, phase: ScanPhase) -> MarkerState {
    if d.observations.at(phase) is Some {
        MarkerState::Seen
    } else if last_run_of(runs, phase) is Some {
        MarkerState::Missed
    } else {
        MarkerState::Pending
    }
}

pub fn marker_state(session: &CaptureSession, d: &DeviceRecord, phase: ScanPhase) -> (m: MarkerState)
    ensures
        m == spec_marker_state(d@, session.phase_runs@, phase),
{
    if d.seen_in(phase).is_some() {
        MarkerState::Seen
    } else if session.phase_run_for(phase).is_some() {
        MarkerState::Missed
    } else {
        MarkerState::Pending
    }
}

pub open spec fn empty_state_text(filter_text: Seq<char>) -> (Seq<char>, Seq<char>) {
    if is_blank_seq(filter_text) {
        ("No devices recorded yet"@, "Start the active scan phase to populate this registry."@)
    } else {
        (
            "No devices match the current filter"@,
            "Adjust the search text or device type filters to widen the results."@,
        )
    }
}

/// The title and detail shown when the table has no rows.
pub fn empty_state(filter_text: &str) -> (r: (&'static str, &'static str))
    ensures
        (r.0@, r.1@) == empty_state_text(filter_text@),
{
    if is_blank(filter_text) {
        ("No devices recorded yet", "Start the active scan phase to populate this registry.")
    } else {
        ("No devices match the current filter", "Adjust the search text or device type filters to widen the results.")
    }
}

} // verus!
