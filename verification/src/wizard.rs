//! The case wizard's form: what it starts with, which case details it yields and when
//! a scan may begin.

use vstd::prelude::*;
use crate::models::{CaseMetadata, HostAdapterInfo};
use crate::text::{is_blank, is_blank_seq, trim, trimmed};
use crate::time::{local_date_days, parsed_date, valid_clock_reading, CaseDate, Timestamp};

verus! {

/// The wizard's editable fields, as the operator typed them.
pub struct WizardState {
    pub date: String,
    pub name: String,
    pub section: String,
    pub user: String,
    pub computer_name: String,
    pub host_name: String,
    pub host_address: String,
}

/// What the wizard asks of the application after a frame.
pub enum WizardAction {
    Idle,
    Begin { metadata: CaseMetadata, host: HostAdapterInfo },
}

/// The date field's initial text for a local clock reading: today's date, `YYYY-MM-DD`.
pub open spec fn today_text(now: Timestamp) -> Seq<char> {
    match local_date_days(now.unix_seconds, now.nanos, now.offset_seconds) {
        Some(d) => CaseDate { days_from_ce: d }.text(),
        None => Seq::empty(),
    }
}

/// The computer name the wizard proposes: the adapter's own, unless that is blank, then
/// the name detected from the environment, trimmed.
pub open spec fn proposed_computer_name(host: HostAdapterInfo, detected: Seq<char>) -> Seq<char> {
    if is_blank_seq(host.computer_name@) {
        trimmed(detected)
    } else {
        host.computer_name@
    }
}

impl WizardState {
    /// The form for `host` with the date field set to `date`.
    pub fn with_date(host: HostAdapterInfo, date: String, detected_computer_name: &str) -> (w: WizardState)
        ensures
            w.date@ == date@,
            w.name@ == Seq::<char>::empty(),
            w.section@ == Seq::<char>::empty(),
            w.user@ == Seq::<char>::empty(),
            w.computer_name@ == proposed_computer_name(host, detected_computer_name@),
            w.host_name@ == host.name@,
            w.host_address@ == host.address@,
    {
        let computer_name = if is_blank(host.computer_name.as_str()) {
            trim(detected_computer_name)
        } else {
            host.computer_name
        };
        WizardState {
            date,
            name: String::new(),
            section: String::new(),
            user: String::new(),
            computer_name,
            host_name: host.name,
            host_address: host.address,
        }
    }

    /// The form for `host`, dated today by the local clock.
    pub fn new(host: HostAdapterInfo, detected_computer_name: &str) -> (w: WizardState)
        ensures
            exists|now: Timestamp| valid_clock_reading(now) && w.date@ == today_text(now),
            w.name@ == Seq::<char>::empty(),
            w.section@ == Seq::<char>::empty(),
            w.user@ == Seq::<char>::empty(),
            w.computer_name@ == proposed_computer_name(host, detected_computer_name@),
            w.host_name@ == host.name@,
            w.host_address@ == host.address@,
    {
        let now = Timestamp::now();
        let date = match now.local_date() {
            Some(d) => d.format(),
            None => String::new(),
        };
        assert(date@ == today_text(now));
        WizardState::with_date(host, date, detected_computer_name)
    }

    /// The day count of the date field, trimmed and read as `YYYY-MM-DD`, if it parses.
    pub open spec fn spec_date(&self) -> Option<i32> {
        parsed_date(trimmed(self.date@), "%Y-%m-%d"@)
    }

    /// The case details the form holds: available once the date parses; every text
    /// field trimmed.
    pub fn metadata(&self) -> (m: Option<CaseMetadata>)
        ensures
            m is Some <==> self.spec_date() is Some,
            m matches Some(md) ==> {
                &&& self.spec_date() == Some(md.date.days_from_ce)
                &&& md.name@ == trimmed(self.name@)
                &&& md.section@ == trimmed(self.section@)
                &&& md.user@ == trimmed(self.user@)
            },
    {
        let date_text = trim(self.date.as_str());
        match CaseDate::parse(date_text.as_str()) {
            Some(date) => Some(
                CaseMetadata {
                    date,
                    name: trim(self.name.as_str()),
                    section: trim(self.section.as_str()),
                    user: trim(self.user.as_str()),
                },
            ),
            None => None,
        }
    }

    /// Whether the Begin Scan button is enabled: the date parses and the scan and target
    /// references are not blank.
    pub open spec fn spec_can_begin(&self) -> bool {
        &&& self.spec_date() is Some
        &&& !is_blank_seq(trimmed(self.name@))
        &&& !is_blank_seq(trimmed(self.section@))
    }

    pub fn can_begin(&self) -> (b: bool)
        ensures
            b == self.spec_can_begin(),
    {
        match self.metadata() {
            Some(m) => m.is_complete(),
            None => false,
        }
    }

    /// What pressing Begin Scan does: when enabled, begins with the case details and the
    /// host adapter fields, trimmed; otherwise nothing.
    pub fn begin(&self) -> (a: WizardAction)
        ensures
            a is Begin <==> self.spec_can_begin(),
            a matches WizardAction::Begin { metadata, host } ==> {
                &&& self.spec_date() == Some(metadata.date.days_from_ce)
                &&& metadata.name@ == trimmed(self.name@)
                &&& metadata.section@ == trimmed(self.section@)
                &&& metadata.user@ == trimmed(self.user@)
                &&& host.name@ == trimmed(self.host_name@)
                &&& host.address@ == trimmed(self.host_address@)
                &&& host.computer_name@ == trimmed(self.computer_name@)
            },
    {
        match self.metadata() {
            Some(metadata) => {
                if metadata.is_complete() {
                    WizardAction::Begin {
                        metadata,
                        host: HostAdapterInfo {
                            name: trim(self.host_name.as_str()),
                            address: trim(self.host_address.as_str()),
                            computer_name: trim(self.computer_name.as_str()),
                        },
                    }
                } else {
                    WizardAction::Idle
                }
            },
            None => WizardAction::Idle,
        }
    }
}

} // verus!
