//! A capture session: case metadata, the host adapter, every phase run, the
//! device registry, and the append-only raw audit log.

use vstd::prelude::*;
use crate::models::{CaseMetadata, HostAdapterInfo, ScanPhase, ScanPhaseRun};
use crate::registry::{can_record_rows, record_rows, replay, DeviceRegistry, DeviceView, ObservationView, RawObservation};

verus! {

#[derive(Debug, Clone)]
pub struct CaptureSession {
    pub metadata: CaseMetadata,
    pub host: HostAdapterInfo,
    pub phase_runs: Vec<ScanPhaseRun>,
    pub registry: DeviceRegistry,
    pub raw_log: Vec<RawObservation>,
}

pub open spec fn observation_views(log: Seq<RawObservation>) -> Seq<ObservationView> {
    log.map_values(|o: RawObservation| o@)
}

/// The position of the latest run of `phase`, if any.
pub open spec fn last_run_of(runs: Seq<ScanPhaseRun>, phase: ScanPhase) -> Option<int>
    decreases runs.len(),
{
    if runs.len() == 0 {
        None
    } else if runs.last().phase == phase {
        Some(runs.len() - 1)
    } else {
        last_run_of(runs.drop_last(), phase)
    }
}

impl CaptureSession {
    /// The registry is exactly the fold of the raw log, in order.
    pub open spec fn registry_matches_log(&self) -> bool {
        self.registry@ == replay(observation_views(self.raw_log@))
    }

    pub fn new(metadata: CaseMetadata, host: HostAdapterInfo) -> (s: CaptureSession)
        ensures
            s.metadata == metadata,
            s.host == host,
            s.phase_runs@.len() == 0,
            s.raw_log@.len() == 0,
            s.registry.wf(),
            s.registry@ == Seq::<DeviceView>::empty(),
            s.registry_matches_log(),
    {
        let s = CaptureSession {
            metadata,
            host,
            phase_runs: Vec::new(),
            registry: DeviceRegistry::new(),
            raw_log: Vec::new(),
        };
        assert(observation_views(s.raw_log@) =~= Seq::<ObservationView>::empty());
        s
    }

    /// Folds the observation into the registry and appends it to the raw log.
    pub fn record(&mut self, observation: RawObservation)
        requires
            old(self).registry.wf(),
            can_record_rows(old(self).registry@, observation@),
        ensures
            final(self).registry.wf(),
            final(self).registry@ == record_rows(old(self).registry@, observation@),
            final(self).raw_log@ == old(self).raw_log@.push(observation),
            final(self).phase_runs@ == old(self).phase_runs@,
            final(self).metadata == old(self).metadata,
            final(self).host == old(self).host,
            old(self).registry_matches_log() ==> final(self).registry_matches_log(),
    {
        self.registry.record(&observation);
        self.raw_log.push(observation);
        proof {
            let log = self.raw_log@;
            assert(observation_views(log).drop_last() =~= observation_views(old(self).raw_log@));
        }
    }

    /// Clears every phase run, the registry and the raw log; metadata and host stay.
    pub fn reset_capture(&mut self)
        ensures
            final(self).phase_runs@.len() == 0,
            final(self).raw_log@.len() == 0,
            final(self).registry.wf(),
            final(self).registry@ == Seq::<DeviceView>::empty(),
            final(self).metadata == old(self).metadata,
            final(self).host == old(self).host,
            final(self).registry_matches_log(),
    {
        self.phase_runs.clear();
        self.registry.clear();
        self.raw_log.clear();
        assert(observation_views(self.raw_log@) =~= Seq::<ObservationView>::empty());
    }

    /// The latest run of `phase`, if it has run.
    pub fn phase_run_for(&self, phase: ScanPhase) -> (r: Option<&ScanPhaseRun>)
        ensures
            match last_run_of(self.phase_runs@, phase) {
                Some(i) => r == Some(&self.phase_runs@[i]),
                None => r is None,
            },
    {
        let mut i = self.phase_runs.len();
        assert(self.phase_runs@.subrange(0, i as int) =~= self.phase_runs@);
        while i > 0
            invariant
                i <= self.phase_runs@.len(),
                last_run_of(self.phase_runs@, phase) == last_run_of(self.phase_runs@.subrange(0, i as int), phase),
            decreases i,
        {
            let run = &self.phase_runs[i - 1];
            assert(self.phase_runs@.subrange(0, i as int).drop_last() =~= self.phase_runs@.subrange(0, i - 1));
            if run.phase == phase {
                return Some(run);
            }
            i -= 1;
        }
        None
    }
}

/// The raw log is append-only and the registry is always its fold: recording appends
/// exactly the observation to the log, and replaying the longer log gives the new registry.
pub proof fn law_registry_is_fold_of_log(log: Seq<ObservationView>, o: ObservationView)
    ensures
        replay(log.push(o)) == record_rows(replay(log), o),
        replay(Seq::<ObservationView>::empty()) == Seq::<DeviceView>::empty(),
{
    assert(log.push(o).drop_last() =~= log);
}

} // verus!
