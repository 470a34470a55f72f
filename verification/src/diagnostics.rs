//! Runtime counters published for tools and debugging.
use vstd::prelude::*;
use crate::playback::CinematicPlaybackStatus;

verus! {

/// What the runtime reports about itself each frame.
#[derive(Clone, Copy, Debug, PartialEq, Eq, Structural)]
pub struct CinematicCameraDiagnostics {
    /// Rigs whose playback is not stopped.
    pub active_rigs: usize,
    /// Rigs that hold a sequence.
    pub previewable_rigs: usize,
    /// Cameras a rig currently drives.
    pub applied_cameras: usize,
    /// Entities whose motion is being tracked for look-ahead.
    pub target_history_entries: usize,
}

impl Default for CinematicCameraDiagnostics {
    fn default() -> (r: Self)
        ensures
            r.active_rigs == 0,
            r.previewable_rigs == 0,
            r.applied_cameras == 0,
            r.target_history_entries == 0,
    {
        CinematicCameraDiagnostics { active_rigs: 0, previewable_rigs: 0, applied_cameras: 0, target_history_entries: 0 }
    }
}

pub open spec fn is_running(status: CinematicPlaybackStatus) -> bool {
    status != CinematicPlaybackStatus::Stopped
}

impl CinematicCameraDiagnostics {
    /// The counters for the playback statuses of all sequence rigs, the number
    /// of driven cameras and the number of tracked targets.
    pub fn collect(statuses: &Vec<CinematicPlaybackStatus>, applied_cameras: usize, target_history_entries: usize) -> (r: Self)
        ensures
            r.previewable_rigs == statuses@.len(),
            r.active_rigs == statuses@.filter(|s: CinematicPlaybackStatus| is_running(s)).len(),
            r.applied_cameras == applied_cameras,
            r.target_history_entries == target_history_entries,
    {
        let ghost pred = |s: CinematicPlaybackStatus| is_running(s);
        let mut active: usize = 0;
        let mut i: usize = 0;
        proof {
            reveal(Seq::filter);
            assert(statuses@.take(0).filter(pred) =~= Seq::<CinematicPlaybackStatus>::empty());
        }
        while i < statuses.len()
            invariant
                0 <= i <= statuses@.len(),
                pred == (|s: CinematicPlaybackStatus| is_running(s)),
                active == statuses@.take(i as int).filter(pred).len(),
                active <= i,
            decreases statuses.len() - i,
        {
            proof {
                let s = statuses@.take(i + 1);
                reveal(Seq::filter);
                assert(s.drop_last() =~= statuses@.take(i as int));
                assert(s.last() == statuses@[i as int]);
            }
            if statuses[i] != CinematicPlaybackStatus::Stopped {
                active = active + 1;
            }
            i = i + 1;
        }
        proof { assert(statuses@.take(statuses@.len() as int) =~= statuses@); }
        CinematicCameraDiagnostics {
            active_rigs: active,
            previewable_rigs: statuses.len(),
            applied_cameras,
            target_history_entries,
        }
    }
}

} // verus!
