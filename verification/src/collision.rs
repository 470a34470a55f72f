//! What camera collision avoidance does for a rig each frame. The avoidance
//! itself (ray casts and distance smoothing) is float geometry outside this
//! library.
use vstd::prelude::*;
use crate::playback::CinematicPlaybackStatus;

verus! {

/// How the camera reacts when an obstacle is between it and its look target.
#[derive(Clone, Copy, Debug, PartialEq, Eq, Structural)]
pub enum CollisionPolicy {
    /// Push the camera closer to the look target along the ray.
    PushCloser,
    /// Keep recording collision data, but leave the camera where it is.
    RecordOnly,
}

impl Default for CollisionPolicy {
    fn default() -> (r: Self)
        ensures
            r == CollisionPolicy::PushCloser,
    {
        CollisionPolicy::PushCloser
    }
}

/// The collision work of one frame for one rig.
#[derive(Clone, Copy, Debug, PartialEq, Eq, Structural)]
pub enum CollisionAction {
    /// The rig is stopped: nothing is cast or recorded.
    Skip,
    /// Cast and record the collision distance, but do not move the camera.
    Record,
    /// Cast, record, and move the camera to the recorded distance.
    PushCloser,
}

/// What collision avoidance does this frame: nothing for a stopped rig;
/// otherwise it records, and moves the camera only under the push policy.
pub fn collision_action(policy: CollisionPolicy, status: CinematicPlaybackStatus) -> (r: CollisionAction)
    ensures
        r == (if status == CinematicPlaybackStatus::Stopped {
            CollisionAction::Skip
        } else if policy == CollisionPolicy::PushCloser {
            CollisionAction::PushCloser
        } else {
            CollisionAction::Record
        }),
{
    if status == CinematicPlaybackStatus::Stopped {
        CollisionAction::Skip
    } else if policy == CollisionPolicy::PushCloser {
        CollisionAction::PushCloser
    } else {
        CollisionAction::Record
    }
}

} // verus!
