//! Rig and camera-binding components, virtual-camera authoring, and which rig
//! gets to drive each camera.
//!
//! Entities (rigs and cameras) are named by their 64-bit entity bits, whose
//! order is the entity order.
use vstd::prelude::*;
use crate::playback::CinematicPlaybackStatus;

verus! {

/// The per-rig switches.
#[derive(Clone, Copy, Debug, PartialEq, Eq, Structural)]
pub struct CinematicCameraRig {
    /// Start playing the first time the runtime sees the rig.
    pub auto_play: bool,
    /// A disabled rig keeps its data but drives no camera.
    pub enabled: bool,
}

impl Default for CinematicCameraRig {
    fn default() -> (r: Self)
        ensures
            !r.auto_play,
            r.enabled,
    {
        CinematicCameraRig { auto_play: false, enabled: true }
    }
}

/// Marks a gameplay camera that receives virtual-camera output.
#[derive(Clone, Copy, Debug, PartialEq, Eq, Structural)]
pub struct CinematicCameraBrain;

/// Binds a rig to the camera it drives.
#[derive(Clone, Copy, Debug, PartialEq, Eq, Structural)]
pub struct CinematicCameraBinding {
    pub camera: u64,
    pub priority: i32,
    pub capture_gameplay_state: bool,
    pub apply_transform: bool,
    pub apply_projection: bool,
}

/// The bits of the placeholder entity, which names no real entity.
pub const PLACEHOLDER_ENTITY: u64 = 1;

impl Default for CinematicCameraBinding {
    fn default() -> (r: Self)
        ensures
            r.camera == PLACEHOLDER_ENTITY,
            r.priority == 0,
            r.capture_gameplay_state,
            r.apply_transform,
            r.apply_projection,
    {
        CinematicCameraBinding {
            camera: PLACEHOLDER_ENTITY,
            priority: 0,
            capture_gameplay_state: true,
            apply_transform: true,
            apply_projection: true,
        }
    }
}

/// The authoring surface of a virtual camera, mirrored into a rig and a binding.
#[derive(Clone, Copy, Debug, PartialEq, Eq, Structural)]
pub struct CinematicVirtualCamera {
    /// The camera entity that receives this virtual camera's output.
    pub brain: u64,
    pub priority: i32,
    pub live: bool,
    /// Boosts priority so this virtual camera wins over its siblings.
    pub solo: bool,
    pub auto_play: bool,
    pub capture_gameplay_state: bool,
    pub apply_transform: bool,
    pub apply_projection: bool,
}

impl Default for CinematicVirtualCamera {
    fn default() -> (r: Self)
        ensures
            r.brain == PLACEHOLDER_ENTITY,
            r.priority == 0,
            r.live,
            !r.solo,
            !r.auto_play,
            r.capture_gameplay_state,
            r.apply_transform,
            r.apply_projection,
    {
        CinematicVirtualCamera {
            brain: PLACEHOLDER_ENTITY,
            priority: 0,
            live: true,
            solo: false,
            auto_play: false,
            capture_gameplay_state: true,
            apply_transform: true,
            apply_projection: true,
        }
    }
}

/// The priority a solo camera is lifted to: the top priority less the size
/// of its own priority, so that of two solo cameras the one nearer zero wins.
pub open spec fn solo_lift(priority: int) -> int {
    i32::MAX as int - (if priority < 0 { -priority } else { priority })
}

/// The priority a virtual camera's binding gets. A solo camera gets its
/// lift where that raises it; where the lift would not (a priority above
/// half the top), going solo still boosts, and it gets the top priority.
/// Others keep their own.
pub open spec fn spec_resolved_priority(camera: CinematicVirtualCamera) -> int {
    if camera.solo {
        if solo_lift(camera.priority as int) > camera.priority {
            solo_lift(camera.priority as int)
        } else {
            i32::MAX as int
        }
    } else {
        camera.priority as int
    }
}

impl CinematicVirtualCamera {
    /// The priority the binding of this virtual camera gets.
    pub fn resolved_priority(&self) -> (r: i32)
        requires
            !(self.solo && self.priority == i32::MIN),
        ensures
            r as int == spec_resolved_priority(*self),
            r >= self.priority,
    {
        if self.solo {
            let magnitude: i32 = if self.priority < 0 { -self.priority } else { self.priority };
            let lifted: i32 = i32::MAX - magnitude;
            if lifted > self.priority { lifted } else { i32::MAX }
        } else {
            self.priority
        }
    }

    /// The rig switches this virtual camera stands for.
    pub fn to_rig(&self) -> (r: CinematicCameraRig)
        ensures
            r.auto_play == self.auto_play,
            r.enabled == self.live,
    {
        CinematicCameraRig { auto_play: self.auto_play, enabled: self.live }
    }

    /// The camera binding this virtual camera stands for.
    pub fn to_binding(&self) -> (r: CinematicCameraBinding)
        requires
            !(self.solo && self.priority == i32::MIN),
        ensures
            r.camera == self.brain,
            r.priority as int == spec_resolved_priority(*self),
            r.capture_gameplay_state == self.capture_gameplay_state,
            r.apply_transform == self.apply_transform,
            r.apply_projection == self.apply_projection,
    {
        CinematicCameraBinding {
            camera: self.brain,
            priority: self.resolved_priority(),
            capture_gameplay_state: self.capture_gameplay_state,
            apply_transform: self.apply_transform,
            apply_projection: self.apply_projection,
        }
    }
}

/// Marks a camera that a rig currently drives.
#[derive(Clone, Copy, Debug, PartialEq, Eq, Structural)]
pub struct CinematicDrivenCamera {
    pub owner: u64,
    pub priority: i32,
}

impl Default for CinematicDrivenCamera {
    fn default() -> (r: Self)
        ensures
            r.owner == PLACEHOLDER_ENTITY,
            r.priority == 0,
    {
        CinematicDrivenCamera { owner: PLACEHOLDER_ENTITY, priority: 0 }
    }
}

/// A rig bound to a camera, as the camera-application stage sees it this frame.
#[derive(Clone, Copy, Debug, PartialEq, Eq, Structural)]
pub struct BindingCandidate {
    pub rig: u64,
    /// The rig's enabled switch.
    pub rig_enabled: bool,
    pub binding: CinematicCameraBinding,
    pub status: CinematicPlaybackStatus,
    /// The rig's solved state is active.
    pub state_active: bool,
}

/// The rig that drives a camera this frame.
#[derive(Clone, Copy, Debug, PartialEq, Eq, Structural)]
pub struct CameraWinner {
    pub camera: u64,
    /// The position of the winning rig among the candidates.
    pub candidate: usize,
    pub owner: u64,
    pub priority: i32,
    /// The rig is not stopped, so its pose is written to the camera.
    pub should_apply: bool,
    pub apply_transform: bool,
    pub apply_projection: bool,
}

/// An enabled rig competes for its camera while its state is active or it is
/// exiting; a disabled rig never does.
pub open spec fn competes(c: BindingCandidate) -> bool {
    c.rig_enabled && (c.state_active || c.status == CinematicPlaybackStatus::Exiting)
}

/// `a` beats `b`: higher priority, or equal priority and the later entity.
pub open spec fn outranks(a: BindingCandidate, b: BindingCandidate) -> bool {
    a.binding.priority > b.binding.priority || (a.binding.priority == b.binding.priority && a.rig > b.rig)
}

/// `w` is the record of candidate `k` winning its camera.
pub open spec fn winner_of(candidates: Seq<BindingCandidate>, w: CameraWinner, k: int) -> bool {
    let c = candidates[k];
    &&& w.candidate == k
    &&& w.camera == c.binding.camera
    &&& w.owner == c.rig
    &&& w.priority == c.binding.priority
    &&& w.should_apply == (c.status != CinematicPlaybackStatus::Stopped)
    &&& w.apply_transform == c.binding.apply_transform
    &&& w.apply_projection == c.binding.apply_projection
}

/// The winners of the first `n` candidates: one per camera that a competing
/// candidate binds, each a competing candidate of that camera that no other
/// competing candidate of the camera outranks.
pub open spec fn winners_of(candidates: Seq<BindingCandidate>, n: int, winners: Seq<CameraWinner>) -> bool {
    &&& forall|i: int| 0 <= i < winners.len() ==> {
        &&& 0 <= #[trigger] winners[i].candidate < n
        &&& winner_of(candidates, winners[i], winners[i].candidate as int)
        &&& competes(candidates[winners[i].candidate as int])
        &&& forall|k: int| 0 <= k < n && competes(#[trigger] candidates[k]) && candidates[k].binding.camera == winners[i].camera
            ==> !outranks(candidates[k], candidates[winners[i].candidate as int])
    }
    &&& forall|i: int, j: int| 0 <= i < j < winners.len() ==> #[trigger] winners[i].camera != #[trigger] winners[j].camera
    &&& forall|k: int| 0 <= k < n && competes(#[trigger] candidates[k])
        ==> exists|i: int| 0 <= i < winners.len() && #[trigger] winners[i].camera == candidates[k].binding.camera
}

fn candidate_competes(c: &BindingCandidate) -> (r: bool)
    ensures
        r == competes(*c),
{
    c.rig_enabled && (c.state_active || c.status == CinematicPlaybackStatus::Exiting)
}

fn candidate_outranks(a: &BindingCandidate, b: &BindingCandidate) -> (r: bool)
    ensures
        r == outranks(*a, *b),
{
    a.binding.priority > b.binding.priority || (a.binding.priority == b.binding.priority && a.rig > b.rig)
}

fn win(candidates: &Vec<BindingCandidate>, k: usize) -> (w: CameraWinner)
    requires
        k < candidates@.len(),
    ensures
        winner_of(candidates@, w, k as int),
{
    let c = &candidates[k];
    CameraWinner {
        camera: c.binding.camera,
        candidate: k,
        owner: c.rig,
        priority: c.binding.priority,
        should_apply: c.status != CinematicPlaybackStatus::Stopped,
        apply_transform: c.binding.apply_transform,
        apply_projection: c.binding.apply_projection,
    }
}

/// Chooses, for every camera that competing rigs bind, the rig that drives it:
/// the one with the highest priority, and among equals the latest entity.
pub fn select_camera_winners(candidates: &Vec<BindingCandidate>) -> (winners: Vec<CameraWinner>)
    ensures
        winners_of(candidates@, candidates@.len() as int, winners@),
{
    let mut winners: Vec<CameraWinner> = Vec::new();
    let mut k: usize = 0;
    while k < candidates.len()
        invariant
            0 <= k <= candidates@.len(),
            winners_of(candidates@, k as int, winners@),
        decreases candidates.len() - k,
    {
        let c = &candidates[k];
        if candidate_competes(c) {
            let mut i: usize = 0;
            let mut found: Option<usize> = None;
            while i < winners.len()
                invariant
                    0 <= i <= winners@.len(),
                    match found {
                        Some(f) => f < winners@.len() && winners@[f as int].camera == c.binding.camera,
                        None => forall|j: int| 0 <= j < i ==> #[trigger] winners@[j].camera != c.binding.camera,
                    },
                decreases winners.len() - i,
            {
                if found.is_none() && winners[i].camera == c.binding.camera {
                    found = Some(i);
                }
                i = i + 1;
            }
            match found {
                None => {
                    let w = win(candidates, k);
                    let ghost before = winners@;
                    winners.push(w);
                    proof {
                        assert forall|k2: int| 0 <= k2 < k + 1 && competes(#[trigger] candidates@[k2])
                            implies exists|i2: int| 0 <= i2 < winners@.len() && #[trigger] winners@[i2].camera == candidates@[k2].binding.camera by {
                            if k2 < k {
                                let i2 = choose|i2: int| 0 <= i2 < before.len() && #[trigger] before[i2].camera == candidates@[k2].binding.camera;
                                assert(winners@[i2] == before[i2]);
                            } else {
                                assert(winners@[before.len() as int].camera == candidates@[k2].binding.camera);
                            }
                        }
                    }
                },
                Some(f) => {
                    let current = winners[f].candidate;
                    if candidate_outranks(c, &candidates[current]) {
                        let w = win(candidates, k);
                        let ghost before = winners@;
                        winners.set(f, w);
                        proof {
                            assert forall|k2: int| 0 <= k2 < k + 1 && competes(#[trigger] candidates@[k2])
                                implies exists|i2: int| 0 <= i2 < winners@.len() && #[trigger] winners@[i2].camera == candidates@[k2].binding.camera by {
                                let i2 = choose|i2: int| 0 <= i2 < before.len() && #[trigger] before[i2].camera == candidates@[k2].binding.camera;
                                assert(winners@[i2].camera == before[i2].camera);
                            }
                        }
                    } else {
                        proof {
                            assert forall|k2: int| 0 <= k2 < k + 1 && competes(#[trigger] candidates@[k2])
                                implies exists|i2: int| 0 <= i2 < winners@.len() && #[trigger] winners@[i2].camera == candidates@[k2].binding.camera by {
                                if k2 == k {
                                    assert(winners@[f as int].camera == candidates@[k2].binding.camera);
                                }
                            }
                        }
                    }
                },
            }
        }
        k = k + 1;
    }
    winners
}

/// Whether a camera that `owner` drove last frame must be released: no rig
/// drives it now, or another rig does.
pub fn should_release_camera(camera: u64, owner: u64, winners: &Vec<CameraWinner>) -> (r: bool)
    ensures
        r == !exists|i: int| 0 <= i < winners@.len() && #[trigger] winners@[i].camera == camera && winners@[i].owner == owner,
    // With distinct cameras among winners, this is: no winner for the camera, or its owner differs.
{
    let mut i: usize = 0;
    while i < winners.len()
        invariant
            0 <= i <= winners@.len(),
            forall|j: int| 0 <= j < i ==> !(#[trigger] winners@[j].camera == camera && winners@[j].owner == owner),
        decreases winners.len() - i,
    {
        if winners[i].camera == camera && winners[i].owner == owner {
            return false;
        }
        i = i + 1;
    }
    true
}

/// Going solo never lowers a virtual camera's priority and raises any
/// priority below the top, so a solo camera outranks every non-solo sibling
/// whose priority is not above its own.
pub proof fn law_solo_outranks_siblings(solo: CinematicVirtualCamera, sibling: CinematicVirtualCamera)
    requires
        solo.solo,
        !sibling.solo,
    ensures
        spec_resolved_priority(solo) >= solo.priority,
        solo.priority < i32::MAX ==> spec_resolved_priority(solo) > solo.priority,
        solo.priority < i32::MAX && sibling.priority <= solo.priority
            ==> spec_resolved_priority(solo) > spec_resolved_priority(sibling),
{
}

/// Of two solo cameras whose lifts both raise them, the one whose priority
/// lies nearer zero gets the higher priority.
pub proof fn law_solo_nearer_zero_wins(a: CinematicVirtualCamera, b: CinematicVirtualCamera)
    requires
        a.solo,
        b.solo,
        solo_lift(a.priority as int) > a.priority,
        solo_lift(b.priority as int) > b.priority,
    ensures
        (if b.priority < 0 { -b.priority } else { b.priority as int })
            < (if a.priority < 0 { -a.priority } else { a.priority as int })
            ==> spec_resolved_priority(a) < spec_resolved_priority(b),
{
}

/// A disabled rig drives no camera, even while it exits; nor does a rig that
/// neither has an active state nor is exiting.
pub proof fn law_idle_rig_drives_no_camera(candidates: Seq<BindingCandidate>, winners: Seq<CameraWinner>, k: int)
    requires
        winners_of(candidates, candidates.len() as int, winners),
        0 <= k < candidates.len(),
        !candidates[k].rig_enabled
            || (!candidates[k].state_active && candidates[k].status != CinematicPlaybackStatus::Exiting),
    ensures
        forall|i: int| 0 <= i < winners.len() ==> #[trigger] winners[i].candidate != k,
{
    assert forall|i: int| 0 <= i < winners.len() implies #[trigger] winners[i].candidate != k by {
        assert(competes(candidates[winners[i].candidate as int]));
    }
}

/// Every camera gets at most one driving rig, and a winning rig is never
/// outranked by another competing rig bound to the same camera.
pub proof fn law_one_driver_per_camera(candidates: Seq<BindingCandidate>, winners: Seq<CameraWinner>, i: int, j: int)
    requires
        winners_of(candidates, candidates.len() as int, winners),
        0 <= i < winners.len(),
        0 <= j < winners.len(),
        winners[i].camera == winners[j].camera,
    ensures
        i == j,
{
    if i < j {
        assert(winners[i].camera != winners[j].camera);
    } else if j < i {
        assert(winners[j].camera != winners[i].camera);
    }
}

/// Every rig that wins its camera writes its pose to it exactly when it is
/// not stopped: a playing, paused or exiting winner applies its pose, a
/// stopped one only holds the camera.
pub proof fn law_winner_applies_unless_stopped(candidates: Seq<BindingCandidate>, winners: Seq<CameraWinner>, i: int)
    requires
        winners_of(candidates, candidates.len() as int, winners),
        0 <= i < winners.len(),
    ensures
        ({
            let c = candidates[winners[i].candidate as int];
            &&& winners[i].should_apply <==> c.status != CinematicPlaybackStatus::Stopped
            &&& c.status == CinematicPlaybackStatus::Exiting ==> winners[i].should_apply
            &&& winners[i].owner == c.rig
            &&& winners[i].camera == c.binding.camera
        }),
{
    assert(0 <= winners[i].candidate < candidates.len());
}

/// The rig that wins a camera has the highest priority among the enabled,
/// competing rigs bound to that camera, and among those of equal priority
/// the latest entity; a disabled rig never wins.
pub proof fn law_highest_priority_wins(candidates: Seq<BindingCandidate>, winners: Seq<CameraWinner>, i: int, k: int)
    requires
        winners_of(candidates, candidates.len() as int, winners),
        0 <= i < winners.len(),
        0 <= k < candidates.len(),
        candidates[k].rig_enabled,
        candidates[k].state_active || candidates[k].status == CinematicPlaybackStatus::Exiting,
        candidates[k].binding.camera == winners[i].camera,
    ensures
        winners[i].priority >= candidates[k].binding.priority,
        winners[i].priority == candidates[k].binding.priority ==> winners[i].owner >= candidates[k].rig,
        candidates[winners[i].candidate as int].rig_enabled,
{
    assert(competes(candidates[k]));
}

} // verus!
