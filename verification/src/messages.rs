//! Messages a rig sends while it plays, and the playback commands it takes.
//!
//! Entities (rigs and cameras) are named by their 64-bit entity bits.
use vstd::prelude::*;
use crate::time::Ticks;

verus! {

/// A command to one rig's playback.
#[derive(Clone, Copy, Debug, PartialEq, Eq, Structural)]
pub enum CinematicPlaybackCommand {
    Play(u64),
    Pause(u64),
    Resume(u64),
    Restart(u64),
    Stop { rig: u64, restore_camera: bool },
    SeekSeconds { rig: u64, seconds: Ticks },
    /// Seeks to a fraction of the sequence, in millionths.
    SeekNormalized { rig: u64, normalized: i64 },
}

impl CinematicPlaybackCommand {
    pub open spec fn spec_rig(self) -> u64 {
        match self {
            CinematicPlaybackCommand::Play(rig) => rig,
            CinematicPlaybackCommand::Pause(rig) => rig,
            CinematicPlaybackCommand::Resume(rig) => rig,
            CinematicPlaybackCommand::Restart(rig) => rig,
            CinematicPlaybackCommand::Stop { rig, .. } => rig,
            CinematicPlaybackCommand::SeekSeconds { rig, .. } => rig,
            CinematicPlaybackCommand::SeekNormalized { rig, .. } => rig,
        }
    }

    /// The rig the command is addressed to.
    pub fn rig(&self) -> (r: u64)
        ensures
            r == self.spec_rig(),
    {
        match *self {
            CinematicPlaybackCommand::Play(rig) => rig,
            CinematicPlaybackCommand::Pause(rig) => rig,
            CinematicPlaybackCommand::Resume(rig) => rig,
            CinematicPlaybackCommand::Restart(rig) => rig,
            CinematicPlaybackCommand::Stop { rig, .. } => rig,
            CinematicPlaybackCommand::SeekSeconds { rig, .. } => rig,
            CinematicPlaybackCommand::SeekNormalized { rig, .. } => rig,
        }
    }
}

/// A shot became the one the timeline is in.
#[derive(Clone, Debug)]
pub struct ShotStarted {
    pub rig: u64,
    pub shot_index: usize,
    pub shot_name: String,
}

/// A shot reached its end.
#[derive(Clone, Debug)]
pub struct ShotFinished {
    pub rig: u64,
    pub shot_index: usize,
    pub shot_name: String,
}

/// A named marker of a shot was passed.
#[derive(Clone, Debug)]
pub struct ShotMarkerReached {
    pub rig: u64,
    pub shot_index: usize,
    pub shot_name: String,
    pub marker_name: String,
}

/// A play-once sequence reached its end.
#[derive(Clone, Copy, Debug, PartialEq, Eq, Structural)]
pub struct SequenceFinished {
    pub rig: u64,
}

/// Which transition a completed blend was.
#[derive(Clone, Copy, Debug, PartialEq, Eq, Structural)]
pub enum CinematicBlendKind {
    GameplayToCinematic { to_shot: Option<usize> },
    ShotToShot { from_shot: usize, to_shot: usize },
    CinematicToGameplay { from_shot: Option<usize> },
}

/// A blend finished.
#[derive(Clone, Copy, Debug, PartialEq, Eq, Structural)]
pub struct CinematicBlendCompleted {
    pub rig: u64,
    pub kind: CinematicBlendKind,
}

/// Any message a rig sends in a frame.
#[derive(Clone, Debug)]
pub enum RigMessage {
    ShotStarted(ShotStarted),
    ShotFinished(ShotFinished),
    ShotMarkerReached(ShotMarkerReached),
    SequenceFinished(SequenceFinished),
    BlendCompleted(CinematicBlendCompleted),
}

} // verus!
