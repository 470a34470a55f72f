//! Verified timing, playback and camera-ownership logic of a cinematic camera
//! toolkit: shot timelines, playback state machines and camera bindings.
pub mod time;
pub mod config;
pub mod playback;
pub mod timeline;
pub mod messages;
pub mod rig;
pub mod runtime;
pub mod diagnostics;
pub mod rail;
pub mod collision;
