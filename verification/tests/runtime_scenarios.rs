use saddle_camera_cinematic_camera::config::{CinematicBlend, CinematicEasing, MarkerTime, PlaybackLoopMode, ShotMarker};
use saddle_camera_cinematic_camera::messages::{CinematicBlendKind, CinematicPlaybackCommand, RigMessage};
use saddle_camera_cinematic_camera::playback::{CinematicPlayback, CinematicPlaybackStatus};
use saddle_camera_cinematic_camera::rig::{
    select_camera_winners, should_release_camera, BindingCandidate, CinematicCameraBinding, CinematicCameraRig,
    CinematicVirtualCamera,
};
use saddle_camera_cinematic_camera::runtime::{
    advance_rig, apply_playback_command, autoplay_rig, gameplay_snapshot, plan_rig_solve, CinematicRuntime, PoseOverlay,
    PosePlan,
};
use saddle_camera_cinematic_camera::time::{Ticks, TICKS_PER_SECOND};
use saddle_camera_cinematic_camera::timeline::{CinematicSequenceCache, SequenceTiming, ShotTiming};

const FRAME: Ticks = 100_000;
const RIG: u64 = 42;
const CAMERA: u64 = 7;

fn secs(s: f64) -> Ticks {
    (s * TICKS_PER_SECOND as f64).round() as Ticks
}

fn fixed_shot(name: &str, duration: Ticks) -> ShotTiming {
    ShotTiming { name: name.to_string(), duration, blend_in: CinematicBlend::default(), markers: Vec::new() }
}

fn sequence(shots: Vec<ShotTiming>) -> SequenceTiming {
    SequenceTiming {
        shots,
        loop_mode: PlaybackLoopMode::Once,
        restore_camera_on_finish: false,
        entry_blend: CinematicBlend::default(),
        exit_blend: CinematicBlend::default(),
    }
}

/// A stand-in for a captured camera pose.
#[derive(Clone, Copy, Debug, PartialEq)]
struct Pose(i32);

#[test]
fn seek_normalized_uses_cached_total_duration_instead_of_shot_sum() {
    let mut close_up = fixed_shot("Close Up", secs(2.0));
    close_up.blend_in = CinematicBlend { duration: secs(0.5), ..CinematicBlend::default() };
    let seq = sequence(vec![fixed_shot("Intro", secs(2.0)), close_up]);
    let cache = CinematicSequenceCache::rebuild(&seq);
    assert_eq!(cache.total_duration, secs(3.5));

    let mut playback = CinematicPlayback::default();
    let mut runtime: CinematicRuntime<Pose> = CinematicRuntime::new();
    apply_playback_command(
        &CinematicPlaybackCommand::SeekNormalized { rig: RIG, normalized: 1_000_000 },
        cache.total_duration,
        &mut playback,
        &mut runtime,
        None,
        Pose(0),
    );
    assert_eq!(playback.elapsed, secs(3.5));
    assert!(runtime.suppress_events_once);
}

#[test]
fn autoplay_advances_sequence_time() {
    let seq = sequence(vec![fixed_shot("A", secs(1.0))]);
    let cache = CinematicSequenceCache::rebuild(&seq);
    let rig = CinematicCameraRig { auto_play: true, enabled: true };
    let mut playback = CinematicPlayback::default();
    let mut runtime: CinematicRuntime<Pose> = CinematicRuntime::new();
    autoplay_rig(&rig, &mut playback, &mut runtime, None);
    advance_rig(RIG, &seq, &cache, &mut playback, &mut runtime, None, Pose(0), FRAME);
    assert!(playback.elapsed > 0);
}

#[test]
fn autoplay_emits_first_shot_and_time_zero_marker() {
    let mut intro = fixed_shot("Intro", secs(1.0));
    intro.markers.push(ShotMarker { name: "frame_zero".to_string(), at: MarkerTime::Seconds(0) });
    let seq = sequence(vec![intro]);
    let cache = CinematicSequenceCache::rebuild(&seq);
    let rig = CinematicCameraRig { auto_play: true, enabled: true };
    let mut playback = CinematicPlayback::default();
    let mut runtime: CinematicRuntime<Pose> = CinematicRuntime::new();
    autoplay_rig(&rig, &mut playback, &mut runtime, None);
    let messages = advance_rig(RIG, &seq, &cache, &mut playback, &mut runtime, None, Pose(0), FRAME);

    assert!(messages.iter().any(|m| matches!(m,
        RigMessage::ShotStarted(s) if s.rig == RIG && s.shot_index == 0 && s.shot_name == "Intro")));
    assert!(messages.iter().any(|m| matches!(m,
        RigMessage::ShotMarkerReached(s) if s.rig == RIG && s.shot_index == 0 && s.shot_name == "Intro"
            && s.marker_name == "frame_zero")));
}

#[test]
fn stop_with_restore_returns_camera_to_snapshot_and_releases_owner() {
    let mut seq = sequence(vec![fixed_shot("Reveal", secs(0.5))]);
    seq.entry_blend = CinematicBlend::instant();
    seq.exit_blend = CinematicBlend { duration: secs(0.25), ..CinematicBlend::default() };
    let cache = CinematicSequenceCache::rebuild(&seq);
    let rig = CinematicCameraRig { auto_play: true, enabled: true };
    let binding = CinematicCameraBinding { camera: CAMERA, ..CinematicCameraBinding::default() };
    let mut playback = CinematicPlayback::default();
    let mut runtime: CinematicRuntime<Pose> = CinematicRuntime::new();
    let gameplay = Pose(1);

    autoplay_rig(&rig, &mut playback, &mut runtime, Some(gameplay));
    advance_rig(RIG, &seq, &cache, &mut playback, &mut runtime, None, Pose(2), FRAME);
    let plan = plan_rig_solve(RIG, rig.enabled, &seq, &cache, &playback, &mut runtime);
    assert!(plan.active);
    let winners = select_camera_winners(&vec![BindingCandidate {
        rig: RIG,
        rig_enabled: rig.enabled,
        binding,
        status: playback.status,
        state_active: plan.active,
    }]);
    assert_eq!(winners.len(), 1);
    assert_eq!(winners[0].owner, RIG);
    assert!(winners[0].should_apply);

    apply_playback_command(
        &CinematicPlaybackCommand::Stop { rig: RIG, restore_camera: true },
        cache.total_duration,
        &mut playback,
        &mut runtime,
        None,
        Pose(2),
    );
    assert_eq!(playback.status, CinematicPlaybackStatus::Exiting);
    assert_eq!(runtime.exit_pose, Some(Pose(2)));

    let mut all_messages = Vec::new();
    for _ in 0..5 {
        let plan = plan_rig_solve(RIG, rig.enabled, &seq, &cache, &playback, &mut runtime);
        if playback.status == CinematicPlaybackStatus::Exiting {
            assert!(matches!(plan.overlay, PoseOverlay::Exit { .. }));
        }
        all_messages.extend(advance_rig(RIG, &seq, &cache, &mut playback, &mut runtime, plan.current_shot, Pose(2), FRAME));
        if playback.status == CinematicPlaybackStatus::Stopped {
            break;
        }
    }
    assert_eq!(playback.status, CinematicPlaybackStatus::Stopped);
    assert_eq!(runtime.captured_snapshot, Some(gameplay));
    assert!(all_messages.iter().any(|m| matches!(m,
        RigMessage::BlendCompleted(b) if b.rig == RIG
            && b.kind == CinematicBlendKind::CinematicToGameplay { from_shot: Some(0) })));

    let plan = plan_rig_solve(RIG, rig.enabled, &seq, &cache, &playback, &mut runtime);
    assert!(!plan.active);
    let winners = select_camera_winners(&vec![BindingCandidate {
        rig: RIG,
        rig_enabled: rig.enabled,
        binding,
        status: playback.status,
        state_active: plan.active,
    }]);
    assert!(winners.is_empty());
    assert!(should_release_camera(CAMERA, RIG, &winners));
}

#[test]
fn restart_from_stopped_recaptures_current_gameplay_snapshot() {
    let mut seq = sequence(vec![fixed_shot("Reveal", secs(0.3))]);
    seq.restore_camera_on_finish = true;
    seq.entry_blend = CinematicBlend::instant();
    seq.exit_blend = CinematicBlend::instant();
    let cache = CinematicSequenceCache::rebuild(&seq);
    let mut playback = CinematicPlayback::default();
    let mut runtime: CinematicRuntime<Pose> = CinematicRuntime::new();
    let first_gameplay = Pose(10);
    let updated = Pose(20);

    apply_playback_command(&CinematicPlaybackCommand::Play(RIG), cache.total_duration, &mut playback, &mut runtime, Some(first_gameplay), Pose(0));
    assert_eq!(runtime.captured_snapshot, Some(first_gameplay));
    advance_rig(RIG, &seq, &cache, &mut playback, &mut runtime, None, Pose(0), FRAME);
    apply_playback_command(
        &CinematicPlaybackCommand::Stop { rig: RIG, restore_camera: false },
        cache.total_duration,
        &mut playback,
        &mut runtime,
        None,
        Pose(0),
    );
    assert_eq!(playback.status, CinematicPlaybackStatus::Stopped);

    apply_playback_command(&CinematicPlaybackCommand::Restart(RIG), cache.total_duration, &mut playback, &mut runtime, Some(updated), Pose(0));
    for _ in 0..8 {
        advance_rig(RIG, &seq, &cache, &mut playback, &mut runtime, Some(0), Pose(0), FRAME);
        if playback.status == CinematicPlaybackStatus::Stopped {
            break;
        }
    }
    assert_eq!(playback.status, CinematicPlaybackStatus::Stopped);
    assert_eq!(runtime.captured_snapshot, Some(updated));
    assert_ne!(runtime.captured_snapshot, Some(first_gameplay));
}

#[test]
fn virtual_camera_authoring_creates_runtime_rig_and_binding() {
    let camera = bevy::prelude::Entity::from_raw_u32(3).unwrap().to_bits();
    let virtual_camera = CinematicVirtualCamera {
        brain: camera,
        priority: 7,
        live: true,
        auto_play: false,
        ..CinematicVirtualCamera::default()
    };
    let rig = virtual_camera.to_rig();
    let binding = virtual_camera.to_binding();
    assert!(rig.enabled);
    assert_eq!(binding.camera, camera);
    assert_eq!(binding.priority, 7);
}

#[test]
fn solve_plans_blend_inside_overlap_window() {
    let mut close_up = fixed_shot("Close Up", secs(2.0));
    close_up.blend_in = CinematicBlend { duration: secs(0.5), easing: CinematicEasing::Linear };
    let seq = sequence(vec![fixed_shot("Intro", secs(2.0)), close_up]);
    let cache = CinematicSequenceCache::rebuild(&seq);
    let mut runtime: CinematicRuntime<Pose> = CinematicRuntime::new();
    let playback = CinematicPlayback { status: CinematicPlaybackStatus::Playing, elapsed: secs(1.75), ..CinematicPlayback::default() };
    let plan = plan_rig_solve(RIG, true, &seq, &cache, &playback, &mut runtime);
    assert_eq!(plan.pose, PosePlan::Blend { from_shot: 0, to_shot: 1, from_local: secs(1.75), to_local: secs(0.25) });
    assert_eq!(plan.current_shot, Some(1));
    assert_eq!(runtime.last_blend, Some((0, 1)));

    // Leaving the window reports the finished shot-to-shot blend.
    let later = CinematicPlayback { elapsed: secs(2.5), ..playback };
    let plan = plan_rig_solve(RIG, true, &seq, &cache, &later, &mut runtime);
    assert_eq!(plan.pose, PosePlan::Shot { shot: 1, local_time: secs(1.0) });
    assert!(plan.messages.iter().any(|m| matches!(m,
        RigMessage::BlendCompleted(b) if b.kind == CinematicBlendKind::ShotToShot { from_shot: 0, to_shot: 1 })));
    assert_eq!(runtime.last_blend, None);
}

#[test]
fn entry_blend_completion_is_reported_once() {
    let mut seq = sequence(vec![fixed_shot("A", secs(2.0))]);
    seq.entry_blend = CinematicBlend { duration: secs(0.2), easing: CinematicEasing::Linear };
    let cache = CinematicSequenceCache::rebuild(&seq);
    let rig = CinematicCameraRig { auto_play: true, enabled: true };
    let mut playback = CinematicPlayback::default();
    let mut runtime: CinematicRuntime<Pose> = CinematicRuntime::new();
    autoplay_rig(&rig, &mut playback, &mut runtime, Some(Pose(1)));

    let plan = plan_rig_solve(RIG, true, &seq, &cache, &playback, &mut runtime);
    assert_eq!(plan.overlay, PoseOverlay::Entry { elapsed: 0 });
    let mut reports = 0;
    for _ in 0..5 {
        advance_rig(RIG, &seq, &cache, &mut playback, &mut runtime, Some(0), Pose(2), FRAME);
        let plan = plan_rig_solve(RIG, true, &seq, &cache, &playback, &mut runtime);
        reports += plan.messages.iter().filter(|m| matches!(m,
            RigMessage::BlendCompleted(b) if b.kind == CinematicBlendKind::GameplayToCinematic { to_shot: Some(0) })).count();
    }
    assert_eq!(reports, 1);
    assert_eq!(runtime.entry_elapsed, secs(0.2));
}

#[test]
fn seek_then_advance_sends_no_lifecycle_messages() {
    let mut shot = fixed_shot("A", secs(1.0));
    shot.markers.push(ShotMarker::normalized("half".to_string(), 500_000));
    let seq = sequence(vec![shot]);
    let cache = CinematicSequenceCache::rebuild(&seq);
    let mut playback = CinematicPlayback::default();
    let mut runtime: CinematicRuntime<Pose> = CinematicRuntime::new();
    apply_playback_command(&CinematicPlaybackCommand::Play(RIG), cache.total_duration, &mut playback, &mut runtime, None, Pose(0));
    apply_playback_command(
        &CinematicPlaybackCommand::SeekSeconds { rig: RIG, seconds: secs(0.45) },
        cache.total_duration,
        &mut playback,
        &mut runtime,
        None,
        Pose(0),
    );
    assert_eq!(playback.elapsed, secs(0.45));
    let messages = advance_rig(RIG, &seq, &cache, &mut playback, &mut runtime, Some(0), Pose(0), FRAME);
    assert!(messages.is_empty());
    assert!(!runtime.suppress_events_once);
    // The next frame reports normally again: the marker at 0.5 s was already passed silently.
    let messages = advance_rig(RIG, &seq, &cache, &mut playback, &mut runtime, Some(0), Pose(0), FRAME);
    assert!(messages.is_empty());
    assert_eq!(playback.elapsed, secs(0.65));
}

#[test]
fn seek_seconds_clamps_to_the_timeline() {
    let seq = sequence(vec![fixed_shot("A", secs(1.0))]);
    let cache = CinematicSequenceCache::rebuild(&seq);
    let mut playback = CinematicPlayback::default();
    let mut runtime: CinematicRuntime<Pose> = CinematicRuntime::new();
    apply_playback_command(&CinematicPlaybackCommand::SeekSeconds { rig: RIG, seconds: secs(9.0) }, cache.total_duration, &mut playback, &mut runtime, None, Pose(0));
    assert_eq!(playback.elapsed, secs(1.0));
    apply_playback_command(&CinematicPlaybackCommand::SeekSeconds { rig: RIG, seconds: -5 }, cache.total_duration, &mut playback, &mut runtime, None, Pose(0));
    assert_eq!(playback.elapsed, 0);
    apply_playback_command(&CinematicPlaybackCommand::SeekNormalized { rig: RIG, normalized: 250_000 }, cache.total_duration, &mut playback, &mut runtime, None, Pose(0));
    assert_eq!(playback.elapsed, secs(0.25));
}

#[test]
fn pause_stops_time_and_resume_keeps_it() {
    let seq = sequence(vec![fixed_shot("A", secs(1.0))]);
    let cache = CinematicSequenceCache::rebuild(&seq);
    let mut playback = CinematicPlayback::default();
    let mut runtime: CinematicRuntime<Pose> = CinematicRuntime::new();
    apply_playback_command(&CinematicPlaybackCommand::Play(RIG), cache.total_duration, &mut playback, &mut runtime, None, Pose(0));
    advance_rig(RIG, &seq, &cache, &mut playback, &mut runtime, None, Pose(0), FRAME);
    apply_playback_command(&CinematicPlaybackCommand::Pause(RIG), cache.total_duration, &mut playback, &mut runtime, None, Pose(0));
    advance_rig(RIG, &seq, &cache, &mut playback, &mut runtime, None, Pose(0), FRAME);
    assert_eq!(playback.elapsed, FRAME);
    assert_eq!(playback.status, CinematicPlaybackStatus::Paused);
    apply_playback_command(&CinematicPlaybackCommand::Resume(RIG), cache.total_duration, &mut playback, &mut runtime, None, Pose(0));
    assert_eq!(playback.status, CinematicPlaybackStatus::Playing);
    advance_rig(RIG, &seq, &cache, &mut playback, &mut runtime, None, Pose(0), FRAME);
    assert_eq!(playback.elapsed, 2 * FRAME);
}

#[test]
fn play_once_finishes_and_stops_without_snapshot() {
    let seq = sequence(vec![fixed_shot("A", secs(0.15))]);
    let cache = CinematicSequenceCache::rebuild(&seq);
    let mut playback = CinematicPlayback::default();
    let mut runtime: CinematicRuntime<Pose> = CinematicRuntime::new();
    apply_playback_command(&CinematicPlaybackCommand::Play(RIG), cache.total_duration, &mut playback, &mut runtime, None, Pose(0));
    let first = advance_rig(RIG, &seq, &cache, &mut playback, &mut runtime, None, Pose(0), FRAME);
    assert_eq!(first.len(), 1);
    let second = advance_rig(RIG, &seq, &cache, &mut playback, &mut runtime, None, Pose(0), FRAME);
    assert!(matches!(second[0], RigMessage::ShotFinished(ref f) if f.shot_index == 0));
    assert!(matches!(second[1], RigMessage::SequenceFinished(f) if f.rig == RIG));
    assert_eq!(playback.status, CinematicPlaybackStatus::Stopped);
    assert_eq!(playback.elapsed, 0);
}

#[test]
fn looping_sequence_wraps_and_reports_both_sides() {
    let mut seq = sequence(vec![fixed_shot("A", secs(0.25))]);
    seq.loop_mode = PlaybackLoopMode::Loop;
    let cache = CinematicSequenceCache::rebuild(&seq);
    let mut playback = CinematicPlayback { status: CinematicPlaybackStatus::Playing, elapsed: secs(0.2), ..CinematicPlayback::default() };
    let mut runtime: CinematicRuntime<Pose> = CinematicRuntime::new();
    let messages = advance_rig(RIG, &seq, &cache, &mut playback, &mut runtime, None, Pose(0), FRAME);
    assert_eq!(playback.elapsed, secs(0.05));
    assert!(matches!(messages[0], RigMessage::ShotFinished(_)));
    assert!(matches!(messages[1], RigMessage::ShotStarted(_)));
    assert_eq!(messages.len(), 2);
}

#[test]
fn ping_pong_reverse_half_is_silent() {
    let mut seq = sequence(vec![fixed_shot("A", secs(0.25))]);
    seq.loop_mode = PlaybackLoopMode::PingPong;
    let cache = CinematicSequenceCache::rebuild(&seq);
    let mut playback = CinematicPlayback { status: CinematicPlaybackStatus::Playing, elapsed: secs(0.2), ..CinematicPlayback::default() };
    let mut runtime: CinematicRuntime<Pose> = CinematicRuntime::new();
    let messages = advance_rig(RIG, &seq, &cache, &mut playback, &mut runtime, None, Pose(0), FRAME);
    assert_eq!(playback.elapsed, secs(0.2));
    assert!(messages.is_empty());
    let messages = advance_rig(RIG, &seq, &cache, &mut playback, &mut runtime, None, Pose(0), FRAME);
    assert_eq!(playback.elapsed, secs(0.1));
    assert!(messages.is_empty());
}

#[test]
fn empty_sequence_stops_the_rig() {
    let seq = sequence(Vec::new());
    let cache = CinematicSequenceCache::rebuild(&seq);
    let mut playback = CinematicPlayback { status: CinematicPlaybackStatus::Playing, ..CinematicPlayback::default() };
    let mut runtime: CinematicRuntime<Pose> = CinematicRuntime::new();
    let messages = advance_rig(RIG, &seq, &cache, &mut playback, &mut runtime, None, Pose(0), FRAME);
    assert!(messages.is_empty());
    assert_eq!(playback.status, CinematicPlaybackStatus::Stopped);
}

#[test]
fn disabled_rig_is_never_active() {
    let seq = sequence(vec![fixed_shot("A", secs(1.0))]);
    let cache = CinematicSequenceCache::rebuild(&seq);
    let mut runtime: CinematicRuntime<Pose> = CinematicRuntime::new();
    let playback = CinematicPlayback { status: CinematicPlaybackStatus::Playing, elapsed: secs(0.5), ..CinematicPlayback::default() };
    assert!(!plan_rig_solve(RIG, false, &seq, &cache, &playback, &mut runtime).active);
    assert!(plan_rig_solve(RIG, true, &seq, &cache, &playback, &mut runtime).active);
    let paused_at_start = CinematicPlayback { status: CinematicPlaybackStatus::Stopped, elapsed: 0, ..playback };
    assert!(!plan_rig_solve(RIG, true, &seq, &cache, &paused_at_start, &mut runtime).active);
}

#[test]
fn snapshot_is_taken_only_from_a_stop() {
    let seq = sequence(vec![fixed_shot("A", secs(1.0))]);
    let cache = CinematicSequenceCache::rebuild(&seq);
    let mut playback = CinematicPlayback::default();
    let mut runtime: CinematicRuntime<Pose> = CinematicRuntime::new();
    let total = cache.total_duration;
    apply_playback_command(&CinematicPlaybackCommand::Play(RIG), total, &mut playback, &mut runtime, Some(Pose(1)), Pose(0));
    assert_eq!(runtime.captured_snapshot, Some(Pose(1)));
    apply_playback_command(&CinematicPlaybackCommand::Pause(RIG), total, &mut playback, &mut runtime, Some(Pose(2)), Pose(0));
    apply_playback_command(&CinematicPlaybackCommand::Play(RIG), total, &mut playback, &mut runtime, Some(Pose(3)), Pose(0));
    assert_eq!(runtime.captured_snapshot, Some(Pose(1)));
    apply_playback_command(&CinematicPlaybackCommand::Resume(RIG), total, &mut playback, &mut runtime, Some(Pose(4)), Pose(0));
    assert_eq!(runtime.captured_snapshot, Some(Pose(1)));
    apply_playback_command(&CinematicPlaybackCommand::Restart(RIG), total, &mut playback, &mut runtime, Some(Pose(5)), Pose(0));
    assert_eq!(runtime.captured_snapshot, Some(Pose(1)));
    assert_eq!(playback.status, CinematicPlaybackStatus::Playing);

    // Resuming a stopped rig starts playback from a stop, so it captures too.
    apply_playback_command(&CinematicPlaybackCommand::Stop { rig: RIG, restore_camera: false }, total, &mut playback, &mut runtime, None, Pose(0));
    apply_playback_command(&CinematicPlaybackCommand::Resume(RIG), total, &mut playback, &mut runtime, Some(Pose(6)), Pose(0));
    assert_eq!(runtime.captured_snapshot, Some(Pose(6)));
    assert_eq!(playback.status, CinematicPlaybackStatus::Playing);
}

#[test]
fn resume_from_stop_captures_first_snapshot() {
    let seq = sequence(vec![fixed_shot("A", secs(1.0))]);
    let cache = CinematicSequenceCache::rebuild(&seq);
    let mut playback = CinematicPlayback::default();
    let mut runtime: CinematicRuntime<Pose> = CinematicRuntime::new();
    apply_playback_command(&CinematicPlaybackCommand::Resume(RIG), cache.total_duration, &mut playback, &mut runtime, gameplay_snapshot(true, Some(Pose(9))), Pose(0));
    assert_eq!(runtime.captured_snapshot, Some(Pose(9)));
    assert_eq!(gameplay_snapshot(false, Some(Pose(9))), None);
    assert_eq!(gameplay_snapshot::<Pose>(true, None), None);
}

#[test]
fn empty_sequence_plans_nothing() {
    let seq = sequence(Vec::new());
    let cache = CinematicSequenceCache::rebuild(&seq);
    let mut runtime: CinematicRuntime<Pose> = CinematicRuntime::new();
    let playback = CinematicPlayback { status: CinematicPlaybackStatus::Playing, elapsed: secs(0.5), ..CinematicPlayback::default() };
    let plan = plan_rig_solve(RIG, true, &seq, &cache, &playback, &mut runtime);
    assert_eq!(plan.pose, PosePlan::Idle);
    assert!(!plan.active);
    assert_eq!(plan.current_shot, None);
    assert!(plan.messages.is_empty());
}

#[test]
fn exit_blend_over_short_frames_ends_after_its_length() {
    let mut seq = sequence(vec![fixed_shot("Reveal", secs(2.0))]);
    seq.exit_blend = CinematicBlend { duration: secs(0.25), ..CinematicBlend::default() };
    let cache = CinematicSequenceCache::rebuild(&seq);
    let mut playback = CinematicPlayback::default();
    let mut runtime: CinematicRuntime<Pose> = CinematicRuntime::new();
    apply_playback_command(&CinematicPlaybackCommand::Play(RIG), cache.total_duration, &mut playback, &mut runtime, Some(Pose(1)), Pose(0));
    advance_rig(RIG, &seq, &cache, &mut playback, &mut runtime, Some(0), Pose(2), FRAME);
    apply_playback_command(&CinematicPlaybackCommand::Stop { rig: RIG, restore_camera: true }, cache.total_duration, &mut playback, &mut runtime, None, Pose(2));
    let frame = secs(0.04);
    // Frames 1..=6 add up to 0.24 s: still exiting, time kept, nothing sent.
    for k in 1..=6 {
        let messages = advance_rig(RIG, &seq, &cache, &mut playback, &mut runtime, Some(0), Pose(2), frame);
        assert!(messages.is_empty());
        assert_eq!(playback.status, CinematicPlaybackStatus::Exiting);
        assert_eq!(playback.elapsed, FRAME);
        assert_eq!(runtime.exit_elapsed, Some(k * frame));
    }
    // The seventh frame reaches the blend's length.
    assert!(advance_rig(RIG, &seq, &cache, &mut playback, &mut runtime, Some(0), Pose(2), frame).is_empty());
    assert_eq!(runtime.exit_elapsed, Some(secs(0.25)));
    assert!(runtime.exit_pending_stop);
    let messages = advance_rig(RIG, &seq, &cache, &mut playback, &mut runtime, Some(0), Pose(2), frame);
    assert_eq!(playback.status, CinematicPlaybackStatus::Stopped);
    assert_eq!(playback.elapsed, 0);
    assert_eq!(messages.len(), 1);
    assert!(matches!(messages[0],
        RigMessage::BlendCompleted(b) if b.kind == CinematicBlendKind::CinematicToGameplay { from_shot: Some(0) }));
}
