use saddle_camera_cinematic_camera::collision::{collision_action, CollisionAction, CollisionPolicy};
use saddle_camera_cinematic_camera::config::{CinematicBlend, CinematicEasing, MarkerTime, PlaybackLoopMode, ShotMarker};
use saddle_camera_cinematic_camera::diagnostics::CinematicCameraDiagnostics;
use saddle_camera_cinematic_camera::playback::{
    advance_visible_time, CinematicPlayback, CinematicPlaybackStatus, PlayDirection,
};
use saddle_camera_cinematic_camera::rail::{
    linear_segment_end, linear_subdivision, rail_sampling, rail_segment_count, spline_resolution, RailSampling,
    RailSplineKind,
};
use saddle_camera_cinematic_camera::rig::{
    select_camera_winners, BindingCandidate, CinematicCameraBinding, CinematicVirtualCamera, PLACEHOLDER_ENTITY,
};
use saddle_camera_cinematic_camera::timeline::{
    active_blend, dominant_shot, events_between, CinematicSequenceCache, SequenceTiming, ShotTiming, TimelineEvent,
    TimelineEventKind,
};

fn shot(name: &str, duration: i64, blend: i64) -> ShotTiming {
    ShotTiming {
        name: name.to_string(),
        duration,
        blend_in: CinematicBlend { duration: blend, easing: CinematicEasing::Linear },
        markers: Vec::new(),
    }
}

fn sequence(shots: Vec<ShotTiming>) -> SequenceTiming {
    SequenceTiming {
        shots,
        loop_mode: PlaybackLoopMode::Once,
        restore_camera_on_finish: false,
        entry_blend: CinematicBlend::default(),
        exit_blend: CinematicBlend::default(),
    }
}

#[test]
fn marker_time_offsets_stay_inside_the_shot() {
    assert_eq!(MarkerTime::Seconds(300).seconds(1_000), 300);
    assert_eq!(MarkerTime::Seconds(5_000).seconds(1_000), 1_000);
    assert_eq!(MarkerTime::Seconds(-7).seconds(1_000), 0);
    assert_eq!(MarkerTime::EndOfShot.seconds(1_000), 1_000);
    assert_eq!(MarkerTime::EndOfShot.seconds(-1_000), 0);
    assert_eq!(MarkerTime::Normalized(250_000).seconds(2_000_000), 500_000);
    assert_eq!(MarkerTime::Normalized(2_000_000).seconds(2_000_000), 2_000_000);
    assert_eq!(MarkerTime::Normalized(-1).seconds(2_000_000), 0);
    assert_eq!(MarkerTime::default(), MarkerTime::EndOfShot);
}

#[test]
fn shot_marker_normalized_constructor() {
    let marker = ShotMarker::normalized("mid".to_string(), 500_000);
    assert_eq!(marker.name, "mid");
    assert_eq!(marker.at, MarkerTime::Normalized(500_000));
}

#[test]
fn blend_activity() {
    assert!(!CinematicBlend::instant().is_active());
    assert_eq!(CinematicBlend::instant().easing, CinematicEasing::Linear);
    assert_eq!(CinematicBlend::default().easing, CinematicEasing::SineInOut);
    assert!(CinematicBlend { duration: 1, easing: CinematicEasing::Linear }.is_active());
}

#[test]
fn playback_transitions() {
    let mut playback = CinematicPlayback { elapsed: 500, ..CinematicPlayback::default() };
    playback.play();
    assert_eq!((playback.status, playback.elapsed), (CinematicPlaybackStatus::Playing, 500));
    playback.pause();
    assert_eq!((playback.status, playback.elapsed), (CinematicPlaybackStatus::Paused, 500));
    assert!(playback.is_active());
    playback.resume();
    assert_eq!((playback.status, playback.elapsed), (CinematicPlaybackStatus::Playing, 500));
    playback.restart();
    assert_eq!((playback.status, playback.elapsed), (CinematicPlaybackStatus::Playing, 0));
    playback.elapsed = 900;
    playback.stop();
    assert_eq!((playback.status, playback.elapsed), (CinematicPlaybackStatus::Stopped, 0));
    assert!(!playback.is_active());
}

#[test]
fn scaled_delta_follows_speed() {
    let mut playback = CinematicPlayback::default();
    assert_eq!(playback.scaled_delta(100_000), 100_000);
    playback.speed = 2_500_000;
    assert_eq!(playback.scaled_delta(100_000), 250_000);
    playback.speed = -3;
    assert_eq!(playback.scaled_delta(100_000), 0);
    playback.speed = i64::MAX;
    assert_eq!(playback.scaled_delta(i64::MAX), i64::MAX);
}

#[test]
fn advance_once_clamps_and_finishes_once() {
    let a = advance_visible_time(900, PlayDirection::Forward, 300, 1_000, PlaybackLoopMode::Once);
    assert_eq!((a.time, a.wrapped, a.finished_once), (1_000, false, true));
    let b = advance_visible_time(1_000, PlayDirection::Forward, 300, 1_000, PlaybackLoopMode::Once);
    assert_eq!((b.time, b.finished_once), (1_000, false));
    let c = advance_visible_time(0, PlayDirection::Forward, 5, 0, PlaybackLoopMode::Once);
    assert_eq!((c.time, c.finished_once), (0, false));
}

#[test]
fn advance_loop_wraps_into_the_timeline() {
    let a = advance_visible_time(900, PlayDirection::Forward, 300, 1_000, PlaybackLoopMode::Loop);
    assert_eq!((a.time, a.wrapped), (200, true));
    let b = advance_visible_time(900, PlayDirection::Forward, 1_100, 1_000, PlaybackLoopMode::Loop);
    assert_eq!((b.time, b.wrapped), (1_000, true));
    let c = advance_visible_time(100, PlayDirection::Forward, 3_050, 1_000, PlaybackLoopMode::Loop);
    assert_eq!(c.time, 150);
}

#[test]
fn advance_ping_pong_bounces() {
    let a = advance_visible_time(900, PlayDirection::Forward, 300, 1_000, PlaybackLoopMode::PingPong);
    assert_eq!((a.time, a.direction, a.wrapped), (800, PlayDirection::Backward, true));
    let b = advance_visible_time(100, PlayDirection::Backward, 300, 1_000, PlaybackLoopMode::PingPong);
    assert_eq!((b.time, b.direction, b.wrapped), (200, PlayDirection::Forward, true));
    let c = advance_visible_time(500, PlayDirection::Forward, 2_000, 1_000, PlaybackLoopMode::PingPong);
    assert_eq!((c.time, c.direction), (500, PlayDirection::Forward));
    let d = advance_visible_time(500, PlayDirection::Backward, 100, 1_000, PlaybackLoopMode::PingPong);
    assert_eq!((d.time, d.direction, d.wrapped), (400, PlayDirection::Backward, false));
}

#[test]
fn shot_starts_subtract_blend_overlaps() {
    let seq = sequence(vec![shot("A", 2_000, 0), shot("B", 1_000, 500), shot("C", 3_000, 5_000)]);
    let cache = CinematicSequenceCache::rebuild(&seq);
    // B starts half a blend early; C's blend is limited by B's duration.
    assert_eq!(cache.shot_starts, vec![0, 1_500, 1_500]);
    assert_eq!(cache.total_duration, 4_500);
}

#[test]
fn short_shots_still_take_minimum_span() {
    let seq = sequence(vec![shot("A", 0, 0), shot("B", -50, 0), shot("C", 10, 0)]);
    let cache = CinematicSequenceCache::rebuild(&seq);
    assert_eq!(cache.shot_starts, vec![0, 100, 200]);
    assert_eq!(cache.total_duration, 210);
}

#[test]
fn timeline_events_are_ordered() {
    let mut a = shot("A", 1_000, 0);
    a.markers.push(ShotMarker { name: "late".to_string(), at: MarkerTime::EndOfShot });
    a.markers.push(ShotMarker { name: "early".to_string(), at: MarkerTime::Seconds(100) });
    a.markers.push(ShotMarker { name: "also_late".to_string(), at: MarkerTime::Seconds(1_000) });
    let b = shot("B", 1_000, 200);
    let cache = CinematicSequenceCache::rebuild(&sequence(vec![a, b]));
    let expected = vec![
        TimelineEvent { time: 0, shot_index: 0, kind: TimelineEventKind::ShotStarted },
        TimelineEvent { time: 100, shot_index: 0, kind: TimelineEventKind::Marker(1) },
        TimelineEvent { time: 800, shot_index: 1, kind: TimelineEventKind::ShotStarted },
        TimelineEvent { time: 1_000, shot_index: 0, kind: TimelineEventKind::Marker(0) },
        TimelineEvent { time: 1_000, shot_index: 0, kind: TimelineEventKind::Marker(2) },
        TimelineEvent { time: 1_000, shot_index: 0, kind: TimelineEventKind::ShotFinished },
        TimelineEvent { time: 1_800, shot_index: 1, kind: TimelineEventKind::ShotFinished },
    ];
    assert_eq!(cache.timeline_events, expected);
}

#[test]
fn event_windows_respect_their_lower_end() {
    let cache = CinematicSequenceCache::rebuild(&sequence(vec![shot("A", 1_000, 0), shot("B", 1_000, 0)]));
    let open = events_between(&cache.timeline_events, 0, 1_000, false);
    assert_eq!(open.len(), 2);
    let closed = events_between(&cache.timeline_events, 0, 1_000, true);
    assert_eq!(closed.len(), 3);
    assert!(events_between(&cache.timeline_events, 500, 400, true).is_empty());
}

#[test]
fn dominant_and_blending_shots() {
    let seq = sequence(vec![shot("A", 2_000, 0), shot("B", 2_000, 500)]);
    let cache = CinematicSequenceCache::rebuild(&seq);
    assert_eq!(dominant_shot(&cache.shot_starts, -1), None);
    assert_eq!(dominant_shot(&cache.shot_starts, 1_499), Some(0));
    assert_eq!(dominant_shot(&cache.shot_starts, 1_500), Some(1));
    assert_eq!(active_blend(&seq, &cache, 1_499), None);
    let blend = active_blend(&seq, &cache, 1_600).unwrap();
    assert_eq!((blend.from_shot, blend.to_shot, blend.elapsed), (0, 1, 100));
    assert_eq!(active_blend(&seq, &cache, 2_000), None);
}

#[test]
fn rail_segments_and_sampling() {
    assert_eq!(rail_segment_count(0, false), 1);
    assert_eq!(rail_segment_count(1, true), 1);
    assert_eq!(rail_segment_count(4, false), 3);
    assert_eq!(rail_segment_count(4, true), 4);
    assert_eq!(rail_sampling(RailSplineKind::CatmullRom, 0), RailSampling::Origin);
    assert_eq!(rail_sampling(RailSplineKind::CatmullRom, 1), RailSampling::SinglePoint);
    assert_eq!(rail_sampling(RailSplineKind::CatmullRom, 3), RailSampling::Linear);
    assert_eq!(rail_sampling(RailSplineKind::CatmullRom, 4), RailSampling::Spline);
    assert_eq!(rail_sampling(RailSplineKind::Linear, 9), RailSampling::Linear);
    assert_eq!(spline_resolution(3, 24), 72);
    assert_eq!(spline_resolution(1, 0), 2);
    assert_eq!(linear_subdivision(0), 1);
    assert_eq!(linear_segment_end(3, 4, true), 0);
    assert_eq!(linear_segment_end(2, 4, false), 3);
}

#[test]
fn highest_priority_then_latest_rig_wins_each_camera() {
    let binding = |camera: u64, priority: i32| CinematicCameraBinding { camera, priority, ..CinematicCameraBinding::default() };
    let candidates = vec![
        BindingCandidate { rig_enabled: true, rig: 1, binding: binding(10, 5), status: CinematicPlaybackStatus::Playing, state_active: true },
        BindingCandidate { rig_enabled: true, rig: 2, binding: binding(10, 9), status: CinematicPlaybackStatus::Playing, state_active: true },
        BindingCandidate { rig_enabled: true, rig: 3, binding: binding(10, 9), status: CinematicPlaybackStatus::Exiting, state_active: false },
        BindingCandidate { rig_enabled: true, rig: 4, binding: binding(20, 1), status: CinematicPlaybackStatus::Stopped, state_active: true },
        BindingCandidate { rig_enabled: true, rig: 5, binding: binding(30, 99), status: CinematicPlaybackStatus::Stopped, state_active: false },
    ];
    let winners = select_camera_winners(&candidates);
    assert_eq!(winners.len(), 2);
    assert_eq!((winners[0].camera, winners[0].owner, winners[0].candidate), (10, 3, 2));
    assert_eq!((winners[1].camera, winners[1].owner, winners[1].should_apply), (20, 4, false));

    // A disabled rig does not drive its camera, not even while it exits.
    let mut disabled = candidates.clone();
    disabled[2].rig_enabled = false;
    let winners = select_camera_winners(&disabled);
    assert_eq!((winners[0].camera, winners[0].owner), (10, 2));
}

#[test]
fn solo_virtual_camera_outranks_its_sibling() {
    let solo = CinematicVirtualCamera { priority: 3, solo: true, ..CinematicVirtualCamera::default() };
    let sibling = CinematicVirtualCamera { priority: 3, ..CinematicVirtualCamera::default() };
    assert_eq!(solo.resolved_priority(), i32::MAX - 3);
    assert!(solo.to_binding().priority > sibling.to_binding().priority);
    let negative = CinematicVirtualCamera { priority: -7, solo: true, ..CinematicVirtualCamera::default() };
    assert_eq!(negative.resolved_priority(), i32::MAX - 7);
    assert!(solo.resolved_priority() > negative.resolved_priority());
    let high = CinematicVirtualCamera { priority: 2_000_000_000, solo: true, ..CinematicVirtualCamera::default() };
    assert_eq!(high.resolved_priority(), i32::MAX);
    let top = CinematicVirtualCamera { priority: i32::MAX, solo: true, ..CinematicVirtualCamera::default() };
    assert_eq!(top.resolved_priority(), i32::MAX);
    let plain = CinematicVirtualCamera { priority: -4, ..CinematicVirtualCamera::default() };
    assert_eq!(plain.resolved_priority(), -4);
}

#[test]
fn placeholder_bits_match_the_engine() {
    assert_eq!(PLACEHOLDER_ENTITY, bevy::prelude::Entity::PLACEHOLDER.to_bits());
}

#[test]
fn diagnostics_count_running_rigs() {
    let statuses = vec![
        CinematicPlaybackStatus::Stopped,
        CinematicPlaybackStatus::Playing,
        CinematicPlaybackStatus::Paused,
        CinematicPlaybackStatus::Exiting,
    ];
    let d = CinematicCameraDiagnostics::collect(&statuses, 2, 5);
    assert_eq!((d.active_rigs, d.previewable_rigs, d.applied_cameras, d.target_history_entries), (3, 4, 2, 5));
}

#[test]
fn collision_records_for_live_rigs_and_pushes_only_when_asked() {
    assert_eq!(collision_action(CollisionPolicy::PushCloser, CinematicPlaybackStatus::Playing), CollisionAction::PushCloser);
    assert_eq!(collision_action(CollisionPolicy::default(), CinematicPlaybackStatus::Exiting), CollisionAction::PushCloser);
    assert_eq!(collision_action(CollisionPolicy::PushCloser, CinematicPlaybackStatus::Stopped), CollisionAction::Skip);
    assert_eq!(collision_action(CollisionPolicy::RecordOnly, CinematicPlaybackStatus::Paused), CollisionAction::Record);
    assert_eq!(collision_action(CollisionPolicy::RecordOnly, CinematicPlaybackStatus::Stopped), CollisionAction::Skip);
}
