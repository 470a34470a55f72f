//! The per-rig runtime state machine: playback commands, autoplay, advancing
//! the timeline each frame, and what the solver has to blend and report.
//!
//! The camera poses that the state machine holds are opaque to it: it is
//! generic over the pose type `P` and only moves poses around.
use vstd::prelude::*;
use crate::time::{Ticks, NORMALIZED_ONE, clamp_int, min_int, max_int, clamp_ticks, max_ticks};
use crate::playback::{CinematicPlayback, CinematicPlaybackStatus, PlayDirection};
use crate::messages::{
    CinematicPlaybackCommand, RigMessage, ShotStarted, ShotFinished, ShotMarkerReached, SequenceFinished,
    CinematicBlendCompleted, CinematicBlendKind,
};
use crate::rig::CinematicCameraRig;
use crate::config::PlaybackLoopMode;
use crate::playback::{advance_visible_time, spec_advance, spec_scaled_delta};
use crate::timeline::{
    ShotTiming, SequenceTiming, CinematicSequenceCache, TimelineEvent, TimelineEventKind, timing_within_limits,
    event_refers_to, events_between, in_event_window, lemma_timeline_events_refer, timeline_events,
    dominant_shot, active_blend, in_blend_window, shot_start,
};

verus! {

/// The hidden per-rig runtime state.
#[derive(Clone, Debug)]
pub struct CinematicRuntime<P> {
    /// Time spent in the entry blend from the gameplay camera.
    pub entry_elapsed: Ticks,
    /// Time spent in the exit blend back to the gameplay camera, while exiting.
    pub exit_elapsed: Option<Ticks>,
    /// The exit blend is complete; the rig stops in the next frame.
    pub exit_pending_stop: bool,
    pub direction: PlayDirection,
    pub autoplay_consumed: bool,
    pub entry_blend_reported: bool,
    /// The next advance sends no lifecycle messages (set by seeking).
    pub suppress_events_once: bool,
    /// The shot-to-shot blend seen in the last solve.
    pub last_blend: Option<(usize, usize)>,
    /// The gameplay camera pose captured when playback began.
    pub captured_snapshot: Option<P>,
    /// The cinematic pose the exit blend starts from.
    pub exit_pose: Option<P>,
}

impl<P> CinematicRuntime<P> {
    /// The runtime state of a rig the runtime has just met.
    pub fn new() -> (r: Self)
        ensures
            r.entry_elapsed == 0,
            r.exit_elapsed is None,
            !r.exit_pending_stop,
            r.direction == PlayDirection::Forward,
            !r.autoplay_consumed,
            !r.entry_blend_reported,
            !r.suppress_events_once,
            r.last_blend is None,
            r.captured_snapshot is None,
            r.exit_pose is None,
    {
        CinematicRuntime {
            entry_elapsed: 0,
            exit_elapsed: None,
            exit_pending_stop: false,
            direction: PlayDirection::Forward,
            autoplay_consumed: false,
            entry_blend_reported: false,
            suppress_events_once: false,
            last_blend: None,
            captured_snapshot: None,
            exit_pose: None,
        }
    }
}

/// What beginning playback does: it plays, forgets any exit in progress and
/// runs forward; unless asked to keep its place it restarts the entry blend;
/// when asked to capture it takes the fresh gameplay snapshot.
pub open spec fn began<P>(
    old_pb: CinematicPlayback,
    old_rt: CinematicRuntime<P>,
    new_pb: CinematicPlayback,
    new_rt: CinematicRuntime<P>,
    preserve_elapsed: bool,
    capture_snapshot: bool,
    fresh_snapshot: Option<P>,
) -> bool {
    &&& new_pb.status == CinematicPlaybackStatus::Playing
    &&& new_pb.elapsed == old_pb.elapsed
    &&& new_pb.speed == old_pb.speed
    &&& new_rt.captured_snapshot == (if capture_snapshot { fresh_snapshot } else { old_rt.captured_snapshot })
    &&& new_rt.entry_elapsed == (if preserve_elapsed { old_rt.entry_elapsed } else { 0 })
    &&& new_rt.entry_blend_reported == (preserve_elapsed && old_rt.entry_blend_reported)
    &&& new_rt.exit_elapsed is None
    &&& !new_rt.exit_pending_stop
    &&& new_rt.exit_pose is None
    &&& new_rt.direction == PlayDirection::Forward
    &&& new_rt.autoplay_consumed == old_rt.autoplay_consumed
    &&& new_rt.suppress_events_once == old_rt.suppress_events_once
    &&& new_rt.last_blend == old_rt.last_blend
}

/// Begins (or continues) playback.
pub fn begin_playback<P>(
    playback: &mut CinematicPlayback,
    runtime: &mut CinematicRuntime<P>,
    preserve_elapsed: bool,
    capture_snapshot: bool,
    fresh_snapshot: Option<P>,
)
    ensures
        began(*old(playback), *old(runtime), *final(playback), *final(runtime), preserve_elapsed, capture_snapshot, fresh_snapshot),
{
    if capture_snapshot {
        runtime.captured_snapshot = fresh_snapshot;
    }
    if !preserve_elapsed {
        runtime.entry_elapsed = 0;
        runtime.entry_blend_reported = false;
    }
    runtime.exit_elapsed = None;
    runtime.exit_pending_stop = false;
    runtime.exit_pose = None;
    runtime.direction = PlayDirection::Forward;
    playback.play();
}

/// Where a seek to a fraction (in millionths, limited to `0 ..= 1`) of a
/// sequence of length `total` lands, rounded toward zero.
pub open spec fn spec_seek_normalized(normalized: int, total: int) -> int {
    let f = clamp_int(normalized, 0, NORMALIZED_ONE as int);
    if total >= 0 { f * total / (NORMALIZED_ONE as int) } else { -(f * (-total) / (NORMALIZED_ONE as int)) }
}

/// Starting to exit: the rig blends from `pose` back to its gameplay snapshot.
pub open spec fn began_exit<P>(
    old_pb: CinematicPlayback,
    old_rt: CinematicRuntime<P>,
    new_pb: CinematicPlayback,
    new_rt: CinematicRuntime<P>,
    pose: P,
) -> bool {
    &&& new_pb == (CinematicPlayback { status: CinematicPlaybackStatus::Exiting, ..old_pb })
    &&& new_rt == (CinematicRuntime { exit_elapsed: Some(0), exit_pending_stop: false, exit_pose: Some(pose), ..old_rt })
}

/// What a playback command does to the rig it is addressed to.
pub open spec fn command_effect<P>(
    command: CinematicPlaybackCommand,
    total_duration: int,
    old_pb: CinematicPlayback,
    old_rt: CinematicRuntime<P>,
    new_pb: CinematicPlayback,
    new_rt: CinematicRuntime<P>,
    fresh_snapshot: Option<P>,
    current_pose: P,
) -> bool {
    let was_stopped = old_pb.status == CinematicPlaybackStatus::Stopped;
    match command {
        CinematicPlaybackCommand::Play(_) => began(old_pb, old_rt, new_pb, new_rt, false, was_stopped, fresh_snapshot),
        CinematicPlaybackCommand::Pause(_) => {
            &&& new_pb == (CinematicPlayback { status: CinematicPlaybackStatus::Paused, ..old_pb })
            &&& new_rt == old_rt
        },
        CinematicPlaybackCommand::Resume(_) => began(old_pb, old_rt, new_pb, new_rt, true, was_stopped, fresh_snapshot),
        CinematicPlaybackCommand::Restart(_) => began(
            CinematicPlayback { elapsed: 0, ..old_pb },
            CinematicRuntime { direction: PlayDirection::Forward, last_blend: None, suppress_events_once: false, ..old_rt },
            new_pb,
            new_rt,
            false,
            was_stopped,
            fresh_snapshot,
        ),
        CinematicPlaybackCommand::Stop { restore_camera, .. } => {
            if restore_camera && old_rt.captured_snapshot is Some {
                began_exit(old_pb, old_rt, new_pb, new_rt, current_pose)
            } else {
                &&& new_pb == (CinematicPlayback { status: CinematicPlaybackStatus::Stopped, elapsed: 0, ..old_pb })
                &&& new_rt == old_rt
            }
        },
        CinematicPlaybackCommand::SeekSeconds { seconds, .. } => {
            &&& new_pb == (CinematicPlayback { elapsed: clamp_int(seconds as int, 0, total_duration) as i64, ..old_pb })
            &&& new_rt == (CinematicRuntime { suppress_events_once: true, ..old_rt })
        },
        CinematicPlaybackCommand::SeekNormalized { normalized, .. } => {
            &&& new_pb == (CinematicPlayback { elapsed: spec_seek_normalized(normalized as int, total_duration) as i64, ..old_pb })
            &&& new_rt == (CinematicRuntime { suppress_events_once: true, ..old_rt })
        },
    }
}

/// Applies a playback command to the rig it is addressed to, given the length
/// of the rig's timeline, a freshly captured gameplay snapshot (used only when
/// playback begins from a stop) and the rig's current solved pose (used only
/// when the command starts an exit blend).
pub fn apply_playback_command<P>(
    command: &CinematicPlaybackCommand,
    total_duration: Ticks,
    playback: &mut CinematicPlayback,
    runtime: &mut CinematicRuntime<P>,
    fresh_snapshot: Option<P>,
    current_pose: P,
)
    requires
        command matches CinematicPlaybackCommand::SeekSeconds { .. } ==> total_duration >= 0,
    ensures
        command_effect(*command, total_duration as int, *old(playback), *old(runtime), *final(playback), *final(runtime), fresh_snapshot, current_pose),
{
    match *command {
        CinematicPlaybackCommand::Play(_) => {
            let capture = playback.status == CinematicPlaybackStatus::Stopped;
            begin_playback(playback, runtime, false, capture, fresh_snapshot);
        },
        CinematicPlaybackCommand::Pause(_) => {
            playback.pause();
        },
        CinematicPlaybackCommand::Resume(_) => {
            let capture = playback.status == CinematicPlaybackStatus::Stopped;
            begin_playback(playback, runtime, true, capture, fresh_snapshot);
        },
        CinematicPlaybackCommand::Restart(_) => {
            let capture = playback.status == CinematicPlaybackStatus::Stopped;
            playback.elapsed = 0;
            runtime.direction = PlayDirection::Forward;
            runtime.last_blend = None;
            runtime.suppress_events_once = false;
            begin_playback(playback, runtime, false, capture, fresh_snapshot);
        },
        CinematicPlaybackCommand::Stop { restore_camera, .. } => {
            if restore_camera && runtime.captured_snapshot.is_some() {
                playback.status = CinematicPlaybackStatus::Exiting;
                runtime.exit_elapsed = Some(0);
                runtime.exit_pending_stop = false;
                runtime.exit_pose = Some(current_pose);
            } else {
                playback.stop();
            }
        },
        CinematicPlaybackCommand::SeekSeconds { seconds, .. } => {
            playback.elapsed = clamp_ticks(seconds, 0, total_duration);
            runtime.suppress_events_once = true;
        },
        CinematicPlaybackCommand::SeekNormalized { normalized, .. } => {
            let f: i128 = clamp_ticks(normalized, 0, NORMALIZED_ONE) as i128;
            let total: i128 = total_duration as i128;
            let magnitude: i128 = if total >= 0 { total } else { -total };
            proof {
                assert(0 <= f * magnitude <= NORMALIZED_ONE * magnitude) by (nonlinear_arith)
                    requires 0 <= f <= NORMALIZED_ONE, 0 <= magnitude;
                assert(NORMALIZED_ONE * magnitude <= NORMALIZED_ONE * 0x8000_0000_0000_0000) by (nonlinear_arith)
                    requires 0 <= magnitude <= 0x8000_0000_0000_0000;
                assert(f * magnitude / (NORMALIZED_ONE as int) <= magnitude) by (nonlinear_arith)
                    requires 0 <= f * magnitude <= NORMALIZED_ONE * magnitude;
            }
            let scaled: i128 = f * magnitude / (NORMALIZED_ONE as i128);
            playback.elapsed = if total >= 0 { scaled as i64 } else { (-scaled) as i64 };
            runtime.suppress_events_once = true;
        },
    }
}

/// Starts playback of an autoplay rig the first time it is seen, capturing
/// the gameplay snapshot.
pub fn autoplay_rig<P>(
    rig: &CinematicCameraRig,
    playback: &mut CinematicPlayback,
    runtime: &mut CinematicRuntime<P>,
    fresh_snapshot: Option<P>,
)
    ensures
        if !rig.auto_play || old(runtime).autoplay_consumed {
            *final(playback) == *old(playback) && *final(runtime) == *old(runtime)
        } else {
            began(*old(playback), CinematicRuntime { autoplay_consumed: true, ..*old(runtime) }, *final(playback), *final(runtime), false, true, fresh_snapshot)
        },
{
    if !rig.auto_play || runtime.autoplay_consumed {
        return;
    }
    runtime.autoplay_consumed = true;
    begin_playback(playback, runtime, false, true, fresh_snapshot);
}

/// The message a rig sends for a timeline event, named after its shot and marker.
pub open spec fn event_message(rig: u64, shots: Seq<ShotTiming>, e: TimelineEvent) -> RigMessage {
    let shot = shots[e.shot_index as int];
    match e.kind {
        TimelineEventKind::ShotStarted => RigMessage::ShotStarted(ShotStarted { rig, shot_index: e.shot_index, shot_name: shot.name }),
        TimelineEventKind::Marker(j) => RigMessage::ShotMarkerReached(ShotMarkerReached {
            rig,
            shot_index: e.shot_index,
            shot_name: shot.name,
            marker_name: shot.markers@[j as int].name,
        }),
        TimelineEventKind::ShotFinished => RigMessage::ShotFinished(ShotFinished { rig, shot_index: e.shot_index, shot_name: shot.name }),
    }
}

/// The message a rig sends for a timeline event.
pub fn message_for_event(rig: u64, sequence: &SequenceTiming, e: &TimelineEvent) -> (r: RigMessage)
    requires
        event_refers_to(sequence.shots@, *e),
    ensures
        r == event_message(rig, sequence.shots@, *e),
{
    let shot = &sequence.shots[e.shot_index];
    match e.kind {
        TimelineEventKind::ShotStarted => RigMessage::ShotStarted(ShotStarted { rig, shot_index: e.shot_index, shot_name: shot.name.clone() }),
        TimelineEventKind::Marker(j) => RigMessage::ShotMarkerReached(ShotMarkerReached {
            rig,
            shot_index: e.shot_index,
            shot_name: shot.name.clone(),
            marker_name: shot.markers[j].name.clone(),
        }),
        TimelineEventKind::ShotFinished => RigMessage::ShotFinished(ShotFinished { rig, shot_index: e.shot_index, shot_name: shot.name.clone() }),
    }
}

/// Appends the messages of some timeline events, in order.
fn push_event_messages(out: &mut Vec<RigMessage>, rig: u64, sequence: &SequenceTiming, events: &Vec<TimelineEvent>)
    requires
        forall|i: int| 0 <= i < events@.len() ==> event_refers_to(sequence.shots@, #[trigger] events@[i]),
    ensures
        final(out)@ == old(out)@ + events@.map_values(|e: TimelineEvent| event_message(rig, sequence.shots@, e)),
{
    let ghost start = out@;
    let mut i: usize = 0;
    while i < events.len()
        invariant
            0 <= i <= events@.len(),
            forall|k: int| 0 <= k < events@.len() ==> event_refers_to(sequence.shots@, #[trigger] events@[k]),
            out@ == start + events@.take(i as int).map_values(|e: TimelineEvent| event_message(rig, sequence.shots@, e)),
        decreases events.len() - i,
    {
        let m = message_for_event(rig, sequence, &events[i]);
        out.push(m);
        proof {
            assert(events@.take(i + 1).map_values(|e: TimelineEvent| event_message(rig, sequence.shots@, e))
                =~= events@.take(i as int).map_values(|e: TimelineEvent| event_message(rig, sequence.shots@, e)).push(m));
        }
        i = i + 1;
    }
    proof {
        assert(events@.take(events@.len() as int) =~= events@);
    }
}

/// The events of `timeline` inside a window.
pub open spec fn window(timeline: Seq<TimelineEvent>, from: int, to: int, include_from: bool) -> Seq<TimelineEvent> {
    timeline.filter(|e: TimelineEvent| in_event_window(e, from, to, include_from))
}

/// The events a forward frame passes from `previous` to `next`: up to the end
/// and again from the start when the time wrapped; the start itself counts
/// when the frame began there.
pub open spec fn frame_events(timeline: Seq<TimelineEvent>, previous: int, next: int, total: int, wrapped: bool) -> Seq<TimelineEvent> {
    if wrapped {
        window(timeline, previous, total, false) + window(timeline, 0, next, true)
    } else {
        window(timeline, previous, next, previous <= 0)
    }
}

/// How long an exit blend lasts: its duration, but at least one tick.
pub open spec fn exit_span(duration: int) -> int {
    max_int(duration, 1)
}

/// What one frame of `delta` does to a rig's playback and runtime, and the
/// messages it sends.
pub open spec fn advance_effect<P>(
    rig: u64,
    sequence: SequenceTiming,
    total: int,
    timeline: Seq<TimelineEvent>,
    old_pb: CinematicPlayback,
    old_rt: CinematicRuntime<P>,
    new_pb: CinematicPlayback,
    new_rt: CinematicRuntime<P>,
    current_shot: Option<usize>,
    current_pose: P,
    delta: int,
    messages: Seq<RigMessage>,
) -> bool {
    let shots = sequence.shots@;
    if shots.len() == 0 {
        &&& new_pb == (CinematicPlayback { status: CinematicPlaybackStatus::Stopped, ..old_pb })
        &&& new_rt == old_rt
        &&& messages == Seq::<RigMessage>::empty()
    } else if old_rt.exit_pending_stop {
        &&& new_pb == (CinematicPlayback { status: CinematicPlaybackStatus::Stopped, elapsed: 0, ..old_pb })
        &&& new_rt == (CinematicRuntime { exit_pending_stop: false, exit_elapsed: None, exit_pose: None, ..old_rt })
        &&& messages == seq![RigMessage::BlendCompleted(CinematicBlendCompleted {
            rig,
            kind: CinematicBlendKind::CinematicToGameplay { from_shot: current_shot },
        })]
    } else if old_rt.exit_elapsed is Some {
        let span = exit_span(sequence.exit_blend.duration as int);
        let reached = old_rt.exit_elapsed->0 + delta;
        &&& new_pb == old_pb
        &&& new_rt == (CinematicRuntime {
            exit_elapsed: Some(min_int(reached, span) as i64),
            exit_pending_stop: reached >= span,
            ..old_rt
        })
        &&& messages == Seq::<RigMessage>::empty()
    } else if old_pb.status == CinematicPlaybackStatus::Paused || old_pb.status == CinematicPlaybackStatus::Stopped {
        &&& new_pb == old_pb
        &&& new_rt == old_rt
        &&& messages == Seq::<RigMessage>::empty()
    } else {
        let (next, dir, wrapped, finished) = spec_advance(
            old_pb.elapsed as int,
            old_rt.direction,
            spec_scaled_delta(old_pb.speed as int, delta),
            total,
            sequence.loop_mode,
        );
        let passed = if old_rt.suppress_events_once || dir == PlayDirection::Backward {
            Seq::<TimelineEvent>::empty()
        } else {
            frame_events(timeline, old_pb.elapsed as int, next, total, wrapped)
        };
        let mid_pb = CinematicPlayback { elapsed: next as i64, ..old_pb };
        let mid_rt = CinematicRuntime {
            direction: dir,
            entry_elapsed: min_int(old_rt.entry_elapsed + delta, max_int(sequence.entry_blend.duration as int, 0)) as i64,
            suppress_events_once: false,
            ..old_rt
        };
        &&& messages == passed.map_values(|e: TimelineEvent| event_message(rig, shots, e))
            + (if finished { seq![RigMessage::SequenceFinished(SequenceFinished { rig })] } else { Seq::<RigMessage>::empty() })
        &&& if !finished {
            new_pb == mid_pb && new_rt == mid_rt
        } else if sequence.restore_camera_on_finish && old_rt.captured_snapshot is Some {
            began_exit(mid_pb, mid_rt, new_pb, new_rt, current_pose)
        } else {
            new_pb == (CinematicPlayback { status: CinematicPlaybackStatus::Stopped, elapsed: 0, ..mid_pb }) && new_rt == mid_rt
        }
    }
}

/// Every event of a window of the timeline belongs to the sequence.
proof fn lemma_window_refers(shots: Seq<ShotTiming>, from: int, to: int, include_from: bool)
    requires
        shots.len() <= usize::MAX,
        forall|i: int| 0 <= i < shots.len() ==> #[trigger] shots[i].markers@.len() <= usize::MAX,
    ensures
        forall|i: int| 0 <= i < window(timeline_events(shots), from, to, include_from).len()
            ==> event_refers_to(shots, #[trigger] window(timeline_events(shots), from, to, include_from)[i]),
{
    lemma_timeline_events_refer(shots);
    let tl = timeline_events(shots);
    let pred = |e: TimelineEvent| in_event_window(e, from, to, include_from);
    assert forall|i: int| 0 <= i < window(tl, from, to, include_from).len()
        implies event_refers_to(shots, #[trigger] window(tl, from, to, include_from)[i]) by {
        let w = tl.filter(pred);
        assert(w.contains(w[i]));
        tl.lemma_filter_contains_rev(pred, w[i]);
    }
}

/// Advances one rig by a frame of `delta`: finishes a pending exit, runs the
/// exit blend, or moves visible time on and reports the shots and markers it
/// passes, finishing (and possibly starting the exit blend) at the end of a
/// play-once sequence. `current_shot` is the shot of the last solve and
/// `current_pose` the rig's last solved pose.
pub fn advance_rig<P>(
    rig: u64,
    sequence: &SequenceTiming,
    cache: &CinematicSequenceCache,
    playback: &mut CinematicPlayback,
    runtime: &mut CinematicRuntime<P>,
    current_shot: Option<usize>,
    current_pose: P,
    delta: Ticks,
) -> (messages: Vec<RigMessage>)
    requires
        timing_within_limits(sequence.shots@),
        cache.describes(sequence.shots@),
        0 <= delta,
    ensures
        advance_effect(rig, *sequence, cache.total_duration as int, cache.timeline_events@, *old(playback), *old(runtime),
            *final(playback), *final(runtime), current_shot, current_pose, delta as int, messages@),
{
    let mut messages: Vec<RigMessage> = Vec::new();
    if sequence.shots.len() == 0 {
        playback.status = CinematicPlaybackStatus::Stopped;
        return messages;
    }
    if runtime.exit_pending_stop {
        runtime.exit_pending_stop = false;
        runtime.exit_elapsed = None;
        runtime.exit_pose = None;
        playback.stop();
        messages.push(RigMessage::BlendCompleted(CinematicBlendCompleted {
            rig,
            kind: CinematicBlendKind::CinematicToGameplay { from_shot: current_shot },
        }));
        proof { assert(messages@ =~= seq![messages@[0]]); }
        return messages;
    }
    if let Some(exit_elapsed) = runtime.exit_elapsed {
        let span = max_ticks(sequence.exit_blend.duration, 1);
        let reached: i128 = exit_elapsed as i128 + delta as i128;
        if reached >= span as i128 {
            runtime.exit_elapsed = Some(span);
            runtime.exit_pending_stop = true;
        } else {
            runtime.exit_elapsed = Some(reached as i64);
            runtime.exit_pending_stop = false;
        }
        return messages;
    }
    if playback.status == CinematicPlaybackStatus::Paused || playback.status == CinematicPlaybackStatus::Stopped {
        return messages;
    }
    let previous = playback.elapsed;
    let total = cache.total_duration;
    let step = playback.scaled_delta(delta);
    let advance = advance_visible_time(previous, runtime.direction, step, total, sequence.loop_mode);
    runtime.direction = advance.direction;
    playback.elapsed = advance.time;
    let entry_cap: i128 = max_ticks(sequence.entry_blend.duration, 0) as i128;
    let entry_reached: i128 = runtime.entry_elapsed as i128 + delta as i128;
    runtime.entry_elapsed = if entry_reached <= entry_cap { entry_reached as i64 } else { entry_cap as i64 };
    proof {
        assert forall|i: int| 0 <= i < sequence.shots@.len() implies #[trigger] sequence.shots@[i].markers@.len() <= usize::MAX by {
            assert(sequence.shots@[i].markers.len() == sequence.shots@[i].markers@.len());
        }
        lemma_window_refers(sequence.shots@, previous as int, total as int, false);
        lemma_window_refers(sequence.shots@, 0, advance.time as int, true);
        lemma_window_refers(sequence.shots@, previous as int, advance.time as int, previous <= 0);
    }
    if !runtime.suppress_events_once {
        if runtime.direction == PlayDirection::Forward {
            if advance.wrapped {
                let tail = events_between(&cache.timeline_events, previous, total, false);
                let head = events_between(&cache.timeline_events, 0, advance.time, true);
                assert(tail@ == window(timeline_events(sequence.shots@), previous as int, total as int, false));
                assert(head@ == window(timeline_events(sequence.shots@), 0, advance.time as int, true));
                push_event_messages(&mut messages, rig, sequence, &tail);
                push_event_messages(&mut messages, rig, sequence, &head);
                proof {
                    assert((tail@ + head@).map_values(|e: TimelineEvent| event_message(rig, sequence.shots@, e))
                        =~= tail@.map_values(|e: TimelineEvent| event_message(rig, sequence.shots@, e))
                            + head@.map_values(|e: TimelineEvent| event_message(rig, sequence.shots@, e)));
                }
            } else {
                let passed = events_between(&cache.timeline_events, previous, advance.time, previous <= 0);
                assert(passed@ == window(timeline_events(sequence.shots@), previous as int, advance.time as int, previous <= 0));
                push_event_messages(&mut messages, rig, sequence, &passed);
            }
        }
    } else {
        runtime.suppress_events_once = false;
    }
    proof {
        if old(runtime).suppress_events_once || runtime.direction == PlayDirection::Backward {
            assert(messages@ =~= Seq::<TimelineEvent>::empty().map_values(|e: TimelineEvent| event_message(rig, sequence.shots@, e)));
        }
    }
    let ghost passed_messages = messages@;
    if advance.finished_once {
        messages.push(RigMessage::SequenceFinished(SequenceFinished { rig }));
        if sequence.restore_camera_on_finish && runtime.captured_snapshot.is_some() {
            playback.status = CinematicPlaybackStatus::Exiting;
            runtime.exit_elapsed = Some(0);
            runtime.exit_pending_stop = false;
            runtime.exit_pose = Some(current_pose);
        } else {
            playback.stop();
        }
    }
    proof {
        if !advance.finished_once {
            assert(messages@ =~= passed_messages + Seq::<RigMessage>::empty());
        } else {
            assert(messages@ =~= passed_messages + seq![RigMessage::SequenceFinished(SequenceFinished { rig })]);
        }
    }
    messages
}

/// Which shot poses the solver computes for a frame.
#[derive(Clone, Copy, Debug, PartialEq, Eq, Structural)]
pub enum PosePlan {
    /// No shots: nothing is posed, and the rig's solved state is reset.
    Idle,
    /// One shot, at a time measured from its start.
    Shot { shot: usize, local_time: Ticks },
    /// Two consecutive shots inside the incoming one's blend window.
    Blend { from_shot: usize, to_shot: usize, from_local: Ticks, to_local: Ticks },
}

/// What the solved shot pose is blended with afterwards.
#[derive(Clone, Copy, Debug, PartialEq, Eq, Structural)]
pub enum PoseOverlay {
    /// The shot pose is used as it is.
    Plain,
    /// Blend in from the captured gameplay snapshot.
    Entry { elapsed: Ticks },
    /// Blend from the exit pose back to the captured gameplay snapshot.
    Exit { elapsed: Ticks },
}

/// The decisions of one solve of a rig.
#[derive(Clone, Debug)]
pub struct SolvePlan {
    pub pose: PosePlan,
    pub overlay: PoseOverlay,
    pub current_shot: Option<usize>,
    pub blend_from: Option<usize>,
    pub blend_to: Option<usize>,
    /// The rig should drive its camera.
    pub active: bool,
    pub messages: Vec<RigMessage>,
}

/// The shot pose plan at visible time `t`: the running blend if there is one,
/// else the dominant shot (the first shot before any starts).
pub open spec fn spec_pose_plan(shots: Seq<ShotTiming>, t: int, plan: PosePlan) -> bool {
    let some_blend = exists|k: int| 1 <= k < shots.len() && #[trigger] in_blend_window(shots, k, t);
    match plan {
        PosePlan::Idle => false,
        PosePlan::Blend { from_shot, to_shot, from_local, to_local } => {
            &&& some_blend
            &&& 1 <= to_shot < shots.len()
            &&& from_shot == to_shot - 1
            &&& in_blend_window(shots, to_shot as int, t)
            &&& forall|k: int| 1 <= k < to_shot ==> !#[trigger] in_blend_window(shots, k, t)
            &&& from_local == t - shot_start(shots, from_shot as int)
            &&& to_local == t - shot_start(shots, to_shot as int)
        },
        PosePlan::Shot { shot, local_time } => {
            &&& !some_blend
            &&& shot < shots.len()
            &&& local_time == t - shot_start(shots, shot as int)
            &&& if shot_start(shots, shot as int) <= t {
                forall|j: int| shot < j < shots.len() ==> t < #[trigger] shot_start(shots, j)
            } else {
                shot == 0 && forall|j: int| 0 <= j < shots.len() ==> t < #[trigger] shot_start(shots, j)
            }
        },
    }
}

/// The overlay a rig's playback and runtime call for.
pub open spec fn spec_overlay<P>(sequence: SequenceTiming, pb: CinematicPlayback, rt: CinematicRuntime<P>) -> PoseOverlay {
    if pb.status == CinematicPlaybackStatus::Exiting {
        if rt.captured_snapshot is Some && rt.exit_pose is Some && rt.exit_elapsed is Some {
            PoseOverlay::Exit { elapsed: rt.exit_elapsed->0 }
        } else {
            PoseOverlay::Plain
        }
    } else if pb.status != CinematicPlaybackStatus::Stopped && sequence.entry_blend.duration > 0
        && rt.entry_elapsed < sequence.entry_blend.duration && rt.captured_snapshot is Some {
        PoseOverlay::Entry { elapsed: rt.entry_elapsed }
    } else {
        PoseOverlay::Plain
    }
}

/// What a solve decides and reports, and what it remembers.
pub open spec fn solve_effect<P>(
    rig: u64,
    rig_enabled: bool,
    sequence: SequenceTiming,
    pb: CinematicPlayback,
    old_rt: CinematicRuntime<P>,
    new_rt: CinematicRuntime<P>,
    plan: SolvePlan,
) -> bool {
    let shots = sequence.shots@;
    let t = pb.elapsed as int;
    let blend = match plan.pose {
        PosePlan::Blend { from_shot, to_shot, .. } => Some((from_shot, to_shot)),
        _ => None,
    };
    let shot_of_plan = match plan.pose {
        PosePlan::Blend { to_shot, .. } => to_shot,
        PosePlan::Shot { shot, .. } => shot,
        PosePlan::Idle => 0,
    };
    let report_entry = pb.status != CinematicPlaybackStatus::Stopped && sequence.entry_blend.duration > 0
        && !old_rt.entry_blend_reported && old_rt.entry_elapsed >= sequence.entry_blend.duration;
    let entry_messages = if report_entry {
        seq![RigMessage::BlendCompleted(CinematicBlendCompleted {
            rig,
            kind: CinematicBlendKind::GameplayToCinematic { to_shot: Some(shot_of_plan) },
        })]
    } else {
        Seq::<RigMessage>::empty()
    };
    let blend_messages = match old_rt.last_blend {
        Some((last_from, last_to)) => if blend != Some((last_from, last_to)) {
            seq![RigMessage::BlendCompleted(CinematicBlendCompleted {
                rig,
                kind: CinematicBlendKind::ShotToShot { from_shot: last_from, to_shot: last_to },
            })]
        } else {
            Seq::<RigMessage>::empty()
        },
        None => Seq::<RigMessage>::empty(),
    };
    if shots.len() == 0 {
        &&& plan.pose == PosePlan::Idle
        &&& plan.overlay == PoseOverlay::Plain
        &&& plan.current_shot is None
        &&& plan.blend_from is None
        &&& plan.blend_to is None
        &&& !plan.active
        &&& plan.messages@ == Seq::<RigMessage>::empty()
        &&& new_rt == old_rt
    } else {
        &&& spec_pose_plan(shots, t, plan.pose)
        &&& plan.overlay == spec_overlay(sequence, pb, old_rt)
        &&& plan.current_shot == Some(shot_of_plan)
        &&& plan.blend_from == Some(match plan.pose {
            PosePlan::Blend { from_shot, .. } => from_shot,
            PosePlan::Shot { shot, .. } => shot,
            PosePlan::Idle => 0,
        })
        &&& plan.blend_to == (match plan.pose {
            PosePlan::Blend { to_shot, .. } => Some(to_shot),
            _ => None,
        })
        &&& plan.active == (rig_enabled && (pb.status != CinematicPlaybackStatus::Stopped || pb.elapsed > 0))
        &&& plan.messages@ == entry_messages + blend_messages
        &&& new_rt == (CinematicRuntime { entry_blend_reported: old_rt.entry_blend_reported || report_entry, last_blend: blend, ..old_rt })
    }
}

/// Decides what a rig's solve computes and reports: for a sequence without
/// shots, nothing (the rig is inactive); else which shots to pose, which
/// gameplay blend to lay over them, the current shot, whether the rig drives
/// its camera, and the blend completions (entry finished, shot-to-shot blend
/// left or changed).
pub fn plan_rig_solve<P>(
    rig: u64,
    rig_enabled: bool,
    sequence: &SequenceTiming,
    cache: &CinematicSequenceCache,
    playback: &CinematicPlayback,
    runtime: &mut CinematicRuntime<P>,
) -> (plan: SolvePlan)
    requires
        timing_within_limits(sequence.shots@),
        cache.describes(sequence.shots@),
    ensures
        solve_effect(rig, rig_enabled, *sequence, *playback, *old(runtime), *final(runtime), plan),
{
    let ghost shots = sequence.shots@;
    if sequence.shots.len() == 0 {
        return SolvePlan {
            pose: PosePlan::Idle,
            overlay: PoseOverlay::Plain,
            current_shot: None,
            blend_from: None,
            blend_to: None,
            active: false,
            messages: Vec::new(),
        };
    }
    let t = playback.elapsed;
    let pose = match active_blend(sequence, cache, t) {
        Some(b) => {
            proof {
                crate::timeline::lemma_shot_start_monotone(shots, b.from_shot as int, b.to_shot as int);
            }
            PosePlan::Blend {
                from_shot: b.from_shot,
                to_shot: b.to_shot,
                from_local: t - cache.shot_starts[b.from_shot],
                to_local: b.elapsed,
            }
        },
        None => {
            let index = match dominant_shot(&cache.shot_starts, t) {
                Some(i) => i,
                None => 0,
            };
            proof {
                crate::timeline::lemma_shot_start_monotone(shots, index as int, index as int);
                assert(cache.shot_starts@[0] == shot_start(shots, 0));
                assert forall|j: int| index < j < shots.len() implies (shot_start(shots, index as int) <= t ==> t < #[trigger] shot_start(shots, j)) by {
                    assert(cache.shot_starts@[j] == shot_start(shots, j));
                }
                assert forall|j: int| 0 <= j < shots.len() implies (t < shot_start(shots, index as int) ==> t < #[trigger] shot_start(shots, j)) by {
                    assert(cache.shot_starts@[j] == shot_start(shots, j));
                }
            }
            PosePlan::Shot { shot: index, local_time: t - cache.shot_starts[index] }
        },
    };
    let overlay = if playback.status == CinematicPlaybackStatus::Exiting {
        if runtime.captured_snapshot.is_some() && runtime.exit_pose.is_some() && runtime.exit_elapsed.is_some() {
            PoseOverlay::Exit { elapsed: runtime.exit_elapsed.unwrap() }
        } else {
            PoseOverlay::Plain
        }
    } else if playback.status != CinematicPlaybackStatus::Stopped && sequence.entry_blend.is_active()
        && runtime.entry_elapsed < sequence.entry_blend.duration && runtime.captured_snapshot.is_some() {
        PoseOverlay::Entry { elapsed: runtime.entry_elapsed }
    } else {
        PoseOverlay::Plain
    };
    let (current, blend_from, blend_to, blend) = match pose {
        PosePlan::Blend { from_shot, to_shot, .. } => (to_shot, from_shot, Some(to_shot), Some((from_shot, to_shot))),
        PosePlan::Shot { shot, .. } => (shot, shot, None, None),
        PosePlan::Idle => (0, 0, None, None),
    };
    let mut messages: Vec<RigMessage> = Vec::new();
    if playback.status != CinematicPlaybackStatus::Stopped && sequence.entry_blend.is_active()
        && !runtime.entry_blend_reported && runtime.entry_elapsed >= sequence.entry_blend.duration {
        runtime.entry_blend_reported = true;
        messages.push(RigMessage::BlendCompleted(CinematicBlendCompleted {
            rig,
            kind: CinematicBlendKind::GameplayToCinematic { to_shot: Some(current) },
        }));
    }
    let ghost entry_messages = messages@;
    assert(entry_messages.len() <= 1);
    match runtime.last_blend {
        Some((last_from, last_to)) => {
            let same = match blend {
                Some((f, g)) => f == last_from && g == last_to,
                None => false,
            };
            assert(same == (blend == Some((last_from, last_to))));
            if !same {
                let m = RigMessage::BlendCompleted(CinematicBlendCompleted {
                    rig,
                    kind: CinematicBlendKind::ShotToShot { from_shot: last_from, to_shot: last_to },
                });
                messages.push(m);
                assert(messages@ =~= entry_messages + seq![m]);
            } else {
                assert(messages@ =~= entry_messages + Seq::<RigMessage>::empty());
            }
        },
        None => {
            assert(messages@ =~= entry_messages + Seq::<RigMessage>::empty());
        },
    }
    runtime.last_blend = blend;
    let active = rig_enabled && (playback.is_active() || playback.elapsed > 0);
    SolvePlan { pose, overlay, current_shot: Some(current), blend_from: Some(blend_from), blend_to, active, messages }
}

/// A message that reports passing a shot start, a marker or a shot finish.
pub open spec fn is_lifecycle_message(m: RigMessage) -> bool {
    m is ShotStarted || m is ShotFinished || m is ShotMarkerReached
}

/// After a seek, the next frame reports no shot starts, markers or finishes:
/// the jump itself passes nothing.
pub proof fn law_seek_silences_next_frame<P>(
    command: CinematicPlaybackCommand,
    rig: u64,
    sequence: SequenceTiming,
    total: int,
    timeline: Seq<TimelineEvent>,
    pb0: CinematicPlayback,
    rt0: CinematicRuntime<P>,
    pb1: CinematicPlayback,
    rt1: CinematicRuntime<P>,
    pb2: CinematicPlayback,
    rt2: CinematicRuntime<P>,
    fresh_snapshot: Option<P>,
    pose: P,
    current_shot: Option<usize>,
    delta: int,
    messages: Seq<RigMessage>,
)
    requires
        command is SeekSeconds || command is SeekNormalized,
        command_effect(command, total, pb0, rt0, pb1, rt1, fresh_snapshot, pose),
        advance_effect(rig, sequence, total, timeline, pb1, rt1, pb2, rt2, current_shot, pose, delta, messages),
    ensures
        forall|i: int| 0 <= i < messages.len() ==> !is_lifecycle_message(#[trigger] messages[i]),
{
    assert(rt1.suppress_events_once);
    assert forall|i: int| 0 <= i < messages.len() implies !is_lifecycle_message(#[trigger] messages[i]) by {
        if sequence.shots@.len() != 0 && !rt1.exit_pending_stop && rt1.exit_elapsed is None
            && pb1.status != CinematicPlaybackStatus::Paused && pb1.status != CinematicPlaybackStatus::Stopped {
            assert(Seq::<TimelineEvent>::empty().map_values(|e: TimelineEvent| event_message(rig, sequence.shots@, e)) =~= Seq::<RigMessage>::empty());
        }
    }
}

/// A ping-pong timeline running backwards reports no shot starts, markers or
/// finishes.
pub proof fn law_reverse_play_is_silent<P>(
    rig: u64,
    sequence: SequenceTiming,
    total: int,
    timeline: Seq<TimelineEvent>,
    pb0: CinematicPlayback,
    rt0: CinematicRuntime<P>,
    pb1: CinematicPlayback,
    rt1: CinematicRuntime<P>,
    pose: P,
    current_shot: Option<usize>,
    delta: int,
    messages: Seq<RigMessage>,
)
    requires
        advance_effect(rig, sequence, total, timeline, pb0, rt0, pb1, rt1, current_shot, pose, delta, messages),
        rt1.direction == PlayDirection::Backward,
    ensures
        forall|i: int| 0 <= i < messages.len() ==> !is_lifecycle_message(#[trigger] messages[i]),
{
    assert forall|i: int| 0 <= i < messages.len() implies !is_lifecycle_message(#[trigger] messages[i]) by {
        if sequence.shots@.len() != 0 && !rt0.exit_pending_stop && rt0.exit_elapsed is None
            && pb0.status != CinematicPlaybackStatus::Paused && pb0.status != CinematicPlaybackStatus::Stopped {
            assert(Seq::<TimelineEvent>::empty().map_values(|e: TimelineEvent| event_message(rig, sequence.shots@, e)) =~= Seq::<RigMessage>::empty());
        }
    }
}

/// Restarting a stopped rig captures the current gameplay camera afresh and
/// plays from the start.
pub proof fn law_restart_from_stop_recaptures<P>(
    rig: u64,
    total: int,
    pb0: CinematicPlayback,
    rt0: CinematicRuntime<P>,
    pb1: CinematicPlayback,
    rt1: CinematicRuntime<P>,
    fresh_snapshot: Option<P>,
    pose: P,
)
    requires
        pb0.status == CinematicPlaybackStatus::Stopped,
        command_effect(CinematicPlaybackCommand::Restart(rig), total, pb0, rt0, pb1, rt1, fresh_snapshot, pose),
    ensures
        rt1.captured_snapshot == fresh_snapshot,
        pb1.status == CinematicPlaybackStatus::Playing,
        pb1.elapsed == 0,
{
}

/// Stopping with restore while a snapshot is held does not stop at once: the
/// rig exits, blending back; once the exit blend has run its length the next
/// frame stops the rig, rewinds it and reports the return to gameplay.
pub proof fn law_stop_with_restore_exits_then_stops<P>(
    rig: u64,
    restore_rig: u64,
    sequence: SequenceTiming,
    total: int,
    timeline: Seq<TimelineEvent>,
    pb0: CinematicPlayback,
    rt0: CinematicRuntime<P>,
    pb1: CinematicPlayback,
    rt1: CinematicRuntime<P>,
    pb2: CinematicPlayback,
    rt2: CinematicRuntime<P>,
    pb3: CinematicPlayback,
    rt3: CinematicRuntime<P>,
    fresh_snapshot: Option<P>,
    pose: P,
    current_shot: Option<usize>,
    delta: int,
    messages2: Seq<RigMessage>,
    messages3: Seq<RigMessage>,
)
    requires
        sequence.shots@.len() > 0,
        rt0.captured_snapshot is Some,
        command_effect(CinematicPlaybackCommand::Stop { rig: restore_rig, restore_camera: true }, total, pb0, rt0, pb1, rt1, fresh_snapshot, pose),
        delta >= exit_span(sequence.exit_blend.duration as int),
        advance_effect(rig, sequence, total, timeline, pb1, rt1, pb2, rt2, current_shot, pose, delta, messages2),
        advance_effect(rig, sequence, total, timeline, pb2, rt2, pb3, rt3, current_shot, pose, delta, messages3),
    ensures
        pb1.status == CinematicPlaybackStatus::Exiting,
        rt1.exit_pose == Some(pose),
        pb2.status == CinematicPlaybackStatus::Exiting,
        rt2.exit_pending_stop,
        messages2.len() == 0,
        pb3.status == CinematicPlaybackStatus::Stopped,
        pb3.elapsed == 0,
        rt3.exit_elapsed is None,
        rt3.exit_pose is None,
        messages3 == seq![RigMessage::BlendCompleted(CinematicBlendCompleted {
            rig,
            kind: CinematicBlendKind::CinematicToGameplay { from_shot: current_shot },
        })],
{
}

/// The message that reports the entry blend from gameplay finished.
pub open spec fn reports_entry(m: RigMessage) -> bool {
    m matches RigMessage::BlendCompleted(c) && c.kind is GameplayToCinematic
}

/// The end of the entry blend is reported once: of two solves in a row, at
/// most one reports it.
pub proof fn law_entry_blend_reported_once<P>(
    rig: u64,
    rig_enabled: bool,
    sequence: SequenceTiming,
    pb1: CinematicPlayback,
    pb2: CinematicPlayback,
    rt0: CinematicRuntime<P>,
    rt1: CinematicRuntime<P>,
    rt2: CinematicRuntime<P>,
    plan1: SolvePlan,
    plan2: SolvePlan,
)
    requires
        solve_effect(rig, rig_enabled, sequence, pb1, rt0, rt1, plan1),
        solve_effect(rig, rig_enabled, sequence, pb2, rt1, rt2, plan2),
    ensures
        !((exists|i: int| 0 <= i < plan1.messages@.len() && reports_entry(#[trigger] plan1.messages@[i]))
            && (exists|j: int| 0 <= j < plan2.messages@.len() && reports_entry(#[trigger] plan2.messages@[j]))),
{
    if exists|j: int| 0 <= j < plan2.messages@.len() && reports_entry(#[trigger] plan2.messages@[j]) {
        let j = choose|j: int| 0 <= j < plan2.messages@.len() && reports_entry(#[trigger] plan2.messages@[j]);
        assert(!rt1.entry_blend_reported);
        assert(!rt0.entry_blend_reported);
        assert forall|i: int| 0 <= i < plan1.messages@.len() implies !reports_entry(#[trigger] plan1.messages@[i]) by {
            // A report in the first solve would have set the flag the second solve saw.
        }
    }
}

/// A disabled rig does not claim its camera: its solve never marks it active.
pub proof fn law_disabled_rig_is_inactive<P>(
    rig: u64,
    sequence: SequenceTiming,
    pb: CinematicPlayback,
    rt0: CinematicRuntime<P>,
    rt1: CinematicRuntime<P>,
    plan: SolvePlan,
)
    requires
        solve_effect(rig, false, sequence, pb, rt0, rt1, plan),
    ensures
        !plan.active,
{
}

/// A gameplay snapshot is taken each time playback begins from a stop, and only
/// then: playing, resuming or restarting a stopped rig captures it afresh; the
/// same commands on a paused or playing rig keep the snapshot it has.
pub proof fn law_snapshot_only_from_stop<P>(
    command: CinematicPlaybackCommand,
    total: int,
    pb0: CinematicPlayback,
    rt0: CinematicRuntime<P>,
    pb1: CinematicPlayback,
    rt1: CinematicRuntime<P>,
    fresh_snapshot: Option<P>,
    pose: P,
)
    requires
        command is Play || command is Restart || command is Resume,
        command_effect(command, total, pb0, rt0, pb1, rt1, fresh_snapshot, pose),
    ensures
        rt1.captured_snapshot == (if pb0.status == CinematicPlaybackStatus::Stopped {
            fresh_snapshot
        } else {
            rt0.captured_snapshot
        }),
        pb1.status == CinematicPlaybackStatus::Playing,
{
}

/// Seeking to the whole of a sequence lands exactly on its end, and any seek
/// lands inside the sequence.
pub proof fn law_seek_normalized_stays_on_timeline(normalized: int, total: int)
    requires
        total >= 0,
    ensures
        0 <= spec_seek_normalized(normalized, total) <= total,
        normalized >= NORMALIZED_ONE ==> spec_seek_normalized(normalized, total) == total,
{
    let f = clamp_int(normalized, 0, NORMALIZED_ONE as int);
    assert(0 <= f * total <= NORMALIZED_ONE * total) by (nonlinear_arith)
        requires 0 <= f <= NORMALIZED_ONE, 0 <= total;
    assert(f * total / (NORMALIZED_ONE as int) <= total) by (nonlinear_arith)
        requires 0 <= f * total <= NORMALIZED_ONE * total;
    if normalized >= NORMALIZED_ONE {
        assert(f == NORMALIZED_ONE);
        vstd::arithmetic::div_mod::lemma_div_multiples_vanish(total, NORMALIZED_ONE as int);
        assert(NORMALIZED_ONE * total == total * NORMALIZED_ONE) by (nonlinear_arith);
    }
}

/// The gameplay snapshot a binding takes when playback begins: the pose of
/// its camera when the binding captures gameplay state and the camera was
/// found, and none otherwise.
pub fn gameplay_snapshot<P>(capture_gameplay_state: bool, camera_pose: Option<P>) -> (r: Option<P>)
    ensures
        r == (if capture_gameplay_state { camera_pose } else { Option::<P>::None }),
{
    if capture_gameplay_state { camera_pose } else { None }
}

/// A rig whose sequence has no shots drives no camera: a frame stops it and
/// sends nothing, and its solve poses nothing and marks it inactive.
pub proof fn law_empty_sequence_drives_no_camera<P>(
    rig: u64,
    rig_enabled: bool,
    sequence: SequenceTiming,
    total: int,
    timeline: Seq<TimelineEvent>,
    pb0: CinematicPlayback,
    rt0: CinematicRuntime<P>,
    pb1: CinematicPlayback,
    rt1: CinematicRuntime<P>,
    rt2: CinematicRuntime<P>,
    current_shot: Option<usize>,
    pose: P,
    delta: int,
    messages: Seq<RigMessage>,
    plan: SolvePlan,
)
    requires
        sequence.shots@.len() == 0,
        advance_effect(rig, sequence, total, timeline, pb0, rt0, pb1, rt1, current_shot, pose, delta, messages),
        solve_effect(rig, rig_enabled, sequence, pb1, rt1, rt2, plan),
    ensures
        pb1.status == CinematicPlaybackStatus::Stopped,
        messages.len() == 0,
        plan.pose == PosePlan::Idle,
        !plan.active,
        plan.current_shot is None,
{
}

/// The number of frames of `delta` an exit blend of length `span` takes to run out.
pub open spec fn exit_frames(span: int, delta: int) -> int {
    (span + delta - 1) / delta
}

proof fn lemma_exit_frames(span: int, delta: int)
    requires
        span >= 1,
        delta >= 1,
    ensures
        exit_frames(span, delta) >= 1,
        (exit_frames(span, delta) - 1) * delta < span,
        span <= exit_frames(span, delta) * delta,
{
    let m = exit_frames(span, delta);
    let r = (span + delta - 1) % delta;
    assert(span + delta - 1 == m * delta + r && 0 <= r < delta) by (nonlinear_arith)
        requires delta > 0, m == (span + delta - 1) / delta, r == (span + delta - 1) % delta;
    assert(m >= 1) by (nonlinear_arith)
        requires span + delta - 1 == m * delta + r, 0 <= r < delta, span >= 1, delta >= 1;
    assert((m - 1) * delta < span) by (nonlinear_arith)
        requires span + delta - 1 == m * delta + r, 0 <= r, delta >= 1;
    assert(span <= m * delta) by (nonlinear_arith)
        requires span + delta - 1 == m * delta + r, r < delta;
}

/// The frames of an exit blend before it runs out leave playback as it was,
/// send nothing, and add up the exit time.
proof fn lemma_exit_frames_accumulate<P>(
    rig: u64,
    sequence: SequenceTiming,
    total: int,
    timeline: Seq<TimelineEvent>,
    pbs: Seq<CinematicPlayback>,
    rts: Seq<CinematicRuntime<P>>,
    messages: Seq<Seq<RigMessage>>,
    current_shot: Option<usize>,
    pose: P,
    delta: int,
    n: int,
    k: int,
)
    requires
        sequence.shots@.len() > 0,
        delta >= 1,
        pbs.len() == n + 1,
        rts.len() == n + 1,
        messages.len() == n,
        rts[0].exit_elapsed == Some(0i64),
        !rts[0].exit_pending_stop,
        forall|f: int| 0 <= f < n ==> #[trigger] advance_effect(rig, sequence, total, timeline, pbs[f], rts[f],
            pbs[f + 1], rts[f + 1], current_shot, pose, delta, messages[f]),
        0 <= k <= n,
        k * delta < exit_span(sequence.exit_blend.duration as int),
    ensures
        pbs[k] == pbs[0],
        rts[k].exit_elapsed == Some((k * delta) as i64),
        !rts[k].exit_pending_stop,
        k < n ==> messages[k].len() == 0,
    decreases k,
{
    if k > 0 {
        assert((k - 1) * delta < k * delta) by (nonlinear_arith)
            requires delta >= 1;
        lemma_exit_frames_accumulate(rig, sequence, total, timeline, pbs, rts, messages, current_shot, pose, delta, n, k - 1);
        let f = k - 1;
        assert(advance_effect(rig, sequence, total, timeline, pbs[f], rts[f], pbs[f + 1], rts[f + 1], current_shot, pose, delta, messages[f]));
        assert(f + 1 == k);
        assert((k - 1) * delta + delta == k * delta) by (nonlinear_arith);
    }
    if k < n {
        assert(advance_effect(rig, sequence, total, timeline, pbs[k], rts[k], pbs[k + 1], rts[k + 1], current_shot, pose, delta, messages[k]));
    }
}

/// An exit blend run over frames of equal length: while the exit time is
/// short of the blend's length the rig stays exiting, keeps its time and
/// sends nothing; the frame that reaches the length marks the exit done; the
/// next frame stops the rig, rewinds it and reports the return to gameplay.
pub proof fn law_exit_blend_runs_its_length<P>(
    rig: u64,
    sequence: SequenceTiming,
    total: int,
    timeline: Seq<TimelineEvent>,
    pbs: Seq<CinematicPlayback>,
    rts: Seq<CinematicRuntime<P>>,
    messages: Seq<Seq<RigMessage>>,
    current_shot: Option<usize>,
    pose: P,
    delta: int,
    n: int,
)
    requires
        sequence.shots@.len() > 0,
        delta >= 1,
        n >= 0,
        pbs.len() == n + 1,
        rts.len() == n + 1,
        messages.len() == n,
        pbs[0].status == CinematicPlaybackStatus::Exiting,
        rts[0].exit_elapsed == Some(0i64),
        !rts[0].exit_pending_stop,
        forall|f: int| 0 <= f < n ==> #[trigger] advance_effect(rig, sequence, total, timeline, pbs[f], rts[f],
            pbs[f + 1], rts[f + 1], current_shot, pose, delta, messages[f]),
    ensures
        forall|k: int| 0 <= k <= n && k * delta < exit_span(sequence.exit_blend.duration as int) ==> {
            &&& (#[trigger] pbs[k]).status == CinematicPlaybackStatus::Exiting
            &&& pbs[k] == pbs[0]
            &&& rts[k].exit_elapsed == Some((k * delta) as i64)
            &&& !rts[k].exit_pending_stop
            &&& k < n ==> messages[k].len() == 0
        },
        ({
            let span = exit_span(sequence.exit_blend.duration as int);
            let m = exit_frames(span, delta);
            &&& m <= n ==> {
                &&& pbs[m] == pbs[0]
                &&& rts[m].exit_elapsed == Some(span as i64)
                &&& rts[m].exit_pending_stop
            }
            &&& m + 1 <= n ==> {
                &&& pbs[m + 1] == (CinematicPlayback { status: CinematicPlaybackStatus::Stopped, elapsed: 0, ..pbs[0] })
                &&& rts[m + 1].exit_elapsed is None
                &&& rts[m + 1].exit_pose is None
                &&& !rts[m + 1].exit_pending_stop
                &&& messages[m] == seq![RigMessage::BlendCompleted(CinematicBlendCompleted {
                    rig,
                    kind: CinematicBlendKind::CinematicToGameplay { from_shot: current_shot },
                })]
            }
        }),
{
    let span = exit_span(sequence.exit_blend.duration as int);
    assert forall|k: int| 0 <= k <= n && k * delta < span implies {
        &&& (#[trigger] pbs[k]).status == CinematicPlaybackStatus::Exiting
        &&& pbs[k] == pbs[0]
        &&& rts[k].exit_elapsed == Some((k * delta) as i64)
        &&& !rts[k].exit_pending_stop
        &&& k < n ==> messages[k].len() == 0
    } by {
        lemma_exit_frames_accumulate(rig, sequence, total, timeline, pbs, rts, messages, current_shot, pose, delta, n, k);
    }
    let m = exit_frames(span, delta);
    lemma_exit_frames(span, delta);
    if m <= n {
        lemma_exit_frames_accumulate(rig, sequence, total, timeline, pbs, rts, messages, current_shot, pose, delta, n, m - 1);
        let f = m - 1;
        assert(advance_effect(rig, sequence, total, timeline, pbs[f], rts[f], pbs[f + 1], rts[f + 1], current_shot, pose, delta, messages[f]));
        assert(f + 1 == m);
        assert((m - 1) * delta + delta == m * delta) by (nonlinear_arith);
        if m + 1 <= n {
            assert(advance_effect(rig, sequence, total, timeline, pbs[m], rts[m], pbs[m + 1], rts[m + 1], current_shot, pose, delta, messages[m]));
        }
    }
}

/// A playing frame that reaches the end of a play-once sequence reports the
/// sequence finished as its last message; with a captured snapshot and the
/// sequence set to restore the camera it starts the exit blend from the
/// rig's current pose, and otherwise it stops and rewinds with no exit
/// blend to run.
pub proof fn law_play_once_finish<P>(
    rig: u64,
    sequence: SequenceTiming,
    total: int,
    timeline: Seq<TimelineEvent>,
    pb0: CinematicPlayback,
    rt0: CinematicRuntime<P>,
    pb1: CinematicPlayback,
    rt1: CinematicRuntime<P>,
    current_shot: Option<usize>,
    pose: P,
    delta: int,
    messages: Seq<RigMessage>,
)
    requires
        sequence.shots@.len() > 0,
        sequence.loop_mode == PlaybackLoopMode::Once,
        pb0.status == CinematicPlaybackStatus::Playing,
        !rt0.exit_pending_stop,
        rt0.exit_elapsed is None,
        0 <= pb0.elapsed < total <= i64::MAX,
        0 <= delta,
        pb0.elapsed + spec_scaled_delta(pb0.speed as int, delta) >= total,
        advance_effect(rig, sequence, total, timeline, pb0, rt0, pb1, rt1, current_shot, pose, delta, messages),
    ensures
        messages.len() > 0,
        messages.last() == RigMessage::SequenceFinished(SequenceFinished { rig }),
        sequence.restore_camera_on_finish && rt0.captured_snapshot is Some ==> {
            &&& pb1.status == CinematicPlaybackStatus::Exiting
            &&& pb1.elapsed == total
            &&& rt1.exit_elapsed == Some(0i64)
            &&& rt1.exit_pose == Some(pose)
            &&& !rt1.exit_pending_stop
            &&& rt1.captured_snapshot == rt0.captured_snapshot
        },
        !(sequence.restore_camera_on_finish && rt0.captured_snapshot is Some) ==> {
            &&& pb1.status == CinematicPlaybackStatus::Stopped
            &&& pb1.elapsed == 0
            &&& rt1.exit_elapsed is None
            &&& !rt1.exit_pending_stop
        },
{
    let step = spec_scaled_delta(pb0.speed as int, delta);
    let adv = spec_advance(pb0.elapsed as int, rt0.direction, step, total, sequence.loop_mode);
    assert(adv.0 == total);
    assert(adv.3);
    assert(messages.last() == RigMessage::SequenceFinished(SequenceFinished { rig }));
}

/// Resuming keeps the entry blend where it was: its elapsed time and whether
/// its completion was reported stay; playback plays on from where it was,
/// and only a resume from a stop takes a new gameplay snapshot. Playing, by
/// contrast, starts the entry blend anew.
pub proof fn law_resume_keeps_entry_blend<P>(
    r: u64,
    total: int,
    pb0: CinematicPlayback,
    rt0: CinematicRuntime<P>,
    pb1: CinematicPlayback,
    rt1: CinematicRuntime<P>,
    pb2: CinematicPlayback,
    rt2: CinematicRuntime<P>,
    fresh: Option<P>,
    pose: P,
)
    requires
        command_effect(CinematicPlaybackCommand::Resume(r), total, pb0, rt0, pb1, rt1, fresh, pose),
        command_effect(CinematicPlaybackCommand::Play(r), total, pb0, rt0, pb2, rt2, fresh, pose),
    ensures
        pb1.status == CinematicPlaybackStatus::Playing,
        pb1.elapsed == pb0.elapsed,
        rt1.entry_elapsed == rt0.entry_elapsed,
        rt1.entry_blend_reported == rt0.entry_blend_reported,
        pb0.status != CinematicPlaybackStatus::Stopped ==> rt1.captured_snapshot == rt0.captured_snapshot,
        pb0.status == CinematicPlaybackStatus::Stopped ==> rt1.captured_snapshot == fresh,
        rt2.entry_elapsed == 0,
        !rt2.entry_blend_reported,
{
}

/// The gameplay overlay a solve lays over the shots follows the runtime: an
/// entry overlay is at the time actually spent in the entry blend, which is
/// still short of its length; an exit overlay is at the time spent exiting;
/// and a playing or paused rig with a snapshot whose entry blend is not done
/// gets the entry overlay.
pub proof fn law_overlay_follows_runtime<P>(
    rig: u64,
    rig_enabled: bool,
    sequence: SequenceTiming,
    pb: CinematicPlayback,
    rt0: CinematicRuntime<P>,
    rt1: CinematicRuntime<P>,
    plan: SolvePlan,
)
    requires
        sequence.shots@.len() > 0,
        solve_effect(rig, rig_enabled, sequence, pb, rt0, rt1, plan),
    ensures
        plan.overlay is Entry ==> ({
            &&& plan.overlay->Entry_elapsed == rt0.entry_elapsed
            &&& rt0.entry_elapsed < sequence.entry_blend.duration
            &&& rt0.captured_snapshot is Some
            &&& pb.status != CinematicPlaybackStatus::Stopped
            &&& pb.status != CinematicPlaybackStatus::Exiting
        }),
        plan.overlay is Exit ==> ({
            &&& rt0.exit_elapsed == Some(plan.overlay->Exit_elapsed)
            &&& pb.status == CinematicPlaybackStatus::Exiting
            &&& rt0.captured_snapshot is Some
            &&& rt0.exit_pose is Some
        }),
        (pb.status == CinematicPlaybackStatus::Playing || pb.status == CinematicPlaybackStatus::Paused)
            && rt0.captured_snapshot is Some && 0 <= rt0.entry_elapsed < sequence.entry_blend.duration
            ==> plan.overlay == (PoseOverlay::Entry { elapsed: rt0.entry_elapsed }),
{
}

/// A playing frame before the end of a play-once sequence moves its time on
/// by the frame scaled by the playback speed, keeps playing, and runs the
/// entry blend on by the frame's own length, up to the blend's length; the
/// snapshot and the exit state are left alone, and the sequence is not
/// reported finished.
pub proof fn law_playing_frame_moves_on<P>(
    rig: u64,
    sequence: SequenceTiming,
    total: int,
    timeline: Seq<TimelineEvent>,
    pb0: CinematicPlayback,
    rt0: CinematicRuntime<P>,
    pb1: CinematicPlayback,
    rt1: CinematicRuntime<P>,
    current_shot: Option<usize>,
    pose: P,
    delta: int,
    messages: Seq<RigMessage>,
)
    requires
        sequence.shots@.len() > 0,
        sequence.loop_mode == PlaybackLoopMode::Once,
        pb0.status == CinematicPlaybackStatus::Playing,
        !rt0.exit_pending_stop,
        rt0.exit_elapsed is None,
        0 <= pb0.elapsed,
        0 <= rt0.entry_elapsed,
        0 <= delta,
        pb0.elapsed + spec_scaled_delta(pb0.speed as int, delta) < total <= i64::MAX,
        advance_effect(rig, sequence, total, timeline, pb0, rt0, pb1, rt1, current_shot, pose, delta, messages),
    ensures
        pb1.status == CinematicPlaybackStatus::Playing,
        pb1.elapsed == pb0.elapsed + spec_scaled_delta(pb0.speed as int, delta),
        pb1.speed == pb0.speed,
        rt1.entry_elapsed == (if rt0.entry_elapsed + delta <= sequence.entry_blend.duration {
            rt0.entry_elapsed + delta
        } else {
            max_int(sequence.entry_blend.duration as int, 0)
        }),
        rt1.captured_snapshot == rt0.captured_snapshot,
        rt1.exit_elapsed is None,
        rt1.exit_pose == rt0.exit_pose,
        !rt1.exit_pending_stop,
        forall|i: int| 0 <= i < messages.len() ==> !(#[trigger] messages[i] is SequenceFinished),
{
    let step = spec_scaled_delta(pb0.speed as int, delta);
    let adv = spec_advance(pb0.elapsed as int, rt0.direction, step, total, sequence.loop_mode);
    assert(adv.0 == pb0.elapsed + step);
    assert(!adv.3);
    let passed = if rt0.suppress_events_once || adv.1 == PlayDirection::Backward {
        Seq::<TimelineEvent>::empty()
    } else {
        frame_events(timeline, pb0.elapsed as int, adv.0, total, adv.2)
    };
    assert(messages =~= passed.map_values(|e: TimelineEvent| event_message(rig, sequence.shots@, e)));
    assert forall|i: int| 0 <= i < messages.len() implies !(#[trigger] messages[i] is SequenceFinished) by {
        let e = passed[i];
        assert(messages[i] == event_message(rig, sequence.shots@, e));
    }
}

/// A paused or stopped rig that is not exiting stands still: a frame
/// changes nothing and sends nothing.
pub proof fn law_paused_frame_stands_still<P>(
    rig: u64,
    sequence: SequenceTiming,
    total: int,
    timeline: Seq<TimelineEvent>,
    pb0: CinematicPlayback,
    rt0: CinematicRuntime<P>,
    pb1: CinematicPlayback,
    rt1: CinematicRuntime<P>,
    current_shot: Option<usize>,
    pose: P,
    delta: int,
    messages: Seq<RigMessage>,
)
    requires
        sequence.shots@.len() > 0,
        pb0.status == CinematicPlaybackStatus::Paused || pb0.status == CinematicPlaybackStatus::Stopped,
        !rt0.exit_pending_stop,
        rt0.exit_elapsed is None,
        advance_effect(rig, sequence, total, timeline, pb0, rt0, pb1, rt1, current_shot, pose, delta, messages),
    ensures
        pb1 == pb0,
        rt1 == rt0,
        messages.len() == 0,
{
}

} // verus!
