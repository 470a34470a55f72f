//! The timing view of a sequence and the timeline cache built from it:
//! where every shot starts once blend overlaps are taken out, how long the
//! whole sequence runs, and the ordered list of lifecycle and marker events.
use vstd::prelude::*;
use vstd::relations::{sorted_by, total_ordering};
use crate::time::{Ticks, MIN_SHOT_TICKS, max_int, min_int, max_ticks, min_ticks};
use crate::config::{CinematicBlend, PlaybackLoopMode, ShotMarker};

verus! {

/// The largest magnitude a shot duration or blend may have (about fifty days).
pub const MAX_TIMING_TICKS: i64 = 0x400_0000_0000;

/// The most shots a sequence may hold.
pub const MAX_SHOTS: usize = 65536;

/// What the timeline needs to know of a shot.
#[derive(Clone, Debug)]
pub struct ShotTiming {
    pub name: String,
    pub duration: Ticks,
    /// Overlap with the previous shot, blended across.
    pub blend_in: CinematicBlend,
    pub markers: Vec<ShotMarker>,
}

/// What the timeline needs to know of a sequence.
#[derive(Clone, Debug)]
pub struct SequenceTiming {
    pub shots: Vec<ShotTiming>,
    pub loop_mode: PlaybackLoopMode,
    pub restore_camera_on_finish: bool,
    pub entry_blend: CinematicBlend,
    pub exit_blend: CinematicBlend,
}

/// The durations and blends of every shot are small enough, and the shots few
/// enough, that every instant of the timeline fits in a tick.
pub open spec fn timing_within_limits(shots: Seq<ShotTiming>) -> bool {
    &&& shots.len() <= MAX_SHOTS
    &&& forall|i: int| #![trigger shots[i]] 0 <= i < shots.len() ==> {
        &&& -MAX_TIMING_TICKS <= shots[i].duration <= MAX_TIMING_TICKS
        &&& -MAX_TIMING_TICKS <= shots[i].blend_in.duration <= MAX_TIMING_TICKS
    }
}

/// How long a shot of `duration` occupies the timeline before overlaps.
pub open spec fn shot_span(duration: int) -> int {
    max_int(duration, MIN_SHOT_TICKS as int)
}

/// How much `cur` starts before `prev` ends: its blend-in, limited by both shots.
pub open spec fn shot_overlap(prev: ShotTiming, cur: ShotTiming) -> int {
    min_int(min_int(cur.blend_in.duration as int, max_int(prev.duration as int, 0)), max_int(cur.duration as int, 0))
}

/// Where shot `i` starts: the first at zero, each next one where the
/// previous one's span ends, moved earlier by its overlap.
pub open spec fn shot_start(shots: Seq<ShotTiming>, i: int) -> int
    decreases i,
{
    if i <= 0 {
        0
    } else {
        shot_start(shots, i - 1) + shot_span(shots[i - 1].duration as int) - shot_overlap(shots[i - 1], shots[i])
    }
}

/// The length of the whole sequence: the start of the last shot plus its duration.
pub open spec fn sequence_total(shots: Seq<ShotTiming>) -> int {
    if shots.len() == 0 {
        0
    } else {
        shot_start(shots, shots.len() - 1) + shots[shots.len() - 1].duration
    }
}

/// What happens at an instant of the timeline.
#[derive(Clone, Copy, Debug, PartialEq, Eq, Structural)]
pub enum TimelineEventKind {
    ShotStarted,
    /// The marker at this index in the shot's marker list.
    Marker(usize),
    ShotFinished,
}

/// An event of the timeline, at a time, belonging to a shot.
#[derive(Clone, Copy, Debug, PartialEq, Eq, Structural)]
pub struct TimelineEvent {
    pub time: Ticks,
    pub shot_index: usize,
    pub kind: TimelineEventKind,
}

/// Events at the same instant come in this order: starts, then markers, then finishes.
pub open spec fn kind_rank(kind: TimelineEventKind) -> int {
    match kind {
        TimelineEventKind::ShotStarted => 0,
        TimelineEventKind::Marker(_) => 1,
        TimelineEventKind::ShotFinished => 2,
    }
}

pub open spec fn marker_rank(kind: TimelineEventKind) -> int {
    match kind {
        TimelineEventKind::Marker(j) => j as int,
        _ => 0,
    }
}

/// The timeline order: by time, then kind, then shot, then marker position.
pub open spec fn event_le(a: TimelineEvent, b: TimelineEvent) -> bool {
    ||| a.time < b.time
    ||| a.time == b.time && kind_rank(a.kind) < kind_rank(b.kind)
    ||| a.time == b.time && kind_rank(a.kind) == kind_rank(b.kind) && a.shot_index < b.shot_index
    ||| a.time == b.time && kind_rank(a.kind) == kind_rank(b.kind) && a.shot_index == b.shot_index
        && marker_rank(a.kind) <= marker_rank(b.kind)
}

pub open spec fn event_order() -> spec_fn(TimelineEvent, TimelineEvent) -> bool {
    |a: TimelineEvent, b: TimelineEvent| event_le(a, b)
}

/// Where a marker of a shot of `duration` fires, from the start of the shot.
pub open spec fn marker_offset(marker: ShotMarker, duration: int) -> int {
    min_int(max_int(duration, 0), marker.at.spec_offset(duration))
}

/// The events of shot `i`, in authored order: its start, its markers, its finish.
pub open spec fn shot_events(shots: Seq<ShotTiming>, i: int) -> Seq<TimelineEvent> {
    let start = shot_start(shots, i);
    let shot = shots[i];
    seq![TimelineEvent { time: start as i64, shot_index: i as usize, kind: TimelineEventKind::ShotStarted }]
        + Seq::new(shot.markers@.len(), |j: int| TimelineEvent {
            time: (start + marker_offset(shot.markers@[j], shot.duration as int)) as i64,
            shot_index: i as usize,
            kind: TimelineEventKind::Marker(j as usize),
        })
        + seq![TimelineEvent {
            time: (start + max_int(shot.duration as int, 0)) as i64,
            shot_index: i as usize,
            kind: TimelineEventKind::ShotFinished,
        }]
}

/// The events of the first `k` shots, shot after shot.
pub open spec fn events_upto(shots: Seq<ShotTiming>, k: int) -> Seq<TimelineEvent>
    decreases k,
{
    if k <= 0 {
        Seq::empty()
    } else {
        events_upto(shots, k - 1) + shot_events(shots, k - 1)
    }
}

/// Every event of the sequence in timeline order.
pub open spec fn timeline_events(shots: Seq<ShotTiming>) -> Seq<TimelineEvent> {
    events_upto(shots, shots.len() as int).sort_by(event_order())
}


/// Under the limits every shot starts no earlier than the one before it, and
/// within the range a tick can hold.
proof fn lemma_shot_start_bounds(shots: Seq<ShotTiming>, i: int)
    requires
        timing_within_limits(shots),
        0 <= i < shots.len(),
    ensures
        0 <= shot_start(shots, i) <= 2 * MAX_TIMING_TICKS * i,
        i > 0 ==> shot_start(shots, i - 1) <= shot_start(shots, i),
    decreases i,
{
    if i > 0 {
        lemma_shot_start_bounds(shots, i - 1);
        let prev = shots[i - 1];
        let cur = shots[i];
        assert(-MAX_TIMING_TICKS <= prev.duration <= MAX_TIMING_TICKS);
        assert(-MAX_TIMING_TICKS <= cur.blend_in.duration <= MAX_TIMING_TICKS);
        assert(shot_overlap(prev, cur) <= shot_span(prev.duration as int));
        assert(shot_overlap(prev, cur) >= -MAX_TIMING_TICKS);
        assert(shot_span(prev.duration as int) <= MAX_TIMING_TICKS);
        assert(2 * MAX_TIMING_TICKS * (i - 1) + 2 * MAX_TIMING_TICKS == 2 * MAX_TIMING_TICKS * i) by (nonlinear_arith);
    }
}

/// The timeline order is a total order on events.
proof fn lemma_event_order_total()
    ensures
        total_ordering(event_order()),
{
    let le = event_order();
    assert forall|a: TimelineEvent, b: TimelineEvent| #[trigger] le(a, b) && #[trigger] le(b, a) implies a == b by {
        assert(a.time == b.time);
        assert(kind_rank(a.kind) == kind_rank(b.kind));
        assert(a.shot_index == b.shot_index);
        assert(marker_rank(a.kind) == marker_rank(b.kind));
        match a.kind {
            TimelineEventKind::Marker(j) => {
                assert(b.kind matches TimelineEventKind::Marker(_));
            },
            _ => {},
        }
    }
    assert forall|a: TimelineEvent, b: TimelineEvent, c: TimelineEvent| #[trigger] le(a, b) && #[trigger] le(b, c) implies le(a, c) by {}
    assert forall|a: TimelineEvent, b: TimelineEvent| #[trigger] le(a, b) || #[trigger] le(b, a) by {}
    assert forall|a: TimelineEvent| #[trigger] le(a, a) by {}
}

fn kind_rank_exec(kind: TimelineEventKind) -> (r: u8)
    ensures
        r as int == kind_rank(kind),
{
    match kind {
        TimelineEventKind::ShotStarted => 0,
        TimelineEventKind::Marker(_) => 1,
        TimelineEventKind::ShotFinished => 2,
    }
}

fn marker_rank_exec(kind: TimelineEventKind) -> (r: usize)
    ensures
        r as int == marker_rank(kind),
{
    match kind {
        TimelineEventKind::Marker(j) => j,
        _ => 0,
    }
}

/// Whether `a` comes no later than `b` in timeline order.
pub fn event_precedes(a: &TimelineEvent, b: &TimelineEvent) -> (r: bool)
    ensures
        r == event_le(*a, *b),
{
    if a.time != b.time {
        return a.time < b.time;
    }
    let ka = kind_rank_exec(a.kind);
    let kb = kind_rank_exec(b.kind);
    if ka != kb {
        return ka < kb;
    }
    if a.shot_index != b.shot_index {
        return a.shot_index < b.shot_index;
    }
    marker_rank_exec(a.kind) <= marker_rank_exec(b.kind)
}

/// Puts events into timeline order.
pub fn sort_events(events: Vec<TimelineEvent>) -> (r: Vec<TimelineEvent>)
    ensures
        r@ == events@.sort_by(event_order()),
{
    let ghost le = event_order();
    proof { lemma_event_order_total(); }
    let mut sorted: Vec<TimelineEvent> = Vec::new();
    let mut k: usize = 0;
    proof { assert(sorted@ =~= events@.take(0)); }
    while k < events.len()
        invariant
            le == event_order(),
            total_ordering(le),
            0 <= k <= events.len(),
            sorted_by(sorted@, le),
            sorted@.to_multiset() == events@.take(k as int).to_multiset(),
        decreases events.len() - k,
    {
        let e = events[k];
        let mut pos: usize = 0;
        while pos < sorted.len() && event_precedes(&sorted[pos], &e)
            invariant
                0 <= pos <= sorted.len(),
                forall|i: int| 0 <= i < pos ==> le(sorted@[i], e),
                le == event_order(),
            decreases sorted.len() - pos,
        {
            pos = pos + 1;
        }
        proof {
            assert forall|i: int| pos <= i < sorted.len() implies le(e, #[trigger] sorted@[i]) by {
                assert(!le(sorted@[pos as int], e));
                if i > pos {
                    assert(le(sorted@[pos as int], sorted@[i]));
                    if le(sorted@[i], e) {
                        assert(le(sorted@[pos as int], e));
                    }
                }
                assert(le(sorted@[i], e) || le(e, sorted@[i]));
            }
        }
        let ghost before = sorted@;
        sorted.insert(pos, e);
        proof {
            vstd::seq_lib::to_multiset_insert(before, pos as int, e);
            assert(events@.take(k + 1) == events@.take(k as int).push(e));
            vstd::seq_lib::to_multiset_build(events@.take(k as int), e);
            assert forall|i: int, j: int| 0 <= i < j < sorted@.len() implies #[trigger] le(sorted@[i], sorted@[j]) by {
                if j < pos {
                } else if j == pos {
                } else if i < pos {
                    assert(le(sorted@[i], e));
                    assert(le(e, sorted@[j]));
                } else if i == pos {
                } else {
                    assert(sorted@[i] == before[i - 1]);
                    assert(sorted@[j] == before[j - 1]);
                }
            }
        }
        k = k + 1;
    }
    proof {
        assert(events@.take(events@.len() as int) == events@);
        events@.lemma_sort_by_ensures(le);
        vstd::seq_lib::lemma_sorted_unique(sorted@, events@.sort_by(le), le);
    }
    sorted
}


/// The prefix of shot `i`'s events: its start and its first `j` markers.
pub open spec fn shot_events_prefix(shots: Seq<ShotTiming>, i: int, j: int) -> Seq<TimelineEvent> {
    shot_events(shots, i).take(j + 1)
}

/// The timeline of a sequence, computed once per change of the sequence.
#[derive(Clone, Debug)]
pub struct CinematicSequenceCache {
    /// Where each shot starts on the visible timeline.
    pub shot_starts: Vec<Ticks>,
    /// The length of the visible timeline.
    pub total_duration: Ticks,
    /// Every lifecycle and marker event, in timeline order.
    pub timeline_events: Vec<TimelineEvent>,
}

impl CinematicSequenceCache {
    /// This cache is the timeline of `shots`.
    pub open spec fn describes(&self, shots: Seq<ShotTiming>) -> bool {
        &&& self.shot_starts@.len() == shots.len()
        &&& forall|i: int| 0 <= i < shots.len() ==> #[trigger] self.shot_starts@[i] == shot_start(shots, i)
        &&& self.total_duration == sequence_total(shots)
        &&& self.timeline_events@ == timeline_events(shots)
    }

    /// The cache of a sequence with no shots.
    pub fn empty() -> (r: Self)
        ensures
            r.describes(Seq::<ShotTiming>::empty()),
    {
        let r = CinematicSequenceCache { shot_starts: Vec::new(), total_duration: 0, timeline_events: Vec::new() };
        proof {
            assert(events_upto(Seq::<ShotTiming>::empty(), 0) =~= Seq::<TimelineEvent>::empty());
            lemma_event_order_total();
            Seq::<TimelineEvent>::empty().lemma_sort_by_ensures(event_order());
            vstd::seq_lib::lemma_sorted_unique(r.timeline_events@, timeline_events(Seq::<ShotTiming>::empty()), event_order());
        }
        r
    }

    /// Builds the timeline of a sequence: shot starts with blend overlaps taken
    /// out, the visible length, and every event in timeline order.
    pub fn rebuild(sequence: &SequenceTiming) -> (r: Self)
        requires
            timing_within_limits(sequence.shots@),
        ensures
            r.describes(sequence.shots@),
    {
        let ghost shots = sequence.shots@;
        let n = sequence.shots.len();
        let mut starts: Vec<Ticks> = Vec::new();
        let mut events: Vec<TimelineEvent> = Vec::new();
        let mut cursor: i64 = 0;
        let mut i: usize = 0;
        while i < n
            invariant
                shots == sequence.shots@,
                n == shots.len(),
                timing_within_limits(shots),
                0 <= i <= n,
                starts@.len() == i,
                forall|k: int| 0 <= k < i ==> #[trigger] starts@[k] == shot_start(shots, k),
                events@ == events_upto(shots, i as int),
                i > 0 ==> cursor == shot_start(shots, i - 1) + shot_span(shots[i - 1].duration as int),
                i > 0 ==> 0 <= cursor <= 2 * MAX_TIMING_TICKS * i,
            decreases n - i,
        {
            let shot = &sequence.shots[i];
            proof {
                lemma_shot_start_bounds(shots, i as int);
                assert(-MAX_TIMING_TICKS <= shots[i as int].duration <= MAX_TIMING_TICKS);
                assert(-MAX_TIMING_TICKS <= shots[i as int].blend_in.duration <= MAX_TIMING_TICKS);
                assert(2 * MAX_TIMING_TICKS * (i as int) <= 2 * MAX_TIMING_TICKS * (MAX_SHOTS as int)) by (nonlinear_arith)
                    requires i <= MAX_SHOTS;
            }
            let start: i64 = if i == 0 {
                0
            } else {
                let prev = &sequence.shots[i - 1];
                let overlap = min_ticks(min_ticks(shot.blend_in.duration, max_ticks(prev.duration, 0)), max_ticks(shot.duration, 0));
                cursor - overlap
            };
            assert(start == shot_start(shots, i as int));
            starts.push(start);
            cursor = start + max_ticks(shot.duration, MIN_SHOT_TICKS);
            let ghost base = events@;
            events.push(TimelineEvent { time: start, shot_index: i, kind: TimelineEventKind::ShotStarted });
            let mut j: usize = 0;
            while j < shot.markers.len()
                invariant
                    shots == sequence.shots@,
                    0 <= i < n == shots.len(),
                    *shot == shots[i as int],
                    start == shot_start(shots, i as int),
                    0 <= start <= 2 * MAX_TIMING_TICKS * MAX_SHOTS,
                    -MAX_TIMING_TICKS <= shot.duration <= MAX_TIMING_TICKS,
                    0 <= j <= shot.markers@.len(),
                    events@ == base + shot_events_prefix(shots, i as int, j as int),
                decreases shot.markers.len() - j,
            {
                let marker_time = shot.markers[j].at.seconds(shot.duration);
                let offset = min_ticks(max_ticks(shot.duration, 0), marker_time);
                let ghost before = events@;
                events.push(TimelineEvent { time: start + offset, shot_index: i, kind: TimelineEventKind::Marker(j) });
                proof {
                    assert(shot_events_prefix(shots, i as int, j + 1) =~= shot_events_prefix(shots, i as int, j as int).push(events@.last()));
                }
                j = j + 1;
            }
            events.push(TimelineEvent { time: start + max_ticks(shot.duration, 0), shot_index: i, kind: TimelineEventKind::ShotFinished });
            proof {
                assert(shot_events(shots, i as int) =~= shot_events_prefix(shots, i as int, shot.markers@.len() as int).push(events@.last()));
                assert(events@ =~= events_upto(shots, i + 1));
            }
            i = i + 1;
        }
        let total: i64 = if n == 0 { 0 } else { starts[n - 1] + sequence.shots[n - 1].duration };
        let sorted = sort_events(events);
        CinematicSequenceCache { shot_starts: starts, total_duration: total, timeline_events: sorted }
    }
}


/// Whether time `t` falls inside the blend window where shot `i` fades in over shot `i - 1`.
pub open spec fn in_blend_window(shots: Seq<ShotTiming>, i: int, t: int) -> bool {
    let overlap = shot_overlap(shots[i - 1], shots[i]);
    &&& overlap > 0
    &&& shot_start(shots, i) <= t < shot_start(shots, i) + overlap
}

/// A running blend between two consecutive shots.
#[derive(Clone, Copy, Debug, PartialEq, Eq, Structural)]
pub struct ShotBlend {
    pub from_shot: usize,
    pub to_shot: usize,
    /// Time since the incoming shot started.
    pub elapsed: Ticks,
}

/// The shot that owns time `t`: the last one whose start is not after `t`.
pub fn dominant_shot(shot_starts: &Vec<Ticks>, t: Ticks) -> (r: Option<usize>)
    ensures
        match r {
            Some(i) => {
                &&& i < shot_starts@.len()
                &&& shot_starts@[i as int] <= t
                &&& forall|j: int| i < j < shot_starts@.len() ==> t < #[trigger] shot_starts@[j]
            },
            None => forall|j: int| 0 <= j < shot_starts@.len() ==> t < #[trigger] shot_starts@[j],
        },
{
    let mut result: Option<usize> = None;
    let mut i: usize = 0;
    while i < shot_starts.len()
        invariant
            0 <= i <= shot_starts@.len(),
            match result {
                Some(k) => {
                    &&& k < i
                    &&& shot_starts@[k as int] <= t
                    &&& forall|j: int| k < j < i ==> t < #[trigger] shot_starts@[j]
                },
                None => forall|j: int| 0 <= j < i ==> t < #[trigger] shot_starts@[j],
            },
        decreases shot_starts.len() - i,
    {
        if t >= shot_starts[i] {
            result = Some(i);
        }
        i = i + 1;
    }
    result
}

/// The blend between consecutive shots that is running at time `t`, if any:
/// the first shot whose blend-in window holds `t`.
pub fn active_blend(sequence: &SequenceTiming, cache: &CinematicSequenceCache, t: Ticks) -> (r: Option<ShotBlend>)
    requires
        timing_within_limits(sequence.shots@),
        cache.describes(sequence.shots@),
    ensures
        match r {
            Some(b) => {
                &&& 1 <= b.to_shot < sequence.shots@.len()
                &&& b.from_shot == b.to_shot - 1
                &&& in_blend_window(sequence.shots@, b.to_shot as int, t as int)
                &&& b.elapsed == t - shot_start(sequence.shots@, b.to_shot as int)
                &&& forall|k: int| 1 <= k < b.to_shot ==> !#[trigger] in_blend_window(sequence.shots@, k, t as int)
            },
            None => forall|k: int| 1 <= k < sequence.shots@.len() ==> !#[trigger] in_blend_window(sequence.shots@, k, t as int),
        },
{
    let ghost shots = sequence.shots@;
    let n = sequence.shots.len();
    let mut i: usize = 1;
    while i < n
        invariant
            shots == sequence.shots@,
            n == shots.len(),
            timing_within_limits(shots),
            cache.describes(shots),
            1 <= i,
            i <= n || n == 0,
            forall|k: int| 1 <= k < i && k < n ==> !#[trigger] in_blend_window(shots, k, t as int),
        decreases n - i,
    {
        let prev = &sequence.shots[i - 1];
        let shot = &sequence.shots[i];
        let blend = min_ticks(min_ticks(shot.blend_in.duration, max_ticks(prev.duration, 0)), max_ticks(shot.duration, 0));
        if blend > 0 {
            proof {
                lemma_shot_start_bounds(shots, i as int);
                assert(-MAX_TIMING_TICKS <= shots[i as int].duration <= MAX_TIMING_TICKS);
                assert(2 * MAX_TIMING_TICKS * (i as int) <= 2 * MAX_TIMING_TICKS * (MAX_SHOTS as int)) by (nonlinear_arith)
                    requires i <= MAX_SHOTS;
            }
            let start = cache.shot_starts[i];
            if start <= t && t < start + blend {
                return Some(ShotBlend { from_shot: i - 1, to_shot: i, elapsed: t - start });
            }
        }
        i = i + 1;
    }
    None
}

/// Whether an event lies in the window from `from` to `to`; the lower end
/// counts only when `include_from` is set.
pub open spec fn in_event_window(e: TimelineEvent, from: int, to: int, include_from: bool) -> bool {
    &&& if include_from { e.time >= from } else { e.time > from }
    &&& e.time <= to
}

/// The events of a timeline that lie in a window, in timeline order.
pub fn events_between(events: &Vec<TimelineEvent>, from: Ticks, to: Ticks, include_from: bool) -> (r: Vec<TimelineEvent>)
    ensures
        r@ == events@.filter(|e: TimelineEvent| in_event_window(e, from as int, to as int, include_from)),
{
    let ghost pred = |e: TimelineEvent| in_event_window(e, from as int, to as int, include_from);
    let mut out: Vec<TimelineEvent> = Vec::new();
    let mut i: usize = 0;
    proof {
        reveal(Seq::filter);
        assert(events@.take(0).filter(pred) =~= Seq::<TimelineEvent>::empty());
    }
    while i < events.len()
        invariant
            0 <= i <= events@.len(),
            pred == (|e: TimelineEvent| in_event_window(e, from as int, to as int, include_from)),
            out@ == events@.take(i as int).filter(pred),
        decreases events.len() - i,
    {
        let e = events[i];
        let after_from = if include_from { e.time >= from } else { e.time > from };
        proof {
            assert(events@.take(i + 1).drop_last() =~= events@.take(i as int));
            assert(events@.take(i + 1).last() == e);
            assert(pred(e) == (after_from && e.time <= to));
        }
        if after_from && e.time <= to {
            out.push(e);
        }
        proof {
            let s = events@.take(i + 1);
            reveal(Seq::filter);
            assert(s.len() > 0);
            assert(s.filter(pred) == (if pred(s.last()) { s.drop_last().filter(pred).push(s.last()) } else { s.drop_last().filter(pred) }));
        }
        i = i + 1;
    }
    proof { assert(events@.take(events@.len() as int) =~= events@); }
    out
}


/// The event belongs to one of the shots, and a marker event to one of its markers.
pub open spec fn event_refers_to(shots: Seq<ShotTiming>, e: TimelineEvent) -> bool {
    &&& e.shot_index < shots.len()
    &&& match e.kind {
        TimelineEventKind::Marker(j) => j < shots[e.shot_index as int].markers@.len(),
        _ => true,
    }
}

proof fn lemma_events_upto_refer(shots: Seq<ShotTiming>, k: int)
    requires
        0 <= k <= shots.len() <= usize::MAX,
        forall|i: int| 0 <= i < shots.len() ==> #[trigger] shots[i].markers@.len() <= usize::MAX,
    ensures
        forall|i: int| 0 <= i < events_upto(shots, k).len() ==> event_refers_to(shots, #[trigger] events_upto(shots, k)[i]),
    decreases k,
{
    if k > 0 {
        lemma_events_upto_refer(shots, k - 1);
        let prev = events_upto(shots, k - 1);
        let own = shot_events(shots, k - 1);
        assert forall|i: int| 0 <= i < events_upto(shots, k).len() implies event_refers_to(shots, #[trigger] events_upto(shots, k)[i]) by {
            if i < prev.len() {
                assert(events_upto(shots, k)[i] == prev[i]);
            } else {
                let j = i - prev.len();
                let m = shots[k - 1].markers@.len() as int;
                assert(events_upto(shots, k)[i] == own[j]);
                if j == 0 {
                    assert(own[j].shot_index == (k - 1) as usize);
                } else if j <= m {
                    assert(own[j].kind == TimelineEventKind::Marker((j - 1) as usize));
                    assert(own[j].shot_index == (k - 1) as usize);
                } else {
                    assert(own[j].shot_index == (k - 1) as usize);
                    assert(own[j].kind == TimelineEventKind::ShotFinished);
                }
            }
        }
    }
}

/// Every event of a timeline belongs to a shot of the sequence (and a marker event to a marker).
pub proof fn lemma_timeline_events_refer(shots: Seq<ShotTiming>)
    requires
        shots.len() <= usize::MAX,
        forall|i: int| 0 <= i < shots.len() ==> #[trigger] shots[i].markers@.len() <= usize::MAX,
    ensures
        forall|e: TimelineEvent| #[trigger] timeline_events(shots).contains(e) ==> event_refers_to(shots, e),
{
    let all = events_upto(shots, shots.len() as int);
    lemma_events_upto_refer(shots, shots.len() as int);
    lemma_event_order_total();
    all.lemma_sort_by_ensures(event_order());
    assert forall|e: TimelineEvent| #[trigger] timeline_events(shots).contains(e) implies event_refers_to(shots, e) by {
        assert(all.contains(e));
        let i = choose|i: int| 0 <= i < all.len() && all[i] == e;
        assert(event_refers_to(shots, all[i]));
    }
}

/// Later shots never start before earlier ones.
pub proof fn lemma_shot_start_monotone(shots: Seq<ShotTiming>, i: int, j: int)
    requires
        timing_within_limits(shots),
        0 <= i <= j < shots.len(),
    ensures
        0 <= shot_start(shots, i) <= shot_start(shots, j) <= 2 * MAX_TIMING_TICKS * j,
    decreases j - i,
{
    lemma_shot_start_bounds(shots, j);
    if i < j {
        lemma_shot_start_monotone(shots, i, j - 1);
    } else {
        lemma_shot_start_bounds(shots, i);
    }
}

/// Shots never start before the shots authored ahead of them: a blend-in can
/// at most overlap the whole previous shot.
pub proof fn law_shot_starts_never_decrease(cache: CinematicSequenceCache, shots: Seq<ShotTiming>, i: int, j: int)
    requires
        timing_within_limits(shots),
        cache.describes(shots),
        0 <= i <= j < shots.len(),
    ensures
        0 <= cache.shot_starts@[i] <= cache.shot_starts@[j],
{
    lemma_shot_start_monotone(shots, i, j);
}

/// The cached events come in timeline order: by time, then starts before
/// markers before finishes, then by shot, then by marker position.
pub proof fn law_timeline_in_order(cache: CinematicSequenceCache, shots: Seq<ShotTiming>)
    requires
        cache.describes(shots),
    ensures
        sorted_by(cache.timeline_events@, event_order()),
{
    lemma_event_order_total();
    events_upto(shots, shots.len() as int).lemma_sort_by_ensures(event_order());
}

/// The events of the first `k` shots sit inside their shots: each start at
/// its shot's start, each marker between its shot's start and finish, each
/// finish at the start plus the (nonnegative part of the) duration.
proof fn lemma_events_upto_inside(shots: Seq<ShotTiming>, k: int)
    requires
        timing_within_limits(shots),
        0 <= k <= shots.len(),
        forall|i: int| 0 <= i < shots.len() ==> #[trigger] shots[i].markers@.len() <= usize::MAX,
    ensures
        forall|i: int| 0 <= i < events_upto(shots, k).len() ==> event_inside_shot(shots, #[trigger] events_upto(shots, k)[i]),
    decreases k,
{
    if k > 0 {
        lemma_events_upto_inside(shots, k - 1);
        lemma_shot_start_bounds(shots, k - 1);
        let prev = events_upto(shots, k - 1);
        let own = shot_events(shots, k - 1);
        let shot = shots[k - 1];
        assert(-MAX_TIMING_TICKS <= shot.duration <= MAX_TIMING_TICKS);
        assert(2 * MAX_TIMING_TICKS * (k - 1) <= 2 * MAX_TIMING_TICKS * (MAX_SHOTS as int)) by (nonlinear_arith)
            requires k - 1 <= MAX_SHOTS;
        assert forall|i: int| 0 <= i < events_upto(shots, k).len() implies event_inside_shot(shots, #[trigger] events_upto(shots, k)[i]) by {
            if i < prev.len() {
                assert(events_upto(shots, k)[i] == prev[i]);
            } else {
                let j = i - prev.len();
                let m = shot.markers@.len() as int;
                assert(events_upto(shots, k)[i] == own[j]);
                if 1 <= j <= m {
                    let marker = shot.markers@[j - 1];
                    assert(own[j].kind == TimelineEventKind::Marker((j - 1) as usize));
                    assert(0 <= marker_offset(marker, shot.duration as int) <= max_int(shot.duration as int, 0));
                }
            }
        }
    }
}

/// The event lies inside its shot: a start at the shot's start, a marker
/// between the shot's start and its finish, a finish at the start plus the
/// nonnegative part of the duration.
pub open spec fn event_inside_shot(shots: Seq<ShotTiming>, e: TimelineEvent) -> bool {
    let start = shot_start(shots, e.shot_index as int);
    let finish = start + max_int(shots[e.shot_index as int].duration as int, 0);
    &&& e.shot_index < shots.len()
    &&& match e.kind {
        TimelineEventKind::ShotStarted => e.time == start,
        TimelineEventKind::Marker(_) => start <= e.time <= finish,
        TimelineEventKind::ShotFinished => e.time == finish,
    }
}

/// Every cached event sits inside its shot; in particular markers fire
/// between their shot's start and finish.
pub proof fn law_markers_fire_inside_their_shot(cache: CinematicSequenceCache, shots: Seq<ShotTiming>)
    requires
        timing_within_limits(shots),
        cache.describes(shots),
        forall|i: int| 0 <= i < shots.len() ==> #[trigger] shots[i].markers@.len() <= usize::MAX,
    ensures
        forall|i: int| 0 <= i < cache.timeline_events@.len() ==> event_inside_shot(shots, #[trigger] cache.timeline_events@[i]),
{
    let all = events_upto(shots, shots.len() as int);
    lemma_events_upto_inside(shots, shots.len() as int);
    lemma_event_order_total();
    all.lemma_sort_by_ensures(event_order());
    assert forall|i: int| 0 <= i < cache.timeline_events@.len() implies event_inside_shot(shots, #[trigger] cache.timeline_events@[i]) by {
        let e = cache.timeline_events@[i];
        assert(timeline_events(shots).contains(e));
        assert(all.contains(e));
        let k = choose|k: int| 0 <= k < all.len() && all[k] == e;
        assert(event_inside_shot(shots, all[k]));
    }
}

/// Whether a sequence's timing is within the limits the timeline supports.
pub fn timing_is_within_limits(shots: &Vec<ShotTiming>) -> (r: bool)
    ensures
        r == timing_within_limits(shots@),
{
    if shots.len() > MAX_SHOTS {
        return false;
    }
    let mut i: usize = 0;
    while i < shots.len()
        invariant
            0 <= i <= shots@.len() <= MAX_SHOTS,
            forall|k: int| #![trigger shots@[k]] 0 <= k < i ==> {
                &&& -MAX_TIMING_TICKS <= shots@[k].duration <= MAX_TIMING_TICKS
                &&& -MAX_TIMING_TICKS <= shots@[k].blend_in.duration <= MAX_TIMING_TICKS
            },
        decreases shots.len() - i,
    {
        let shot = &shots[i];
        if shot.duration < -MAX_TIMING_TICKS || shot.duration > MAX_TIMING_TICKS
            || shot.blend_in.duration < -MAX_TIMING_TICKS || shot.blend_in.duration > MAX_TIMING_TICKS {
            return false;
        }
        i = i + 1;
    }
    true
}

proof fn lemma_events_upto_contains(shots: Seq<ShotTiming>, k: int, i: int, j: int)
    requires
        0 <= i < k,
        0 <= j < shot_events(shots, i).len(),
    ensures
        events_upto(shots, k).contains(shot_events(shots, i)[j]),
    decreases k,
{
    let prev = events_upto(shots, k - 1);
    let all = events_upto(shots, k);
    if i == k - 1 {
        assert(all[prev.len() + j] == shot_events(shots, i)[j]);
    } else {
        lemma_events_upto_contains(shots, k - 1, i, j);
        let p = choose|p: int| 0 <= p < prev.len() && prev[p] == shot_events(shots, i)[j];
        assert(all[p] == prev[p]);
    }
}

/// Nothing authored is lost: every shot's start, each of its markers and its
/// finish are in the cached timeline.
pub proof fn law_every_shot_event_is_in_the_timeline(cache: CinematicSequenceCache, shots: Seq<ShotTiming>, i: int, j: int)
    requires
        cache.describes(shots),
        0 <= i < shots.len(),
        0 <= j < shot_events(shots, i).len(),
    ensures
        cache.timeline_events@.contains(shot_events(shots, i)[j]),
{
    let all = events_upto(shots, shots.len() as int);
    let e = shot_events(shots, i)[j];
    lemma_events_upto_contains(shots, shots.len() as int, i, j);
    lemma_event_order_total();
    all.lemma_sort_by_ensures(event_order());
    vstd::seq_lib::to_multiset_contains(all, e);
    vstd::seq_lib::to_multiset_contains(timeline_events(shots), e);
}

} // verus!
