//! Playback status, the per-rig playback component, and how visible sequence
//! time moves forward under each loop mode.
use vstd::prelude::*;
use crate::time::{Ticks, NORMALIZED_ONE, max_int, min_int, clamp_int};
use crate::config::PlaybackLoopMode;

verus! {

/// Where a rig's playback stands.
#[derive(Clone, Copy, Debug, PartialEq, Eq, Structural)]
pub enum CinematicPlaybackStatus {
    Stopped,
    Playing,
    Paused,
    /// Blending back to the gameplay camera before stopping.
    Exiting,
}

impl Default for CinematicPlaybackStatus {
    fn default() -> (r: Self)
        ensures
            r == CinematicPlaybackStatus::Stopped,
    {
        CinematicPlaybackStatus::Stopped
    }
}

/// The inspectable playback state of one rig.
#[derive(Clone, Copy, Debug, PartialEq, Eq, Structural)]
pub struct CinematicPlayback {
    pub status: CinematicPlaybackStatus,
    /// Visible sequence time.
    pub elapsed: Ticks,
    /// Playback rate in millionths (`NORMALIZED_ONE` plays in real time).
    pub speed: i64,
}

impl Default for CinematicPlayback {
    fn default() -> (r: Self)
        ensures
            r.status == CinematicPlaybackStatus::Stopped,
            r.elapsed == 0,
            r.speed == NORMALIZED_ONE,
    {
        CinematicPlayback { status: CinematicPlaybackStatus::Stopped, elapsed: 0, speed: NORMALIZED_ONE }
    }
}

/// The time a frame of `delta` advances a timeline running at `speed`
/// (millionths; a negative speed counts as zero), capped at the largest tick.
pub open spec fn spec_scaled_delta(speed: int, delta: int) -> int {
    min_int(max_int(speed, 0) * delta / (NORMALIZED_ONE as int), i64::MAX as int)
}

impl CinematicPlayback {
    pub open spec fn spec_is_active(self) -> bool {
        self.status != CinematicPlaybackStatus::Stopped
    }

    /// Starts or continues playing; time is kept.
    pub fn play(&mut self)
        ensures
            final(self).status == CinematicPlaybackStatus::Playing,
            final(self).elapsed == old(self).elapsed,
            final(self).speed == old(self).speed,
    {
        self.status = CinematicPlaybackStatus::Playing;
    }

    /// Freezes playback; time is kept.
    pub fn pause(&mut self)
        ensures
            final(self).status == CinematicPlaybackStatus::Paused,
            final(self).elapsed == old(self).elapsed,
            final(self).speed == old(self).speed,
    {
        self.status = CinematicPlaybackStatus::Paused;
    }

    /// Continues playing from where playback stands.
    pub fn resume(&mut self)
        ensures
            final(self).status == CinematicPlaybackStatus::Playing,
            final(self).elapsed == old(self).elapsed,
            final(self).speed == old(self).speed,
    {
        self.status = CinematicPlaybackStatus::Playing;
    }

    /// Plays again from the start.
    pub fn restart(&mut self)
        ensures
            final(self).status == CinematicPlaybackStatus::Playing,
            final(self).elapsed == 0,
            final(self).speed == old(self).speed,
    {
        self.elapsed = 0;
        self.status = CinematicPlaybackStatus::Playing;
    }

    /// Stops playback and rewinds to the start.
    pub fn stop(&mut self)
        ensures
            final(self).status == CinematicPlaybackStatus::Stopped,
            final(self).elapsed == 0,
            final(self).speed == old(self).speed,
    {
        self.status = CinematicPlaybackStatus::Stopped;
        self.elapsed = 0;
    }

    /// Whether the rig is doing anything other than standing stopped.
    pub fn is_active(self) -> (r: bool)
        ensures
            r == self.spec_is_active(),
    {
        self.status != CinematicPlaybackStatus::Stopped
    }

    /// How far a frame of `delta` moves this playback's visible time.
    pub fn scaled_delta(&self, delta: Ticks) -> (r: Ticks)
        requires
            0 <= delta,
        ensures
            r == spec_scaled_delta(self.speed as int, delta as int),
            0 <= r,
    {
        let speed: i128 = if self.speed > 0 { self.speed as i128 } else { 0 };
        proof {
            assert(0 <= speed * delta) by (nonlinear_arith)
                requires 0 <= speed, 0 <= delta;
            assert(speed * delta <= i64::MAX * i64::MAX) by (nonlinear_arith)
                requires 0 <= speed <= i64::MAX, 0 <= delta <= i64::MAX;
        }
        let scaled: i128 = speed * (delta as i128) / (NORMALIZED_ONE as i128);
        if scaled > i64::MAX as i128 { i64::MAX } else { scaled as i64 }
    }
}

/// Which way visible time is running (ping-pong playback runs backwards half the time).
#[derive(Clone, Copy, Debug, PartialEq, Eq, Structural)]
pub enum PlayDirection {
    Forward,
    Backward,
}

/// Where a looping timeline of length `total` lands after reaching `n`:
/// whole periods are taken off until the time is no later than `total`.
pub open spec fn loop_fold(n: int, total: int) -> int {
    if n <= total { n } else { n - ((n - 1) / total) * total }
}

/// One bounce off an end of a ping-pong timeline of length `total`.
pub open spec fn ping_pong_bounce(n: int, total: int) -> (int, PlayDirection) {
    if n > total { (total - (n - total), PlayDirection::Backward) } else { (-n, PlayDirection::Forward) }
}

/// A measure that every bounce of an out-of-range time makes smaller.
pub open spec fn bounce_measure(n: int) -> nat {
    if n < 0 { (2 * (-n) + 1) as nat } else { (2 * n) as nat }
}

/// Where a ping-pong timeline of length `total` lands after reaching `n`
/// while running in `dir`: it bounces off the ends until it is inside `0 ..= total`.
/// The flag says whether any bounce happened.
pub open spec fn ping_pong_fold(n: int, dir: PlayDirection, total: int) -> (int, PlayDirection, bool)
    decreases bounce_measure(n),
    when total > 0
{
    if 0 <= n <= total {
        (n, dir, false)
    } else {
        let (m, d) = ping_pong_bounce(n, total);
        let (p, e, _) = ping_pong_fold(m, d, total);
        (p, e, true)
    }
}

/// The outcome of advancing visible time by one frame.
#[derive(Clone, Copy, Debug, PartialEq, Eq, Structural)]
pub struct TimeAdvance {
    pub time: Ticks,
    pub direction: PlayDirection,
    /// The time crossed an end and came back around.
    pub wrapped: bool,
    /// A play-once timeline reached its end in this frame.
    pub finished_once: bool,
}

/// What one frame does to visible time `current` running in `dir` by `delta`
/// on a timeline of length `total` under `mode`.
pub open spec fn spec_advance(current: int, dir: PlayDirection, delta: int, total: int, mode: PlaybackLoopMode) -> (int, PlayDirection, bool, bool) {
    if total <= 0 {
        (0, dir, false, false)
    } else {
        match mode {
            PlaybackLoopMode::Once => {
                let next = clamp_int(current + delta, 0, total);
                (next, PlayDirection::Forward, false, current < total && next >= total)
            },
            PlaybackLoopMode::Loop => {
                (loop_fold(current + delta, total), PlayDirection::Forward, current + delta > total, false)
            },
            PlaybackLoopMode::PingPong => {
                let n = if dir == PlayDirection::Forward { current + delta } else { current - delta };
                let (p, d, w) = ping_pong_fold(n, dir, total);
                (p, d, w, false)
            },
        }
    }
}

/// Advances visible time by one frame.
pub fn advance_visible_time(current: Ticks, direction: PlayDirection, delta: Ticks, total: Ticks, loop_mode: PlaybackLoopMode) -> (r: TimeAdvance)
    requires
        0 <= delta,
    ensures
        (r.time as int, r.direction, r.wrapped, r.finished_once)
            == spec_advance(current as int, direction, delta as int, total as int, loop_mode),
{
    if total <= 0 {
        return TimeAdvance { time: 0, direction, wrapped: false, finished_once: false };
    }
    match loop_mode {
        PlaybackLoopMode::Once => {
            let n: i128 = current as i128 + delta as i128;
            let next: i64 = if n < 0 { 0 } else if n > total as i128 { total } else { n as i64 };
            TimeAdvance { time: next, direction: PlayDirection::Forward, wrapped: false, finished_once: current < total && next >= total }
        },
        PlaybackLoopMode::Loop => {
            let n: i128 = current as i128 + delta as i128;
            if n <= total as i128 {
                TimeAdvance { time: n as i64, direction: PlayDirection::Forward, wrapped: false, finished_once: false }
            } else {
                let t: i128 = total as i128;
                let periods: i128 = (n - 1) / t;
                proof { lemma_loop_fold_range(n as int, t as int); }
                let folded: i128 = n - periods * t;
                TimeAdvance { time: folded as i64, direction: PlayDirection::Forward, wrapped: true, finished_once: false }
            }
        },
        PlaybackLoopMode::PingPong => {
            let mut n: i128 = if direction == PlayDirection::Forward { current as i128 + delta as i128 } else { current as i128 - delta as i128 };
            let mut dir = direction;
            let mut wrapped = false;
            let t: i128 = total as i128;
            let ghost start = n as int;
            while n > t || n < 0
                invariant
                    t == total > 0,
                    -2 * (i64::MAX as int) - 2 <= n <= 2 * (i64::MAX as int) + 2,
                    ({
                        let (p, d, w) = ping_pong_fold(n as int, dir, t as int);
                        let (p0, d0, w0) = ping_pong_fold(start, direction, t as int);
                        p == p0 && d == d0 && (w || wrapped) == w0
                    }),
                    wrapped ==> ping_pong_fold(start, direction, t as int).2,
                decreases bounce_measure(n as int),
            {
                wrapped = true;
                if n > t {
                    n = t - (n - t);
                    dir = PlayDirection::Backward;
                } else {
                    n = -n;
                    dir = PlayDirection::Forward;
                }
            }
            TimeAdvance { time: n as i64, direction: dir, wrapped, finished_once: false }
        },
    }
}

/// A looping time past the end lands after the start and no later than the end,
/// a whole number of periods from where it was.
proof fn lemma_loop_fold_range(n: int, total: int)
    requires
        0 < total < n,
    ensures
        0 < n - ((n - 1) / total) * total <= total,
        0 <= (n - 1) / total,
        ((n - 1) / total) * total < n,
{
    let q = (n - 1) / total;
    let r = (n - 1) % total;
    assert(n - 1 == q * total + r && 0 <= r < total) by (nonlinear_arith)
        requires total > 0, q == (n - 1) / total, r == (n - 1) % total;
    assert(0 <= q) by (nonlinear_arith)
        requires n - 1 == q * total + r, 0 <= r < total, n - 1 >= 0, total > 0;
}

/// Pausing a playing rig and resuming it brings it back to playing at the
/// same time and speed.
pub proof fn law_pause_resume_round_trip(before: CinematicPlayback, paused: CinematicPlayback, resumed: CinematicPlayback)
    requires
        before.status == CinematicPlaybackStatus::Playing,
        paused == (CinematicPlayback { status: CinematicPlaybackStatus::Paused, ..before }),
        resumed == (CinematicPlayback { status: CinematicPlaybackStatus::Playing, ..paused }),
    ensures
        resumed == before,
{
}

/// Advancing visible time never leaves the timeline: the result lies between
/// its start and its end, whatever the loop mode, as long as a looping time
/// does not start before the beginning.
pub proof fn law_advance_stays_on_timeline(current: int, dir: PlayDirection, delta: int, total: int, mode: PlaybackLoopMode)
    requires
        total > 0,
        0 <= delta,
        mode == PlaybackLoopMode::Loop ==> current + delta >= 0,
    ensures
        0 <= spec_advance(current, dir, delta, total, mode).0 <= total,
{
    match mode {
        PlaybackLoopMode::Once => {},
        PlaybackLoopMode::Loop => {
            if current + delta > total {
                lemma_loop_fold_range(current + delta, total);
            }
        },
        PlaybackLoopMode::PingPong => {
            let n = if dir == PlayDirection::Forward { current + delta } else { current - delta };
            lemma_ping_pong_fold_in_range(n, dir, total);
        },
    }
}

proof fn lemma_ping_pong_fold_in_range(n: int, dir: PlayDirection, total: int)
    requires
        total > 0,
    ensures
        0 <= ping_pong_fold(n, dir, total).0 <= total,
    decreases bounce_measure(n),
{
    if !(0 <= n <= total) {
        let (m, d) = ping_pong_bounce(n, total);
        lemma_ping_pong_fold_in_range(m, d, total);
    }
}

/// A looping timeline lands a whole number of periods from where plain
/// addition would put it.
pub proof fn law_loop_keeps_phase(current: int, delta: int, total: int)
    requires
        total > 0,
        0 <= delta,
    ensures
        (spec_advance(current, PlayDirection::Forward, delta, total, PlaybackLoopMode::Loop).0 - (current + delta)) % total == 0,
{
    let n = current + delta;
    if n > total {
        let q = (n - 1) / total;
        lemma_loop_fold_range(n, total);
        vstd::arithmetic::div_mod::lemma_mod_multiples_basic(-q, total);
        assert(n - q * total - n == (-q) * total) by (nonlinear_arith);
        assert(spec_advance(current, PlayDirection::Forward, delta, total, PlaybackLoopMode::Loop).0 == n - q * total);
    } else {
        vstd::arithmetic::div_mod::lemma_mod_multiples_basic(0, total);
        assert(spec_advance(current, PlayDirection::Forward, delta, total, PlaybackLoopMode::Loop).0 == n);
    }
}

/// A play-once timeline never runs backwards from inside the timeline, and it
/// reports finishing exactly in the frame that first reaches the end.
pub proof fn law_once_is_monotone(current: int, dir: PlayDirection, delta: int, total: int)
    requires
        total > 0,
        0 <= current <= total,
        0 <= delta,
    ensures
        current <= spec_advance(current, dir, delta, total, PlaybackLoopMode::Once).0,
        spec_advance(current, dir, delta, total, PlaybackLoopMode::Once).3
            == (current < total && spec_advance(current, dir, delta, total, PlaybackLoopMode::Once).0 == total),
{
}

} // verus!
