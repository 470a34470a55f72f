//! Authoring settings shared by shots and sequences: loop modes, easing names,
//! blends and marker times.
use vstd::prelude::*;
use crate::time::{Ticks, NORMALIZED_ONE, max_int, clamp_int, max_ticks, clamp_ticks};

verus! {

/// How a timeline behaves when it runs past its end.
#[derive(Clone, Copy, Debug, PartialEq, Eq, Structural)]
pub enum PlaybackLoopMode {
    /// Stop at the end.
    Once,
    /// Jump back to the start.
    Loop,
    /// Bounce back and forth between the ends.
    PingPong,
}

impl Default for PlaybackLoopMode {
    fn default() -> (r: Self)
        ensures
            r == PlaybackLoopMode::Once,
    {
        PlaybackLoopMode::Once
    }
}

/// The named easing curves a blend or a track can use.
#[derive(Clone, Copy, Debug, PartialEq, Eq, Structural)]
pub enum CinematicEasing {
    Linear,
    SmoothStep,
    SmootherStep,
    QuadraticInOut,
    CubicInOut,
    SineInOut,
    BackInOut,
    ElasticOut,
    BounceOut,
    Steps4,
}

impl Default for CinematicEasing {
    fn default() -> (r: Self)
        ensures
            r == CinematicEasing::Linear,
    {
        CinematicEasing::Linear
    }
}

/// A timed transition: how long it lasts and how it eases.
#[derive(Clone, Copy, Debug, PartialEq, Eq, Structural)]
pub struct CinematicBlend {
    pub duration: Ticks,
    pub easing: CinematicEasing,
}

impl Default for CinematicBlend {
    fn default() -> (r: Self)
        ensures
            r.duration == 0,
            r.easing == CinematicEasing::SineInOut,
    {
        CinematicBlend { duration: 0, easing: CinematicEasing::SineInOut }
    }
}

impl CinematicBlend {
    /// Whether the blend takes any time at all.
    pub open spec fn spec_is_active(self) -> bool {
        self.duration > 0
    }

    /// A blend that completes immediately.
    pub fn instant() -> (r: Self)
        ensures
            r.duration == 0,
            r.easing == CinematicEasing::Linear,
            !r.spec_is_active(),
    {
        CinematicBlend { duration: 0, easing: CinematicEasing::Linear }
    }

    /// Whether the blend takes any time at all.
    pub fn is_active(self) -> (r: bool)
        ensures
            r == self.spec_is_active(),
    {
        self.duration > 0
    }
}

/// When, inside a shot, a marker fires.
#[derive(Clone, Copy, Debug, PartialEq, Eq, Structural)]
pub enum MarkerTime {
    /// A fixed offset from the start of the shot.
    Seconds(Ticks),
    /// The last instant of the shot.
    EndOfShot,
    /// A fraction of the shot, in millionths (`NORMALIZED_ONE` is the end).
    Normalized(i64),
}

impl Default for MarkerTime {
    fn default() -> (r: Self)
        ensures
            r == MarkerTime::EndOfShot,
    {
        MarkerTime::EndOfShot
    }
}

impl MarkerTime {
    /// The offset of the marker from the start of a shot of `duration`:
    /// always inside `0 ..= max(duration, 0)`.
    pub open spec fn spec_offset(self, duration: int) -> int {
        let span = max_int(duration, 0);
        match self {
            MarkerTime::Seconds(v) => clamp_int(v as int, 0, span),
            MarkerTime::EndOfShot => span,
            MarkerTime::Normalized(f) => clamp_int(f as int, 0, NORMALIZED_ONE as int) * span
                / (NORMALIZED_ONE as int),
        }
    }

    /// The offset of the marker from the start of a shot of `duration`.
    pub fn seconds(self, duration: Ticks) -> (r: Ticks)
        ensures
            r == self.spec_offset(duration as int),
            0 <= r <= max_int(duration as int, 0),
    {
        let span = max_ticks(duration, 0);
        match self {
            MarkerTime::Seconds(v) => clamp_ticks(v, 0, span),
            MarkerTime::EndOfShot => span,
            MarkerTime::Normalized(f) => {
                let fraction = clamp_ticks(f, 0, NORMALIZED_ONE);
                proof {
                    lemma_scaled_fraction_bounded(fraction as int, span as int);
                    assert(NORMALIZED_ONE * span <= NORMALIZED_ONE * i64::MAX) by (nonlinear_arith)
                        requires span <= i64::MAX;
                }
                let product: i128 = (fraction as i128) * (span as i128);
                (product / (NORMALIZED_ONE as i128)) as i64
            },
        }
    }
}

/// A fraction in millionths of a nonnegative span stays inside the span.
proof fn lemma_scaled_fraction_bounded(fraction: int, span: int)
    requires
        0 <= fraction <= NORMALIZED_ONE,
        0 <= span,
    ensures
        0 <= fraction * span,
        fraction * span <= NORMALIZED_ONE * span,
        0 <= fraction * span / (NORMALIZED_ONE as int) <= span,
{
    assert(0 <= fraction * span) by (nonlinear_arith)
        requires 0 <= fraction, 0 <= span;
    assert(fraction * span <= NORMALIZED_ONE * span) by (nonlinear_arith)
        requires fraction <= NORMALIZED_ONE, 0 <= span;
    assert(fraction * span / (NORMALIZED_ONE as int) <= span) by (nonlinear_arith)
        requires fraction * span <= NORMALIZED_ONE * span, 0 <= fraction * span;
}

/// A named marker inside a shot.
#[derive(Clone, Debug)]
pub struct ShotMarker {
    pub name: String,
    pub at: MarkerTime,
}

impl ShotMarker {
    /// A marker that fires at a fraction (in millionths) of its shot.
    pub fn normalized(name: String, normalized: i64) -> (r: Self)
        ensures
            r.name@ == name@,
            r.at == MarkerTime::Normalized(normalized),
    {
        ShotMarker { name, at: MarkerTime::Normalized(normalized) }
    }
}

/// A normalized marker sits at its fraction of the shot, rounded down to
/// whole ticks: for a fraction `f` (in millionths, inside `0 ..= 1`) of a
/// shot of length `d`, the offset `r` has `r * 1_000_000 <= f * d` and
/// `f * d < (r + 1) * 1_000_000`.
pub proof fn law_normalized_marker_is_proportional(f: i64, d: i64)
    requires
        0 <= f <= NORMALIZED_ONE,
        0 <= d,
    ensures
        ({
            let r = MarkerTime::Normalized(f).spec_offset(d as int);
            &&& r * NORMALIZED_ONE <= f * d
            &&& f * d < (r + 1) * NORMALIZED_ONE
        }),
{
    let r = MarkerTime::Normalized(f).spec_offset(d as int);
    assert(r == (f as int) * (d as int) / (NORMALIZED_ONE as int));
    vstd::arithmetic::div_mod::lemma_fundamental_div_mod(f * d, NORMALIZED_ONE as int);
    vstd::arithmetic::div_mod::lemma_mod_pos_bound(f * d, NORMALIZED_ONE as int);
    assert(r * NORMALIZED_ONE == NORMALIZED_ONE * r) by (nonlinear_arith);
    assert((r + 1) * NORMALIZED_ONE == NORMALIZED_ONE * r + NORMALIZED_ONE) by (nonlinear_arith);
}

} // verus!
