//! Timeline time, held as whole microseconds.
//!
//! Every duration and instant of the timeline is a `Ticks` value: a signed
//! count of microseconds. The camera runtime converts seconds into ticks at its
//! edge, so all scheduling decisions below work on exact integers.
use vstd::prelude::*;

verus! {

/// A point or a span on the timeline, in microseconds.
pub type Ticks = i64;

/// How many ticks make one second.
pub const TICKS_PER_SECOND: i64 = 1_000_000;

/// The shortest span a shot occupies on the timeline (a tenth of a millisecond).
pub const MIN_SHOT_TICKS: i64 = 100;

/// A normalized progress value of exactly one, in millionths.
pub const NORMALIZED_ONE: i64 = 1_000_000;

/// The larger of two integers.
pub open spec fn max_int(a: int, b: int) -> int {
    if a >= b { a } else { b }
}

/// The smaller of two integers.
pub open spec fn min_int(a: int, b: int) -> int {
    if a <= b { a } else { b }
}

/// `v` limited to `lo ..= hi` (for `lo <= hi`).
pub open spec fn clamp_int(v: int, lo: int, hi: int) -> int {
    if v < lo { lo } else if v > hi { hi } else { v }
}

/// `max(a, b)` on ticks.
pub fn max_ticks(a: Ticks, b: Ticks) -> (r: Ticks)
    ensures
        r == max_int(a as int, b as int),
{
    if a >= b { a } else { b }
}

/// `min(a, b)` on ticks.
pub fn min_ticks(a: Ticks, b: Ticks) -> (r: Ticks)
    ensures
        r == min_int(a as int, b as int),
{
    if a <= b { a } else { b }
}

/// `v` limited to `lo ..= hi`.
pub fn clamp_ticks(v: Ticks, lo: Ticks, hi: Ticks) -> (r: Ticks)
    requires
        lo <= hi,
    ensures
        r == clamp_int(v as int, lo as int, hi as int),
        lo <= r <= hi,
{
    if v < lo { lo } else if v > hi { hi } else { v }
}

} // verus!
