//! The discrete side of rail authoring: spline kinds, progress units, segment
//! counts and how a rail is to be sampled into its arc-length cache.
use vstd::prelude::*;

verus! {

/// Default arc-length cache density.
pub const DEFAULT_SAMPLES_PER_SEGMENT: usize = 24;

#[derive(Clone, Copy, Debug, PartialEq, Eq, Structural)]
pub enum RailSplineKind {
    /// Straight lines between points.
    Linear,
    /// A smooth curve through the points.
    CatmullRom,
}

impl Default for RailSplineKind {
    fn default() -> (r: Self)
        ensures
            r == RailSplineKind::CatmullRom,
    {
        RailSplineKind::CatmullRom
    }
}

/// What a rail traversal's start and end are measured in.
#[derive(Clone, Copy, Debug, PartialEq, Eq, Structural)]
pub enum RailProgressUnit {
    /// Fractions of the rail's arc length.
    Normalized,
    /// World distance along the rail.
    Distance,
}

impl Default for RailProgressUnit {
    fn default() -> (r: Self)
        ensures
            r == RailProgressUnit::Normalized,
    {
        RailProgressUnit::Normalized
    }
}

/// The number of segments of a rail: one for fewer than two points, one per
/// point for a closed rail, one less than the points for an open one.
pub open spec fn spec_segment_count(point_count: int, closed: bool) -> int {
    if point_count <= 1 { 1 } else if closed { point_count } else { point_count - 1 }
}

/// The number of segments of a rail with `point_count` points.
pub fn rail_segment_count(point_count: usize, closed: bool) -> (r: usize)
    ensures
        r == spec_segment_count(point_count as int, closed),
        r >= 1,
{
    if point_count <= 1 {
        1
    } else if closed {
        point_count
    } else {
        point_count - 1
    }
}

/// How a rail is turned into cached samples.
#[derive(Clone, Copy, Debug, PartialEq, Eq, Structural)]
pub enum RailSampling {
    /// No points: a single sample at the origin.
    Origin,
    /// One point: a single sample there.
    SinglePoint,
    /// A Catmull-Rom curve through the points.
    Spline,
    /// Straight segments between the points.
    Linear,
}

/// A Catmull-Rom rail needs at least this many points; with fewer it is sampled as straight segments.
pub const MIN_SPLINE_POINTS: usize = 4;

pub open spec fn spec_rail_sampling(kind: RailSplineKind, point_count: int) -> RailSampling {
    if point_count == 0 {
        RailSampling::Origin
    } else if point_count == 1 {
        RailSampling::SinglePoint
    } else if kind == RailSplineKind::CatmullRom && point_count >= MIN_SPLINE_POINTS {
        RailSampling::Spline
    } else {
        RailSampling::Linear
    }
}

/// How a rail of `kind` with `point_count` points is sampled.
pub fn rail_sampling(kind: RailSplineKind, point_count: usize) -> (r: RailSampling)
    ensures
        r == spec_rail_sampling(kind, point_count as int),
{
    if point_count == 0 {
        RailSampling::Origin
    } else if point_count == 1 {
        RailSampling::SinglePoint
    } else if kind == RailSplineKind::CatmullRom && point_count >= MIN_SPLINE_POINTS {
        RailSampling::Spline
    } else {
        RailSampling::Linear
    }
}

/// The number of spline steps: segments times samples per segment (at least
/// two each), and at least two in all.
pub open spec fn spec_spline_resolution(segment_count: int, samples_per_segment: int) -> int {
    let per = if samples_per_segment >= 2 { samples_per_segment } else { 2 };
    let steps = segment_count * per;
    if steps >= 2 { steps } else { 2 }
}

/// The number of steps a spline rail is sampled in.
pub fn spline_resolution(segment_count: usize, samples_per_segment: usize) -> (r: usize)
    requires
        segment_count * (if samples_per_segment >= 2 { samples_per_segment } else { 2 }) <= usize::MAX,
    ensures
        r == spec_spline_resolution(segment_count as int, samples_per_segment as int),
{
    let per: usize = if samples_per_segment >= 2 { samples_per_segment } else { 2 };
    let steps = segment_count * per;
    if steps >= 2 { steps } else { 2 }
}

/// The number of steps each straight segment is divided into (at least one).
pub fn linear_subdivision(samples_per_segment: usize) -> (r: usize)
    ensures
        r == (if samples_per_segment >= 1 { samples_per_segment } else { 1 }),
{
    if samples_per_segment >= 1 { samples_per_segment } else { 1 }
}

/// The point a straight segment ends at: the next point, wrapping to the
/// first on a closed rail.
pub fn linear_segment_end(segment: usize, point_count: usize, closed: bool) -> (r: usize)
    requires
        point_count >= 2,
        segment < spec_segment_count(point_count as int, closed),
    ensures
        r == (if closed { (segment + 1) % (point_count as int) } else { segment + 1 }),
        r < point_count,
{
    if closed { (segment + 1) % point_count } else { segment + 1 }
}

} // verus!
