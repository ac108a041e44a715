//! The kinds of segment a shape is made of and how many points each spans.

use vstd::prelude::*;

verus! {

/// The kind of a segment.
///
/// The kind gives the number of points the segment spans in a shape's point
/// buffer.
#[derive(Debug, Clone, Copy, PartialEq, Eq, Structural)]
pub enum SegmentKind {
    /// Line, consisting of 2 points: starting, ending positions.
    Line,
    /// Degree 2 bezier curve, consisting of 3 points: starting, control,
    /// ending positions.
    QuadBezier,
    /// Degree 3 bezier curve, consisting of 4 points: starting, two control,
    /// ending positions.
    CubicBezier,
    /// Elliptical arc, consisting of 5 points: the four points of its centre
    /// parameterisation, then the ending position.
    EllipticalArc,
}

/// The number of points a segment of the given kind spans.
pub open spec fn point_count(kind: SegmentKind) -> nat {
    match kind {
        SegmentKind::Line => 2,
        SegmentKind::QuadBezier => 3,
        SegmentKind::CubicBezier => 4,
        SegmentKind::EllipticalArc => 5,
    }
}

impl SegmentKind {
    /// The number of points a segment of this kind spans.
    pub fn point_count(self) -> (r: usize)
        ensures
            r == point_count(self),
    {
        match self {
            SegmentKind::Line => 2,
            SegmentKind::QuadBezier => 3,
            SegmentKind::CubicBezier => 4,
            SegmentKind::EllipticalArc => 5,
        }
    }
}

/// Line primitive.
pub struct Line;

/// Quadratic bezier primitive.
pub struct QuadBezier;

/// Cubic bezier primitive.
pub struct CubicBezier;

/// Elliptical arc primitive, given as a centre parameterisation.
pub struct EllipticalArc;

} // verus!
