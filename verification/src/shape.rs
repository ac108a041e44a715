//! A shape as flat buffers: points, segments referring to runs of points,
//! splines referring to runs of segments and contours referring to runs of
//! splines.

use vstd::prelude::*;
use std::ops::Range;
use crate::colour::Colour;
use crate::primitives::{SegmentKind, point_count};

verus! {

/// Reference to a segment: its kind and the index of its first point.
#[derive(Debug, Clone, Copy)]
pub struct SegmentRef {
    pub kind: SegmentKind,
    pub points_index: usize,
}

/// Reference to a spline: a run of segments and the spline's colour.
#[derive(Debug)]
pub struct Spline {
    pub segments_range: Range<usize>,
    pub colour: Colour,
}

/// Path describing a closed region of space: a run of splines.
///
/// Sharp corners are assumed to be located at the boundary points of
/// adjacent splines.
#[derive(Debug)]
pub struct Contour {
    pub spline_range: Range<usize>,
}

/// Representation of a shape ready to be decomposed into a raster SDF.
#[derive(Debug)]
pub struct Shape<P> {
    /// Buffer containing the points
    pub points: Vec<P>,
    /// Buffer containing references to the segments
    pub segments: Vec<SegmentRef>,
    /// Buffer containing references to the splines
    pub splines: Vec<Spline>,
    /// Buffer containing the contours
    pub contours: Vec<Contour>,
}

impl Clone for Spline {
    fn clone(&self) -> (r: Self)
        ensures
            r == *self,
    {
        Spline {
            segments_range: Range { start: self.segments_range.start, end: self.segments_range.end },
            colour: self.colour,
        }
    }
}

impl Clone for Contour {
    fn clone(&self) -> (r: Self)
        ensures
            r == *self,
    {
        Contour {
            spline_range: Range { start: self.spline_range.start, end: self.spline_range.end },
        }
    }
}

/// A segment of a shape: its kind and the points it spans.
#[derive(Debug)]
pub enum Segment<'a, P> {
    Line(&'a [P]),
    QuadBezier(&'a [P]),
    CubicBezier(&'a [P]),
    EllipticalArc(&'a [P]),
}

impl<'a, P> Segment<'a, P> {
    /// The kind of this segment.
    pub open spec fn kind(self) -> SegmentKind {
        match self {
            Segment::Line(_) => SegmentKind::Line,
            Segment::QuadBezier(_) => SegmentKind::QuadBezier,
            Segment::CubicBezier(_) => SegmentKind::CubicBezier,
            Segment::EllipticalArc(_) => SegmentKind::EllipticalArc,
        }
    }

    /// The points this segment spans.
    pub open spec fn points(self) -> Seq<P> {
        match self {
            Segment::Line(ps) => ps@,
            Segment::QuadBezier(ps) => ps@,
            Segment::CubicBezier(ps) => ps@,
            Segment::EllipticalArc(ps) => ps@,
        }
    }
}

impl<'a, P> Clone for Segment<'a, P> {
    fn clone(&self) -> (r: Self)
        ensures
            r == *self,
    {
        *self
    }
}

impl<'a, P> Copy for Segment<'a, P> {

}

/// The segment fits in a buffer of `len` points.
pub open spec fn segment_fits(r: SegmentRef, len: nat) -> bool {
    r.points_index + point_count(r.kind) <= len
}

/// A range lies within `0..len`.
pub open spec fn range_within(r: Range<usize>, len: nat) -> bool {
    r.start <= r.end && r.end <= len
}

impl<P> Shape<P> {
    /// Every segment spans points of the buffer, every spline a run of
    /// existing segments and every contour a run of existing splines.
    pub open spec fn wf(self) -> bool {
        &&& forall|i: int|
            0 <= i < self.segments@.len() ==> #[trigger] segment_fits(
                self.segments@[i],
                self.points@.len(),
            )
        &&& forall|i: int|
            0 <= i < self.splines@.len() ==> #[trigger] range_within(
                self.splines@[i].segments_range,
                self.segments@.len(),
            )
        &&& forall|i: int|
            0 <= i < self.contours@.len() ==> #[trigger] range_within(
                self.contours@[i].spline_range,
                self.splines@.len(),
            )
    }

    /// Get a segment given a `SegmentRef`.
    #[inline]
    pub fn get_segment(&self, r: SegmentRef) -> (s: Segment<'_, P>)
        requires
            segment_fits(r, self.points@.len()),
        ensures
            s.kind() == r.kind,
            s.points() == self.points@.subrange(
                r.points_index as int,
                r.points_index + point_count(r.kind),
            ),
    {
        let i = r.points_index;
        let n = self.points.len();
        assert(i + point_count(r.kind) <= n);
        let ps = self.points.as_slice();
        match r.kind {
            SegmentKind::Line => Segment::Line(vstd::slice::slice_subrange(ps, i, i + 2)),
            SegmentKind::QuadBezier => Segment::QuadBezier(
                vstd::slice::slice_subrange(ps, i, i + 3),
            ),
            SegmentKind::CubicBezier => Segment::CubicBezier(
                vstd::slice::slice_subrange(ps, i, i + 4),
            ),
            SegmentKind::EllipticalArc => Segment::EllipticalArc(
                vstd::slice::slice_subrange(ps, i, i + 5),
            ),
        }
    }
}

} // verus!
