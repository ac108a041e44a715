//! A shape whose segments, splines and contours refer to one another by
//! (kind or length, start index) pairs, and views of its contours.

use vstd::prelude::*;
use crate::colour::Colour;
use crate::primitives::{SegmentKind, point_count};
use crate::shape::Segment;

verus! {

/// The kind of a segment and the index into the points buffer where it
/// starts; the kind implicitly gives the length.
pub type SegmentRef = (SegmentKind, usize);

/// The length of a spline (the number of segments it contains) and the
/// index into the segment buffer where it starts.
pub type SplineRef = (usize, usize);

/// The length of a contour (the number of splines it contains) and the
/// index into the spline buffer where it starts.
pub type ContourRef = (usize, usize);

/// A representation of a shape ready to be decomposed into a raster SDF.
pub struct Shape<P> {
    /// A buffer containing the points
    pub points: Vec<P>,
    /// A buffer containing references to the segments
    pub segments: Vec<SegmentRef>,
    /// A buffer containing references to the splines
    pub splines: Vec<SplineRef>,
    /// A buffer containing the colours corresponding to the respective Spline.
    pub spline_colours: Vec<Colour>,
    /// A buffer containing the contours
    pub contours: Vec<ContourRef>,
}

/// A Contour is a path describing a closed region of space.
///
/// Sharp corners are assumed to be located at the boundary points of
/// adjacent splines.
#[derive(Debug)]
pub struct Contour<'shape, P> {
    /// A buffer containing the points
    pub points: &'shape [P],
    /// A buffer containing references to the segments
    pub segments: &'shape [SegmentRef],
    /// A buffer containing references to the splines
    pub splines: &'shape [SplineRef],
    /// A buffer containing the colours corresponding to the respective Spline.
    pub spline_colours: &'shape [Colour],
}

impl<'shape, P> Clone for Contour<'shape, P> {
    fn clone(&self) -> (r: Self)
        ensures
            r == *self,
    {
        *self
    }
}

impl<'shape, P> Copy for Contour<'shape, P> {

}

/// A reference to a spline in the [`Contour`].
#[derive(Debug, Clone, Copy)]
pub struct Spline<'contour> {
    pub segments: &'contour [SegmentRef],
    pub colour: Colour,
}

impl Spline<'_> {
    /// The number of segments in this spline
    pub fn len(&self) -> (r: usize)
        ensures
            r == self.segments@.len(),
    {
        self.segments.len()
    }
}

/// The segment spans points of a buffer of `len` points.
pub open spec fn ref_fits(r: SegmentRef, len: nat) -> bool {
    r.1 + point_count(r.0) <= len
}

/// The run `(length, start)` lies within a buffer of `len` entries.
pub open spec fn run_fits(r: (usize, usize), len: nat) -> bool {
    r.1 + r.0 <= len
}

impl<'shape, P> Contour<'shape, P> {
    /// Every segment spans points of the buffer, every spline a run of
    /// segments, and every spline has a colour.
    pub open spec fn wf(self) -> bool {
        &&& forall|i: int| 0 <= i < self.segments@.len() ==> #[trigger] ref_fits(self.segments@[i], self.points@.len())
        &&& forall|i: int| 0 <= i < self.splines@.len() ==> #[trigger] run_fits(self.splines@[i], self.segments@.len())
        &&& self.splines@.len() <= self.spline_colours@.len()
    }

    /// Get a segment given a `SegmentRef`.
    #[inline]
    fn get_segment(&self, r: SegmentRef) -> (s: Segment<'shape, P>)
        requires
            ref_fits(r, self.points@.len()),
        ensures
            s.kind() == r.0,
            s.points() == self.points@.subrange(r.1 as int, r.1 + point_count(r.0)),
    {
        let (kind, i) = r;
        let n = self.points.len();
        let ps = self.points;
        match kind {
            SegmentKind::Line => Segment::Line(vstd::slice::slice_subrange(ps, i, i + 2)),
            SegmentKind::QuadBezier => Segment::QuadBezier(vstd::slice::slice_subrange(ps, i, i + 3)),
            SegmentKind::CubicBezier => Segment::CubicBezier(vstd::slice::slice_subrange(ps, i, i + 4)),
            SegmentKind::EllipticalArc => Segment::EllipticalArc(
                vstd::slice::slice_subrange(ps, i, i + 5),
            ),
        }
    }

    /// Get the `Spline` at the given index: its run of segments and the
    /// colour at the same index.
    #[inline]
    pub fn get_spline(&self, i: usize) -> (r: Spline<'shape>)
        requires
            i < self.splines@.len(),
            run_fits(self.splines@[i as int], self.segments@.len()),
            i < self.spline_colours@.len(),
        ensures
            r.segments@ == self.segments@.subrange(
                self.splines@[i as int].1 as int,
                self.splines@[i as int].1 + self.splines@[i as int].0,
            ),
            r.colour == self.spline_colours@[i as int],
    {
        let (length, index) = self.splines[i];
        let n = self.segments.len();
        Spline {
            segments: vstd::slice::slice_subrange(self.segments, index, index + length),
            colour: self.spline_colours[i],
        }
    }

    /// The [`Segment`]s in a given [`Spline`], in order.
    #[inline]
    pub fn segments(&self, spline: Spline<'shape>) -> (r: Vec<Segment<'shape, P>>)
        requires
            forall|i: int| 0 <= i < spline.segments@.len() ==> #[trigger] ref_fits(spline.segments@[i], self.points@.len()),
        ensures
            r@.len() == spline.segments@.len(),
            forall|i: int| 0 <= i < r@.len() ==> {
                let sr = spline.segments@[i];
                &&& (#[trigger] r@[i]).kind() == sr.0
                &&& r@[i].points() == self.points@.subrange(sr.1 as int, sr.1 + point_count(sr.0))
            },
    {
        let mut out: Vec<Segment<'shape, P>> = Vec::new();
        let mut i: usize = 0;
        while i < spline.segments.len()
            invariant
                forall|k: int| 0 <= k < spline.segments@.len() ==> #[trigger] ref_fits(spline.segments@[k], self.points@.len()),
                i <= spline.segments@.len(),
                out@.len() == i,
                forall|k: int| 0 <= k < i ==> {
                    let sr = spline.segments@[k];
                    &&& (#[trigger] out@[k]).kind() == sr.0
                    &&& out@[k].points() == self.points@.subrange(sr.1 as int, sr.1 + point_count(sr.0))
                },
            decreases spline.segments@.len() - i,
        {
            assert(ref_fits(spline.segments@[i as int], self.points@.len()));
            out.push(self.get_segment(spline.segments[i]));
            i = i + 1;
        }
        out
    }

    /// The [`Spline`]s in this contour, in order.
    pub fn splines(&self) -> (r: Vec<Spline<'shape>>)
        requires
            self.wf(),
        ensures
            r@.len() == self.splines@.len(),
            forall|i: int| 0 <= i < r@.len() ==> {
                &&& (#[trigger] r@[i]).segments@ == self.segments@.subrange(
                    self.splines@[i].1 as int,
                    self.splines@[i].1 + self.splines@[i].0,
                )
                &&& r@[i].colour == self.spline_colours@[i]
            },
    {
        let mut out: Vec<Spline<'shape>> = Vec::new();
        let mut i: usize = 0;
        while i < self.splines.len()
            invariant
                self.wf(),
                i <= self.splines@.len(),
                out@.len() == i,
                forall|k: int| 0 <= k < i ==> {
                    &&& (#[trigger] out@[k]).segments@ == self.segments@.subrange(
                        self.splines@[k].1 as int,
                        self.splines@[k].1 + self.splines@[k].0,
                    )
                    &&& out@[k].colour == self.spline_colours@[k]
                },
            decreases self.splines@.len() - i,
        {
            assert(run_fits(self.splines@[i as int], self.segments@.len()));
            out.push(self.get_spline(i));
            i = i + 1;
        }
        out
    }
}

impl<P> Shape<P> {
    /// Every segment spans points of the buffer, every spline a run of
    /// segments, every contour a run of splines, and every spline has a
    /// colour.
    pub open spec fn wf(self) -> bool {
        &&& forall|i: int| 0 <= i < self.segments@.len() ==> #[trigger] ref_fits(self.segments@[i], self.points@.len())
        &&& forall|i: int| 0 <= i < self.splines@.len() ==> #[trigger] run_fits(self.splines@[i], self.segments@.len())
        &&& forall|i: int| 0 <= i < self.contours@.len() ==> #[trigger] run_fits(self.contours@[i], self.splines@.len())
        &&& self.splines@.len() <= self.spline_colours@.len()
    }

    /// The view of one contour: all points, segments and colours, and the
    /// contour's run of splines.
    fn get_contour(&self, c: ContourRef) -> (r: Contour<'_, P>)
        requires
            run_fits(c, self.splines@.len()),
        ensures
            r.points@ == self.points@,
            r.segments@ == self.segments@,
            r.splines@ == self.splines@.subrange(c.1 as int, c.1 + c.0),
            r.spline_colours@ == self.spline_colours@,
    {
        let (length, splines_index) = c;
        let n = self.splines.len();
        Contour {
            points: self.points.as_slice(),
            segments: self.segments.as_slice(),
            splines: vstd::slice::slice_subrange(self.splines.as_slice(), splines_index, splines_index + length),
            spline_colours: self.spline_colours.as_slice(),
        }
    }

    /// The contours of the shape, in order; each is well formed.
    pub fn contours(&self) -> (r: Vec<Contour<'_, P>>)
        requires
            self.wf(),
        ensures
            r@.len() == self.contours@.len(),
            forall|i: int| 0 <= i < r@.len() ==> {
                &&& (#[trigger] r@[i]).points@ == self.points@
                &&& r@[i].segments@ == self.segments@
                &&& r@[i].splines@ == self.splines@.subrange(
                    self.contours@[i].1 as int,
                    self.contours@[i].1 + self.contours@[i].0,
                )
                &&& r@[i].spline_colours@ == self.spline_colours@
                &&& r@[i].wf()
            },
    {
        let mut out: Vec<Contour<'_, P>> = Vec::new();
        let mut i: usize = 0;
        while i < self.contours.len()
            invariant
                self.wf(),
                i <= self.contours@.len(),
                out@.len() == i,
                forall|k: int| 0 <= k < i ==> {
                    &&& (#[trigger] out@[k]).points@ == self.points@
                    &&& out@[k].segments@ == self.segments@
                    &&& out@[k].splines@ == self.splines@.subrange(
                        self.contours@[k].1 as int,
                        self.contours@[k].1 + self.contours@[k].0,
                    )
                    &&& out@[k].spline_colours@ == self.spline_colours@
                    &&& out@[k].wf()
                },
            decreases self.contours@.len() - i,
        {
            assert(run_fits(self.contours@[i as int], self.splines@.len()));
            let c = self.get_contour(self.contours[i]);
            proof {
                let cr = self.contours@[i as int];
                assert forall|k: int| 0 <= k < c.splines@.len() implies #[trigger] run_fits(c.splines@[k], c.segments@.len()) by {
                    assert(c.splines@[k] == self.splines@[cr.1 + k]);
                }
            }
            out.push(c);
            i = i + 1;
        }
        out
    }
}

} // verus!
