//! Building a shape contour by contour, segment by segment.
//!
//! A new spline starts wherever two consecutive segments meet at a sharp
//! corner. Whether a join is sharp is a geometric question about the points;
//! the caller answers it and passes the answer in.

use vstd::prelude::*;
use std::ops::Range;
use crate::colour::{Colour, spec_and, spec_xor};
use crate::primitives::{SegmentKind, point_count};
use crate::shape::{Contour, SegmentRef, Shape, Spline, segment_fits, range_within};

verus! {

/// Builds a [`Shape`] one contour at a time.
pub struct ShapeBuilder<P> {
    shape: Shape<P>,
}

/// Builds one contour of a shape.
pub struct ContourBuilder<P> {
    shape: Shape<P>,
    current_spline: Spline,
}

/// A spline over `start..end` with the given colour.
pub open spec fn spline_of(start: usize, end: usize, colour: Colour) -> Spline {
    Spline { segments_range: Range { start, end }, colour }
}

/// The colour of the spline that follows a spline of colour `c` across a
/// sharp corner: magenta is followed by yellow, and every other colour by
/// itself exclusive-or magenta.
pub open spec fn next_colour(c: Colour) -> Colour {
    if c == Colour::Magenta {
        Colour::Yellow
    } else {
        spec_xor(c, Colour::Magenta)
    }
}

/// A colour with exactly two of the three channels: magenta, yellow or cyan.
pub open spec fn two_channel(c: Colour) -> bool {
    c == Colour::Magenta || c == Colour::Yellow || c == Colour::Cyan
}

/// A colour with exactly one channel.
pub open spec fn one_channel(c: Colour) -> bool {
    c == Colour::Red || c == Colour::Green || c == Colour::Blue
}

/// Every spline of the shape has a two-channel colour.
pub open spec fn two_channel_splines<P>(s: Shape<P>) -> bool {
    forall|i: int| 0 <= i < s.splines@.len() ==> two_channel(#[trigger] s.splines@[i].colour)
}

/// Across a sharp corner the colour changes, stays two-channel and keeps
/// exactly one channel of the colour before it; after the first corner the
/// colours alternate between yellow and cyan.
pub proof fn lemma_next_colour(c: Colour)
    requires
        two_channel(c),
    ensures
        two_channel(next_colour(c)),
        next_colour(c) != c,
        one_channel(spec_and(c, next_colour(c))),
        next_colour(c) != Colour::Magenta,
        c != Colour::Magenta ==> next_colour(next_colour(c)) == c,
{
    assert(3u8 ^ 5u8 == 6u8 && 6u8 ^ 5u8 == 3u8 && 5u8 & 3u8 == 1u8 && 3u8 & 6u8 == 2u8 && 6u8 & 3u8 == 2u8)
        by (bit_vector);
}

/// Whether adding a segment splits the spline: the segment count `n` after
/// adding the segment exceeds the start of the current spline by more than
/// one, and the join is sharp.
pub open spec fn splits(current: Spline, n: nat, sharp: bool) -> bool {
    n > current.segments_range.start + 1 && sharp
}

/// Adding a segment finishes the current spline and starts a new one
/// exactly when the join is sharp and the current spline already held a
/// segment: then one spline is pushed, running from the start of the
/// current spline up to the new segment in the current colour, and the new
/// current spline holds only the new segment in a different two-channel
/// colour that shares exactly one channel with the old one. Otherwise the
/// splines and the current spline are left as they were.
pub proof fn lemma_spline_step_splits(
    old_splines: Seq<Spline>,
    current: Spline,
    n: nat,
    sharp: bool,
    new_splines: Seq<Spline>,
    new_current: Spline,
)
    requires
        spline_step(old_splines, current, n, sharp, new_splines, new_current),
        two_channel(current.colour),
        n <= usize::MAX,
    ensures
        (new_splines.len() == old_splines.len() + 1) <==> (sharp && n > current.segments_range.start + 1),
        sharp && n > current.segments_range.start + 1 ==> {
            &&& new_splines.drop_last() == old_splines
            &&& new_splines.last().segments_range.start == current.segments_range.start
            &&& new_splines.last().segments_range.end == n - 1
            &&& new_splines.last().colour == current.colour
            &&& new_current.segments_range.start == n - 1
            &&& new_current.segments_range.end == n
            &&& two_channel(new_current.colour)
            &&& new_current.colour != current.colour
            &&& one_channel(spec_and(current.colour, new_current.colour))
        },
        !(sharp && n > current.segments_range.start + 1) ==> {
            &&& new_splines == old_splines
            &&& new_current == current
        },
{
    lemma_next_colour(current.colour);
    if sharp && n > current.segments_range.start + 1 {
        assert(new_splines.drop_last() == old_splines);
    }
}

/// The splines and current spline after a segment was added, when there were
/// `old_splines` and the spline `current` before it, and `n` segments after
/// it: a split finishes `current` just before the new segment and starts a
/// spline of the next colour holding only the new segment.
pub open spec fn spline_step(
    old_splines: Seq<Spline>,
    current: Spline,
    n: nat,
    sharp: bool,
    new_splines: Seq<Spline>,
    new_current: Spline,
) -> bool {
    if splits(current, n, sharp) {
        &&& new_splines == old_splines.push(
            spline_of(current.segments_range.start, (n - 1) as usize, current.colour),
        )
        &&& new_current == spline_of((n - 1) as usize, n as usize, next_colour(current.colour))
    } else {
        &&& new_splines == old_splines
        &&& new_current == current
    }
}

/// The builder `r` is `b` with the points `added` and the segment `seg`
/// appended, and its splines stepped as [`spline_step`] says.
pub open spec fn appended<P>(
    b: ContourBuilder<P>,
    added: Seq<P>,
    seg: SegmentRef,
    sharp: bool,
    r: ContourBuilder<P>,
) -> bool {
    &&& r.shape().points@ == b.shape().points@ + added
    &&& r.shape().segments@ == b.shape().segments@.push(seg)
    &&& r.shape().contours@ == b.shape().contours@
    &&& spline_step(
        b.shape().splines@,
        b.current_spline(),
        r.shape().segments@.len(),
        sharp,
        r.shape().splines@,
        r.current_spline(),
    )
}

/// Splines `from..to` are non-empty runs of segments, each starting where
/// the one before it ends: together they hold every segment from the start
/// of the first to the end of the last exactly once.
pub open spec fn tiled(splines: Seq<Spline>, from: int, to: int) -> bool {
    &&& forall|i: int| from <= i < to ==> (#[trigger] splines[i]).segments_range.start < splines[i].segments_range.end
    &&& forall|i: int|
        #![trigger splines[i], splines[i + 1]]
        from <= i < to - 1 ==> splines[i].segments_range.end == splines[i + 1].segments_range.start
}

/// The splines of every contour are tiled.
pub open spec fn contours_tiled<P>(s: Shape<P>) -> bool {
    forall|k: int|
        0 <= k < s.contours@.len() ==> tiled(
            s.splines@,
            (#[trigger] s.contours@[k]).spline_range.start as int,
            s.contours@[k].spline_range.end as int,
        )
}

/// The splines pushed so far for the contour being built are tiled and end
/// where the current spline starts, before the last segment.
spec fn current_tiled<P>(shape: Shape<P>, current: Spline) -> bool {
    let c = shape.contours@.last().spline_range.start as int;
    let l = shape.splines@.len() as int;
    &&& tiled(shape.splines@, c, l)
    &&& l > c ==> shape.splines@[l - 1].segments_range.end == current.segments_range.start
    &&& l > c ==> current.segments_range.start < shape.segments@.len()
}

proof fn lemma_tiled_push(s: Seq<Spline>, x: Spline, from: int, to: int)
    requires
        tiled(s, from, to),
        0 <= from,
        to <= s.len(),
    ensures
        tiled(s.push(x), from, to),
{
    assert forall|i: int| from <= i < to implies (#[trigger] s.push(x)[i]).segments_range.start
        < s.push(x)[i].segments_range.end by {
        assert(s.push(x)[i] == s[i]);
    }
    assert forall|i: int| #![trigger s.push(x)[i], s.push(x)[i + 1]] from <= i < to - 1 implies s.push(x)[i].segments_range.end
        == s.push(x)[i + 1].segments_range.start by {
        assert(s.push(x)[i] == s[i]);
        assert(s.push(x)[i + 1] == s[i + 1]);
    }
}

proof fn lemma_tiled_extend(s: Seq<Spline>, x: Spline, from: int)
    requires
        tiled(s, from, s.len() as int),
        0 <= from <= s.len(),
        x.segments_range.start < x.segments_range.end,
        s.len() > from ==> s[s.len() - 1].segments_range.end == x.segments_range.start,
    ensures
        tiled(s.push(x), from, s.len() + 1 as int),
{
    lemma_tiled_push(s, x, from, s.len() as int);
    let t = s.push(x);
    let n = s.len() as int;
    assert(t[n] == x);
    assert forall|i: int| #![trigger t[i], t[i + 1]] from <= i < n + 1 - 1 implies t[i].segments_range.end
        == t[i + 1].segments_range.start by {
        assert(t[i] == s[i]);
        if i < n - 1 {
            assert(t[i + 1] == s[i + 1]);
        }
    }
}

proof fn lemma_contours_tiled_push<P>(old: Shape<P>, new: Shape<P>, x: Spline)
    requires
        old.wf(),
        contours_tiled(old),
        new.contours@ == old.contours@,
        new.splines@ == old.splines@.push(x),
    ensures
        contours_tiled(new),
{
    assert forall|k: int| 0 <= k < new.contours@.len() implies tiled(
        new.splines@,
        (#[trigger] new.contours@[k]).spline_range.start as int,
        new.contours@[k].spline_range.end as int,
    ) by {
        assert(range_within(old.contours@[k].spline_range, old.splines@.len()));
        lemma_tiled_push(
            old.splines@,
            x,
            old.contours@[k].spline_range.start as int,
            old.contours@[k].spline_range.end as int,
        );
    }
}

/// A shape that only grows keeps its indices within bounds and its splines
/// two-channel: every entry it had stays, and each added segment, spline and
/// contour lies within the grown buffers.
proof fn lemma_grown<P>(old: Shape<P>, new: Shape<P>)
    requires
        old.wf(),
        two_channel_splines(old),
        old.points@.len() <= new.points@.len(),
        old.segments@.len() <= new.segments@.len(),
        old.splines@.len() <= new.splines@.len(),
        old.contours@.len() <= new.contours@.len(),
        forall|i: int| 0 <= i < old.segments@.len() ==> new.segments@[i] == old.segments@[i],
        forall|i: int| 0 <= i < old.splines@.len() ==> new.splines@[i] == old.splines@[i],
        forall|i: int| 0 <= i < old.contours@.len() ==> new.contours@[i] == old.contours@[i],
        forall|i: int|
            old.segments@.len() <= i < new.segments@.len() ==> segment_fits(new.segments@[i], new.points@.len()),
        forall|i: int|
            old.splines@.len() <= i < new.splines@.len() ==> range_within(
                new.splines@[i].segments_range,
                new.segments@.len(),
            ) && two_channel(new.splines@[i].colour),
        forall|i: int|
            old.contours@.len() <= i < new.contours@.len() ==> range_within(
                new.contours@[i].spline_range,
                new.splines@.len(),
            ),
    ensures
        new.wf(),
        two_channel_splines(new),
{
    assert forall|i: int| 0 <= i < new.segments@.len() implies #[trigger] segment_fits(
        new.segments@[i],
        new.points@.len(),
    ) by {
        if i < old.segments@.len() {
            assert(segment_fits(old.segments@[i], old.points@.len()));
        }
    }
    assert forall|i: int| 0 <= i < new.splines@.len() implies #[trigger] range_within(
        new.splines@[i].segments_range,
        new.segments@.len(),
    ) && two_channel(new.splines@[i].colour) by {
        if i < old.splines@.len() {
            assert(range_within(old.splines@[i].segments_range, old.segments@.len()));
            assert(two_channel(old.splines@[i].colour));
        }
    }
    assert forall|i: int| 0 <= i < new.contours@.len() implies #[trigger] range_within(
        new.contours@[i].spline_range,
        new.splines@.len(),
    ) by {
        if i < old.contours@.len() {
            assert(range_within(old.contours@[i].spline_range, old.splines@.len()));
        }
    }
}

impl<P> ShapeBuilder<P> {
    /// The shape built so far.
    pub closed spec fn shape(self) -> Shape<P> {
        self.shape
    }

    pub closed spec fn wf(self) -> bool {
        &&& self.shape.wf()
        &&& two_channel_splines(self.shape)
        &&& contours_tiled(self.shape)
    }

    pub fn new() -> (r: Self)
        ensures
            r.wf(),
            r.shape().points@.len() == 0,
            r.shape().segments@.len() == 0,
            r.shape().splines@.len() == 0,
            r.shape().contours@.len() == 0,
    {
        ShapeBuilder {
            shape: Shape { points: Vec::new(), segments: Vec::new(), splines: Vec::new(), contours: Vec::new() },
        }
    }

    /// The finished shape.
    pub fn build(self) -> (r: Shape<P>)
        requires
            self.wf(),
        ensures
            r == self.shape(),
            r.wf(),
            two_channel_splines(r),
            contours_tiled(r),
    {
        self.shape
    }

    /// Start a new contour at `start_point`.
    pub fn contour(self, start_point: P) -> (r: ContourBuilder<P>)
        requires
            self.wf(),
        ensures
            r.wf(),
            r.shape().points@ == self.shape().points@.push(start_point),
            r.shape().segments@ == self.shape().segments@,
            r.shape().splines@ == self.shape().splines@,
            r.shape().contours@ == self.shape().contours@.push(
                Contour {
                    spline_range: Range {
                        start: self.shape().splines@.len() as usize,
                        end: self.shape().splines@.len() as usize,
                    },
                },
            ),
            r.current_spline() == spline_of(
                self.shape().segments@.len() as usize,
                self.shape().segments@.len() as usize,
                Colour::Magenta,
            ),
            r.first_segment() == self.shape().segments@.len(),
    {
        ContourBuilder::new(self.shape, start_point)
    }
}

impl<P> ContourBuilder<P> {
    /// The shape built so far, including the unfinished contour.
    pub closed spec fn shape(self) -> Shape<P> {
        self.shape
    }

    /// The spline being built; its end is only set when it is finished.
    pub closed spec fn current_spline(self) -> Spline {
        self.current_spline
    }

    pub closed spec fn wf(self) -> bool {
        &&& self.shape.wf()
        &&& two_channel_splines(self.shape)
        &&& two_channel(self.current_spline.colour)
        &&& contours_tiled(self.shape)
        &&& current_tiled(self.shape, self.current_spline)
        &&& self.shape.points@.len() >= 1
        &&& self.shape.contours@.len() >= 1
        &&& self.shape.contours@.last().spline_range.start == self.shape.contours@.last().spline_range.end
        &&& self.shape.contours@.last().spline_range.start <= self.shape.splines@.len()
        &&& range_within(self.current_spline.segments_range, self.shape.segments@.len())
    }

    /// The index of the first segment of the contour being built.
    pub closed spec fn first_segment(self) -> int {
        let c = self.shape.contours@.last().spline_range.start as int;
        if c < self.shape.splines@.len() {
            self.shape.splines@[c].segments_range.start as int
        } else {
            self.current_spline.segments_range.start as int
        }
    }

    /// The shape built so far.
    pub fn shape_ref(&self) -> (r: &Shape<P>)
        ensures
            *r == self.shape(),
    {
        &self.shape
    }

    /// The last point of the contour so far: where the next segment starts.
    pub fn last_point(&self) -> (r: &P)
        requires
            self.wf(),
        ensures
            *r == self.shape().points@.last(),
    {
        let n = self.shape.points.len();
        &self.shape.points[n - 1]
    }

    /// The index of the first segment of the contour being built.
    pub fn first_segment_index(&self) -> (r: usize)
        requires
            self.wf(),
        ensures
            r == self.first_segment(),
    {
        let n = self.shape.contours.len();
        let c = self.shape.contours[n - 1].spline_range.start;
        if c < self.shape.splines.len() {
            self.shape.splines[c].segments_range.start
        } else {
            self.current_spline.segments_range.start
        }
    }

    /// Start a new spline when the segment just added meets the previous
    /// one of the current spline at a sharp corner.
    fn check_for_and_create_new_spline(&mut self, sharp: bool)
        requires
            old(self).shape.wf(),
            two_channel_splines(old(self).shape),
            two_channel(old(self).current_spline.colour),
            old(self).shape.contours@.len() >= 1,
            contours_tiled(old(self).shape),
            current_tiled(old(self).shape, old(self).current_spline),
            range_within(old(self).current_spline.segments_range, old(self).shape.segments@.len()),
        ensures
            final(self).shape.points@ == old(self).shape.points@,
            final(self).shape.segments@ == old(self).shape.segments@,
            final(self).shape.contours@ == old(self).shape.contours@,
            spline_step(
                old(self).shape.splines@,
                old(self).current_spline,
                old(self).shape.segments@.len(),
                sharp,
                final(self).shape.splines@,
                final(self).current_spline,
            ),
            final(self).shape.wf(),
            two_channel_splines(final(self).shape),
            two_channel(final(self).current_spline.colour),
            contours_tiled(final(self).shape),
            current_tiled(final(self).shape, final(self).current_spline),
            range_within(final(self).current_spline.segments_range, final(self).shape.segments@.len()),
            final(self).first_segment() == old(self).first_segment(),
    {
        let segments_len = self.shape.segments.len();
        let start = self.current_spline.segments_range.start;
        if segments_len > start && segments_len - start > 1 && sharp {
            let colour = self.current_spline.colour;
            let finished = Spline {
                segments_range: Range { start, end: segments_len - 1 },
                colour,
            };
            self.shape.splines.push(finished);
            let next = if colour == Colour::Magenta {
                Colour::Yellow
            } else {
                colour ^ Colour::Magenta
            };
            self.current_spline = Spline {
                segments_range: Range { start: segments_len - 1, end: segments_len },
                colour: next,
            };
            proof {
                lemma_next_colour(colour);
                let sh = self.shape;
                let os = old(self).shape;
                let fin = sh.splines@.last();
                assert(sh.splines@ == os.splines@.push(fin));
                lemma_contours_tiled_push(os, sh, fin);
                let c = os.contours@.last().spline_range.start as int;
                assert(range_within(os.contours@[os.contours@.len() - 1].spline_range, os.splines@.len()));
                lemma_tiled_extend(os.splines@, fin, c);
                lemma_grown(os, sh);
            }
        }
    }

    /// Append the segment `seg` whose new points are already pushed.
    fn push_segment(&mut self, seg: SegmentRef, sharp: bool)
        requires
            old(self).shape.wf(),
            two_channel_splines(old(self).shape),
            two_channel(old(self).current_spline.colour),
            old(self).shape.contours@.len() >= 1,
            contours_tiled(old(self).shape),
            current_tiled(old(self).shape, old(self).current_spline),
            segment_fits(seg, old(self).shape.points@.len()),
            range_within(old(self).current_spline.segments_range, old(self).shape.segments@.len()),
        ensures
            final(self).shape.points@ == old(self).shape.points@,
            final(self).shape.segments@ == old(self).shape.segments@.push(seg),
            final(self).shape.contours@ == old(self).shape.contours@,
            spline_step(
                old(self).shape.splines@,
                old(self).current_spline,
                final(self).shape.segments@.len(),
                sharp,
                final(self).shape.splines@,
                final(self).current_spline,
            ),
            final(self).shape.wf(),
            two_channel_splines(final(self).shape),
            two_channel(final(self).current_spline.colour),
            contours_tiled(final(self).shape),
            current_tiled(final(self).shape, final(self).current_spline),
            range_within(final(self).current_spline.segments_range, final(self).shape.segments@.len()),
            final(self).first_segment() == old(self).first_segment(),
    {
        self.shape.segments.push(seg);
        proof {
            lemma_grown(old(self).shape, self.shape);
        }
        self.check_for_and_create_new_spline(sharp);
    }

    /// Append a point to the buffer.
    fn push_point(&mut self, p: P)
        requires
            old(self).wf(),
        ensures
            final(self).wf(),
            final(self).shape.points@ == old(self).shape.points@.push(p),
            final(self).shape.segments@ == old(self).shape.segments@,
            final(self).shape.splines@ == old(self).shape.splines@,
            final(self).shape.contours@ == old(self).shape.contours@,
            final(self).current_spline == old(self).current_spline,
            final(self).first_segment() == old(self).first_segment(),
    {
        self.shape.points.push(p);
        proof {
            lemma_grown(old(self).shape, self.shape);
        }
    }

    /// Add a line from the last point to `end_point`. `sharp` tells whether
    /// the line meets the previous segment at a sharp corner.
    pub fn line(self, end_point: P, sharp: bool) -> (r: Self)
        requires
            self.wf(),
        ensures
            r.wf(),
            r.first_segment() == self.first_segment(),
            appended(
                self,
                seq![end_point],
                SegmentRef {
                    kind: SegmentKind::Line,
                    points_index: (self.shape().points@.len() - 1) as usize,
                },
                sharp,
                r,
            ),
    {
        let ghost old_self = self;
        let mut b = self;
        b.push_point(end_point);
        let n = b.shape.points.len();
        let seg = SegmentRef { kind: SegmentKind::Line, points_index: n - 2 };
        b.push_segment(seg, sharp);
        proof {
            assert(b.shape.points@ == old_self.shape.points@ + seq![end_point]);
        }
        b
    }

    /// Add a quadratic bezier from the last point through `control_point`
    /// to `end_point`.
    pub fn quadratic_bezier(self, control_point: P, end_point: P, sharp: bool) -> (r: Self)
        requires
            self.wf(),
        ensures
            r.wf(),
            r.first_segment() == self.first_segment(),
            appended(
                self,
                seq![control_point, end_point],
                SegmentRef {
                    kind: SegmentKind::QuadBezier,
                    points_index: (self.shape().points@.len() - 1) as usize,
                },
                sharp,
                r,
            ),
    {
        let ghost old_self = self;
        let mut b = self;
        b.push_point(control_point);
        b.push_point(end_point);
        let n = b.shape.points.len();
        let seg = SegmentRef { kind: SegmentKind::QuadBezier, points_index: n - 3 };
        b.push_segment(seg, sharp);
        proof {
            assert(b.shape.points@ == old_self.shape.points@ + seq![control_point, end_point]);
        }
        b
    }

    /// Add a cubic bezier from the last point through two control points to
    /// `end_point`.
    pub fn cubic_bezier(
        self,
        control_point_1: P,
        control_point_2: P,
        end_point: P,
        sharp: bool,
    ) -> (r: Self)
        requires
            self.wf(),
        ensures
            r.wf(),
            r.first_segment() == self.first_segment(),
            appended(
                self,
                seq![control_point_1, control_point_2, end_point],
                SegmentRef {
                    kind: SegmentKind::CubicBezier,
                    points_index: (self.shape().points@.len() - 1) as usize,
                },
                sharp,
                r,
            ),
    {
        let ghost old_self = self;
        let mut b = self;
        b.push_point(control_point_1);
        b.push_point(control_point_2);
        b.push_point(end_point);
        let n = b.shape.points.len();
        let seg = SegmentRef { kind: SegmentKind::CubicBezier, points_index: n - 4 };
        b.push_segment(seg, sharp);
        proof {
            assert(b.shape.points@ == old_self.shape.points@ + seq![
                control_point_1,
                control_point_2,
                end_point,
            ]);
        }
        b
    }

    /// Add an elliptical arc from the last point to `end`, given the four
    /// points of its centre parameterisation.
    pub fn elliptical_arc(self, centre_ps: [P; 4], end: P, sharp: bool) -> (r: Self) where P: Copy
        requires
            self.wf(),
        ensures
            r.wf(),
            r.first_segment() == self.first_segment(),
            appended(
                self,
                centre_ps@.push(end),
                SegmentRef {
                    kind: SegmentKind::EllipticalArc,
                    points_index: self.shape().points@.len() as usize,
                },
                sharp,
                r,
            ),
    {
        let ghost old_self = self;
        let mut b = self;
        let c0 = centre_ps[0];
        let c1 = centre_ps[1];
        let c2 = centre_ps[2];
        let c3 = centre_ps[3];
        b.push_point(c0);
        b.push_point(c1);
        b.push_point(c2);
        b.push_point(c3);
        b.push_point(end);
        let n = b.shape.points.len();
        let seg = SegmentRef { kind: SegmentKind::EllipticalArc, points_index: n - 5 };
        b.push_segment(seg, sharp);
        proof {
            assert(centre_ps@ == seq![c0, c1, c2, c3]);
            assert(b.shape.points@ == old_self.shape.points@ + centre_ps@.push(end));
        }
        b
    }

    /// Finish the contour.
    ///
    /// When the contour does not end where it started, `closing` holds its
    /// first point and whether the closing line meets the last segment at a
    /// sharp corner; a line to that point is added first, as
    /// [`ContourBuilder::line`] adds it, so that it either extends the
    /// current spline or starts a new one. The current spline is then
    /// finished at the last segment, and the contour spans every spline
    /// pushed since it was started: its splines hold each of its segments
    /// exactly once.
    pub fn end_contour(self, closing: Option<(P, bool)>) -> (r: ShapeBuilder<P>)
        requires
            self.wf(),
            self.first_segment() < self.shape().segments@.len(),
        ensures
            r.wf(),
            contours_tiled(r.shape()),
            ({
                let old_shape = self.shape();
                let cur = self.current_spline();
                let nseg = old_shape.segments@.len();
                let last = old_shape.contours@.len() - 1;
                let cstart = old_shape.contours@[last].spline_range.start;
                match closing {
                    None => {
                        let s0 = old_shape.splines@.push(spline_of(cur.segments_range.start, nseg as usize, cur.colour));
                        &&& r.shape().points@ == old_shape.points@
                        &&& r.shape().segments@ == old_shape.segments@
                        &&& r.shape().splines@ == s0
                        &&& r.shape().contours@ == old_shape.contours@.update(
                            last,
                            Contour { spline_range: Range { start: cstart, end: s0.len() as usize } },
                        )
                    },
                    Some((p, sharp)) => {
                        let s1 = if splits(cur, nseg + 1, sharp) {
                            old_shape.splines@.push(spline_of(cur.segments_range.start, nseg as usize, cur.colour)).push(
                                spline_of(nseg as usize, (nseg + 1) as usize, next_colour(cur.colour)),
                            )
                        } else {
                            old_shape.splines@.push(spline_of(cur.segments_range.start, (nseg + 1) as usize, cur.colour))
                        };
                        &&& r.shape().points@ == old_shape.points@.push(p)
                        &&& r.shape().segments@ == old_shape.segments@.push(
                            SegmentRef {
                                kind: SegmentKind::Line,
                                points_index: (old_shape.points@.len() - 1) as usize,
                            },
                        )
                        &&& r.shape().splines@ == s1
                        &&& r.shape().contours@ == old_shape.contours@.update(
                            last,
                            Contour { spline_range: Range { start: cstart, end: s1.len() as usize } },
                        )
                    },
                }
            }),
    {
        let ghost old_self = self;
        proof {
            let c = old_self.shape.contours@.last().spline_range.start as int;
            if c < old_self.shape.splines@.len() {
                assert(old_self.current_spline.segments_range.start < old_self.shape.segments@.len());
            }
        }
        let mut b = self;
        match closing {
            Some((p, sharp)) => {
                b = b.line(p, sharp);
            },
            None => {},
        }
        let ghost mid = b;
        let nseg = b.shape.segments.len();
        let cur_start = b.current_spline.segments_range.start;
        let colour = b.current_spline.colour;
        assert(cur_start < nseg);
        b.shape.splines.push(Spline { segments_range: Range { start: cur_start, end: nseg }, colour });
        proof {
            let sh = b.shape;
            let ms = mid.shape;
            let fin = sh.splines@.last();
            assert(sh.splines@ == ms.splines@.push(fin));
            lemma_grown(ms, sh);
            lemma_contours_tiled_push(ms, sh, fin);
            let c = ms.contours@.last().spline_range.start as int;
            assert(range_within(ms.contours@[ms.contours@.len() - 1].spline_range, ms.splines@.len()));
            lemma_tiled_extend(ms.splines@, fin, c);
        }
        let nc = b.shape.contours.len();
        let cstart = b.shape.contours[nc - 1].spline_range.start;
        let nsplines = b.shape.splines.len();
        let ghost before_set = b.shape;
        b.shape.contours.set(nc - 1, Contour { spline_range: Range { start: cstart, end: nsplines } });
        let r = ShapeBuilder { shape: b.shape };
        proof {
            let sh = r.shape;
            assert forall|i: int| 0 <= i < sh.contours@.len() implies #[trigger] range_within(
                sh.contours@[i].spline_range,
                sh.splines@.len(),
            ) by {
                if i < sh.contours@.len() - 1 {
                    assert(range_within(before_set.contours@[i].spline_range, before_set.splines@.len()));
                }
            }
            assert forall|k: int| 0 <= k < sh.contours@.len() implies tiled(
                sh.splines@,
                (#[trigger] sh.contours@[k]).spline_range.start as int,
                sh.contours@[k].spline_range.end as int,
            ) by {
                if k < sh.contours@.len() - 1 {
                    assert(sh.contours@[k] == before_set.contours@[k]);
                }
            }
        }
        r
    }

    fn new(mut shape: Shape<P>, start_point: P) -> (r: Self)
        requires
            shape.wf(),
            two_channel_splines(shape),
            contours_tiled(shape),
        ensures
            r.wf(),
            r.shape().points@ == shape.points@.push(start_point),
            r.shape().segments@ == shape.segments@,
            r.shape().splines@ == shape.splines@,
            r.shape().contours@ == shape.contours@.push(
                Contour {
                    spline_range: Range {
                        start: shape.splines@.len() as usize,
                        end: shape.splines@.len() as usize,
                    },
                },
            ),
            r.current_spline() == spline_of(
                shape.segments@.len() as usize,
                shape.segments@.len() as usize,
                Colour::Magenta,
            ),
            r.first_segment() == shape.segments@.len(),
    {
        let ghost old_shape = shape;
        shape.points.push(start_point);
        let spline_len = shape.splines.len();
        shape.contours.push(Contour { spline_range: Range { start: spline_len, end: spline_len } });
        let segments_len = shape.segments.len();
        let r = ContourBuilder {
            shape,
            current_spline: Spline {
                segments_range: Range { start: segments_len, end: segments_len },
                colour: Colour::Magenta,
            },
        };
        proof {
            lemma_grown(old_shape, r.shape);
        }
        r
    }
}

} // verus!
