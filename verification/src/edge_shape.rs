//! Shapes as contours of edge segments over a run of points, with the sharp
//! corners that split each contour into splines.
//!
//! A contour starts with one point and every edge segment appends the points
//! after its start: a line one, a quadratic bezier two, a cubic bezier
//! three. Corners are recorded as the index of the edge segment that starts
//! at the corner together with the index of the corner's point.

use vstd::prelude::*;

verus! {

/// The kind of an edge segment of a contour.
#[derive(Debug, Clone, Copy, PartialEq, Eq, Structural)]
pub enum EdgeSegment {
    Line,
    Quadratic,
    Cubic,
}

/// The number of points an edge segment appends after its start point.
pub open spec fn degree(e: EdgeSegment) -> nat {
    match e {
        EdgeSegment::Line => 1,
        EdgeSegment::Quadratic => 2,
        EdgeSegment::Cubic => 3,
    }
}

/// The number of points the edge segments append: the index of the point
/// where the edge that follows them starts.
pub open spec fn points_of(edges: Seq<EdgeSegment>) -> nat
    decreases edges.len(),
{
    if edges.len() == 0 {
        0
    } else {
        points_of(edges.drop_last()) + degree(edges.last())
    }
}

/// Point counts add up over concatenation.
pub proof fn lemma_points_of_concat(a: Seq<EdgeSegment>, b: Seq<EdgeSegment>)
    ensures
        points_of(a + b) == points_of(a) + points_of(b),
    decreases b.len(),
{
    if b.len() > 0 {
        lemma_points_of_concat(a, b.drop_last());
        assert((a + b).drop_last() == a + b.drop_last());
        assert((a + b).last() == b.last());
    } else {
        assert(a + b == a);
    }
}

/// The start point of edge `i + 1` is the start point of edge `i` plus the
/// degree of edge `i`.
pub proof fn lemma_points_of_take_step(edges: Seq<EdgeSegment>, i: int)
    requires
        0 <= i < edges.len(),
    ensures
        points_of(edges.take(i + 1)) == points_of(edges.take(i)) + degree(edges[i]),
{
    assert(edges.take(i + 1).drop_last() == edges.take(i));
}

/// Start points grow with the edge index.
pub proof fn lemma_points_of_take_mono(edges: Seq<EdgeSegment>, i: int, j: int)
    requires
        0 <= i <= j <= edges.len(),
    ensures
        points_of(edges.take(i)) + (j - i) <= points_of(edges.take(j)),
    decreases j - i,
{
    if i < j {
        lemma_points_of_take_mono(edges, i, j - 1);
        lemma_points_of_take_step(edges, j - 1);
    }
}

/// The points of a run of edges are the difference of the start points
/// around it.
pub proof fn lemma_points_of_subrange(edges: Seq<EdgeSegment>, i: int, j: int)
    requires
        0 <= i <= j <= edges.len(),
    ensures
        points_of(edges.subrange(i, j)) == points_of(edges.take(j)) - points_of(edges.take(i)),
{
    lemma_points_of_concat(edges.take(i), edges.subrange(i, j));
    assert(edges.take(i) + edges.subrange(i, j) == edges.take(j));
}

/// Axis-aligned bounds.
#[derive(Debug, PartialEq)]
pub struct Box<T> {
    pub left: T,
    pub right: T,
    pub top: T,
    pub bottom: T,
}

/// A path of edge segments over a run of points. Closing it makes its last
/// point equal its first; rotating it to its first corner moves the edge
/// segments and points as they are stored, the repeated closing point
/// included.
#[derive(Debug)]
pub struct Contour<P> {
    edge_segments: Vec<EdgeSegment>,
    points: Vec<P>,
    /// (edge_segments index, points index)
    corners: Vec<(usize, usize)>,
}

/// Each corner names an edge of the contour and the point where that edge
/// starts, and corners come in strictly increasing edge order.
pub open spec fn corners_valid(edges: Seq<EdgeSegment>, corners: Seq<(usize, usize)>) -> bool {
    &&& forall|i: int|
        0 <= i < corners.len() ==> {
            &&& (#[trigger] corners[i]).0 < edges.len()
            &&& corners[i].1 == points_of(edges.take(corners[i].0 as int))
        }
    &&& forall|i: int, j: int|
        0 <= i < j < corners.len() ==> (#[trigger] corners[i]).0 < (#[trigger] corners[j]).0
}

/// The runs of spline `i` of a contour with the given corners: its first
/// and one-past-last edge index, then its first and one-past-last point
/// index, for a contour of `ne` edges and `np` points.
pub open spec fn spline_bounds(corners: Seq<(usize, usize)>, i: int, ne: nat, np: nat) -> (
    int,
    int,
    int,
    int,
) {
    if i + 1 < corners.len() {
        (corners[i].0 as int, corners[i + 1].0 as int, corners[i].1 as int, corners[i + 1].1 + 1)
    } else {
        (corners[i].0 as int, ne as int, corners[i].1 as int, np as int)
    }
}

/// The three point indices that decide whether edge `e` starts at a sharp
/// corner: the point before its start (for edge 0 the last point before the
/// closing point), its start point and the point after it.
pub open spec fn candidate(edges: Seq<EdgeSegment>, np: nat, e: int) -> (usize, usize, usize) {
    let b = points_of(edges.take(e));
    if e == 0 {
        ((np - 2) as usize, b as usize, (b + 1) as usize)
    } else {
        ((b - 1) as usize, b as usize, (b + 1) as usize)
    }
}

/// The corners recorded for the first `k` edges: edge `e` and its start
/// point for every edge whose flag is set, in edge order.
pub open spec fn flagged(edges: Seq<EdgeSegment>, flags: Seq<bool>, k: int) -> Seq<(usize, usize)>
    decreases k,
{
    if k <= 0 {
        Seq::empty()
    } else if flags[k - 1] {
        flagged(edges, flags, k - 1).push(((k - 1) as usize, points_of(edges.take(k - 1)) as usize))
    } else {
        flagged(edges, flags, k - 1)
    }
}

/// The three points that decide whether edge `e` starts at a sharp corner
/// are the point just before the edge's start point (for the first edge,
/// the point just before the closing point), the start point itself, and
/// the point right after the start point, whatever the kind of the edge;
/// all three lie within the contour.
pub proof fn lemma_candidate_neighbours(edges: Seq<EdgeSegment>, np: nat, e: int)
    requires
        0 <= e < edges.len(),
        np == 1 + points_of(edges),
        np <= usize::MAX,
    ensures
        ({
            let (before, at, after) = candidate(edges, np, e);
            &&& at == points_of(edges.take(e))
            &&& after == at + 1
            &&& after < np
            &&& e == 0 ==> before + 2 == np
            &&& e > 0 ==> before + 1 == at
        }),
{
    let n = edges.len() as int;
    lemma_points_of_take_step(edges, e);
    lemma_points_of_take_mono(edges, e + 1, n);
    lemma_points_of_take_mono(edges, 0, e);
    assert(edges.take(n) == edges);
    assert(edges.take(0) == Seq::<EdgeSegment>::empty());
}

/// The corners recorded from `flags` are exactly the flagged edges, in
/// increasing edge order, each with the start point of its edge: an edge is
/// recorded if and only if its flag is set, whatever its kind.
pub proof fn lemma_flagged_marks(edges: Seq<EdgeSegment>, flags: Seq<bool>, k: int)
    requires
        0 <= k <= flags.len(),
        k <= edges.len(),
        k <= usize::MAX,
        points_of(edges) <= usize::MAX,
    ensures
        ({
            let f = flagged(edges, flags, k);
            &&& forall|j: int|
                0 <= j < f.len() ==> {
                    &&& (#[trigger] f[j]).0 < k
                    &&& flags[f[j].0 as int]
                    &&& f[j].1 == points_of(edges.take(f[j].0 as int))
                }
            &&& forall|j: int, l: int| 0 <= j < l < f.len() ==> (#[trigger] f[j]).0 < (#[trigger] f[l]).0
            &&& forall|e: int| 0 <= e < k && #[trigger] flags[e] ==> exists|j: int| 0 <= j < f.len() && f[j].0 == e
            &&& f.len() <= k
        }),
    decreases k,
{
    if k > 0 {
        lemma_flagged_marks(edges, flags, k - 1);
        let g = flagged(edges, flags, k - 1);
        let f = flagged(edges, flags, k);
        lemma_points_of_take_mono(edges, k - 1, edges.len() as int);
        assert(edges.take(edges.len() as int) == edges);
        if flags[k - 1] {
            assert(f == g.push(((k - 1) as usize, points_of(edges.take(k - 1)) as usize)));
            assert(f[g.len() as int].0 == k - 1);
            assert forall|e: int| 0 <= e < k && #[trigger] flags[e] implies exists|j: int| 0 <= j < f.len() && f[j].0 == e by {
                if e < k - 1 {
                    let j = choose|j: int| 0 <= j < g.len() && g[j].0 == e;
                    assert(f[j] == g[j]);
                } else {
                    assert(f[g.len() as int].0 == e);
                }
            }
        } else {
            assert forall|e: int| 0 <= e < k && #[trigger] flags[e] implies exists|j: int| 0 <= j < f.len() && f[j].0 == e by {
                let j = choose|j: int| 0 <= j < g.len() && g[j].0 == e;
                assert(f[j] == g[j]);
            }
        }
    }
}

/// A corner moved back by the first corner `offset`.
pub open spec fn shifted(c: (usize, usize), offset: (usize, usize)) -> (usize, usize) {
    ((c.0 - offset.0) as usize, (c.1 - offset.1) as usize)
}

/// `new` is `old` rotated to start at its first corner: its edge segments
/// and points are those from the first corner on followed by those before
/// it, and every corner is moved back by the first corner. A contour
/// without corners is left as it is.
pub open spec fn rotated<P>(old: Contour<P>, new: Contour<P>) -> bool {
    if old.corner_list().len() == 0 {
        new == old
    } else {
        let o = old.corner_list()[0];
        &&& new.edges() == old.edges().subrange(o.0 as int, old.edges().len() as int) + old.edges().take(o.0 as int)
        &&& new.pts() == old.pts().subrange(o.1 as int, old.pts().len() as int) + old.pts().take(o.1 as int)
        &&& new.corner_list().len() == old.corner_list().len()
        &&& forall|k: int| 0 <= k < old.corner_list().len() ==> #[trigger] new.corner_list()[k] == shifted(old.corner_list()[k], o)
    }
}

/// Appending an edge segment keeps the start point of every earlier edge,
/// so valid corners stay valid.
pub proof fn lemma_edges_push_keeps(edges: Seq<EdgeSegment>, e: EdgeSegment, corners: Seq<(usize, usize)>)
    requires
        corners_valid(edges, corners),
    ensures
        corners_valid(edges.push(e), corners),
        points_of(edges.push(e)) == points_of(edges) + degree(e),
{
    assert(edges.push(e).drop_last() == edges);
    assert forall|i: int| 0 <= i < corners.len() implies {
        &&& (#[trigger] corners[i]).0 < edges.push(e).len()
        &&& corners[i].1 == points_of(edges.push(e).take(corners[i].0 as int))
    } by {
        assert(edges.push(e).take(corners[i].0 as int) == edges.take(corners[i].0 as int));
    }
}

/// Rotating a well-formed contour to its first corner keeps it well formed
/// and puts that corner at the start.
pub proof fn lemma_rotation_wf<P>(
    edges: Seq<EdgeSegment>,
    pts: Seq<P>,
    corners: Seq<(usize, usize)>,
    new_corners: Seq<(usize, usize)>,
)
    requires
        pts.len() == 1 + points_of(edges),
        corners_valid(edges, corners),
        corners.len() > 0,
        new_corners.len() == corners.len(),
        forall|k: int| 0 <= k < corners.len() ==> #[trigger] new_corners[k] == shifted(corners[k], corners[0]),
    ensures
        ({
            let o = corners[0];
            let new_edges = edges.subrange(o.0 as int, edges.len() as int) + edges.take(o.0 as int);
            let new_pts = pts.subrange(o.1 as int, pts.len() as int) + pts.take(o.1 as int);
            &&& new_pts.len() == 1 + points_of(new_edges)
            &&& corners_valid(new_edges, new_corners)
            &&& new_corners[0] == (0usize, 0usize)
        }),
{
    let o = corners[0];
    let ne = edges.len() as int;
    let o0 = o.0 as int;
    let new_edges = edges.subrange(o0, ne) + edges.take(o0);
    lemma_points_of_concat(edges.subrange(o0, ne), edges.take(o0));
    lemma_points_of_subrange(edges, o0, ne);
    assert(edges.take(ne) == edges);
    lemma_points_of_take_mono(edges, o0, ne);
    assert forall|i: int| 0 <= i < new_corners.len() implies {
        &&& (#[trigger] new_corners[i]).0 < new_edges.len()
        &&& new_corners[i].1 == points_of(new_edges.take(new_corners[i].0 as int))
    } by {
        let c = corners[i];
        if i > 0 {
            assert(corners[0].0 < corners[i].0);
        }
        lemma_points_of_take_mono(edges, o0, c.0 as int);
        lemma_points_of_subrange(edges, o0, c.0 as int);
        assert(new_edges.take(c.0 - o0) == edges.subrange(o0, c.0 as int));
    }
    assert forall|i: int, j: int| 0 <= i < j < new_corners.len() implies (#[trigger] new_corners[i]).0 < (#[trigger] new_corners[j]).0 by {
        assert(corners[i].0 < corners[j].0);
        if i > 0 {
            assert(corners[0].0 < corners[i].0);
        }
    }
}

/// A contour without corners, or one whose first corner is at edge 0 and
/// point 0.
pub open spec fn starts_at_corner<P>(c: Contour<P>) -> bool {
    c.corner_list().len() > 0 ==> c.corner_list()[0] == (0usize, 0usize)
}

/// The contours that enclose an area: those with at least four points, in
/// their order.
pub open spec fn with_area<P>(cs: Seq<Contour<P>>) -> Seq<Contour<P>> {
    cs.filter(|c: Contour<P>| c.pts().len() >= 4)
}

/// Filtering one more contour keeps it exactly when it has at least four
/// points.
proof fn lemma_with_area_push<P>(cs: Seq<Contour<P>>, c: Contour<P>)
    ensures
        with_area(cs.push(c)) == (if c.pts().len() >= 4 {
            with_area(cs).push(c)
        } else {
            with_area(cs)
        }),
{
    reveal(Seq::filter);
    assert(cs.push(c).drop_last() == cs);
}

impl<P> Contour<P> {
    pub closed spec fn edges(self) -> Seq<EdgeSegment> {
        self.edge_segments@
    }

    pub closed spec fn pts(self) -> Seq<P> {
        self.points@
    }

    pub closed spec fn corner_list(self) -> Seq<(usize, usize)> {
        self.corners@
    }

    /// The points are exactly those of the edge segments after one start
    /// point, and the corners are valid.
    pub open spec fn wf(self) -> bool {
        &&& self.pts().len() == 1 + points_of(self.edges())
        &&& corners_valid(self.edges(), self.corner_list())
    }

    /// The edge segments of the contour.
    pub fn edge_segments(&self) -> (r: &Vec<EdgeSegment>)
        ensures
            r@ == self.edges(),
    {
        &self.edge_segments
    }

    /// The points of the contour.
    pub fn points(&self) -> (r: &Vec<P>)
        ensures
            r@ == self.pts(),
    {
        &self.points
    }

    /// The corners as (edge_segments index, points index) pairs.
    pub fn corner_indices(&self) -> (r: &Vec<(usize, usize)>)
        ensures
            r@ == self.corner_list(),
    {
        &self.corners
    }

    /// The splines of the contour: the whole contour when it has no corners,
    /// otherwise one spline from each corner to the next (both corner points
    /// included), and one from the last corner to the end of the contour.
    pub fn splines(&self) -> (r: Vec<(&[EdgeSegment], &[P])>)
        requires
            self.wf(),
        ensures
            self.corner_list().len() == 0 ==> r@.len() == 1 && r@[0].0@ == self.edges() && r@[0].1@ == self.pts(),
            self.corner_list().len() > 0 ==> {
                &&& r@.len() == self.corner_list().len()
                &&& forall|i: int| 0 <= i < r@.len() ==> {
                    let (es, ee, ps, pe) = spline_bounds(
                        self.corner_list(),
                        i,
                        self.edges().len(),
                        self.pts().len(),
                    );
                    &&& (#[trigger] r@[i]).0@ == self.edges().subrange(es, ee)
                    &&& r@[i].1@ == self.pts().subrange(ps, pe)
                }
            },
    {
        let n = self.corners.len();
        let es = self.edge_segments.as_slice();
        let ps = self.points.as_slice();
        let mut out: Vec<(&[EdgeSegment], &[P])> = Vec::new();
        if n == 0 {
            out.push((es, ps));
            return out;
        }
        proof {
            self.lemma_corner_bounds();
        }
        let np = ps.len();
        let mut acc0 = self.corners[0].0;
        let mut acc1 = self.corners[0].1;
        let mut i: usize = 1;
        while i < n
            invariant
                self.wf(),
                n == self.corner_list().len(),
                1 <= i <= n,
                es@ == self.edges(),
                ps@ == self.pts(),
                np == self.pts().len(),
                acc0 == self.corner_list()[i - 1].0,
                acc1 == self.corner_list()[i - 1].1,
                out@.len() == i - 1,
                forall|k: int| 0 <= k < self.corner_list().len() ==> {
                    &&& (#[trigger] self.corner_list()[k]).0 < self.edges().len()
                    &&& self.corner_list()[k].1 + 1 < self.pts().len()
                },
                forall|k: int| 0 <= k < i - 1 ==> {
                    let (s0, e0, s1, e1) = spline_bounds(
                        self.corner_list(),
                        k,
                        self.edges().len(),
                        self.pts().len(),
                    );
                    &&& (#[trigger] out@[k]).0@ == self.edges().subrange(s0, e0)
                    &&& out@[k].1@ == self.pts().subrange(s1, e1)
                },
            decreases n - i,
        {
            let c = self.corners[i];
            proof {
                self.lemma_corners_ordered((i - 1) as int, i as int);
                assert(self.corner_list()[i as int].1 + 1 < self.pts().len());
            }
            out.push((
                vstd::slice::slice_subrange(es, acc0, c.0),
                vstd::slice::slice_subrange(ps, acc1, c.1 + 1),
            ));
            acc0 = c.0;
            acc1 = c.1;
            i = i + 1;
        }
        out.push((
            vstd::slice::slice_subrange(es, acc0, es.len()),
            vstd::slice::slice_subrange(ps, acc1, ps.len()),
        ));
        out
    }

    /// Every corner names an existing edge, and a point that is followed by
    /// at least one more point.
    pub proof fn lemma_corner_bounds(self)
        requires
            self.wf(),
        ensures
            forall|k: int| 0 <= k < self.corner_list().len() ==> {
                &&& (#[trigger] self.corner_list()[k]).0 < self.edges().len()
                &&& self.corner_list()[k].1 + 1 < self.pts().len()
            },
    {
        assert forall|k: int| 0 <= k < self.corner_list().len() implies {
            &&& (#[trigger] self.corner_list()[k]).0 < self.edges().len()
            &&& self.corner_list()[k].1 + 1 < self.pts().len()
        } by {
            let c = self.corner_list()[k];
            lemma_points_of_take_mono(self.edges(), c.0 as int, self.edges().len() as int);
            assert(self.edges().take(self.edges().len() as int) == self.edges());
        }
    }

    /// Rotating a contour to its first corner keeps every edge with its
    /// points: edges and points move cyclically, the edges by the old first
    /// corner's edge index and the points by its point index, so the rotated
    /// contour starts at the point of the old first corner, and each corner
    /// still names the same edge and the same point as before.
    pub proof fn lemma_rotation_keeps_corner_points(self, new: Contour<P>)
        requires
            self.wf(),
            rotated(self, new),
            self.corner_list().len() > 0,
        ensures
            new.pts().len() == self.pts().len(),
            new.edges().len() == self.edges().len(),
            new.pts()[0] == self.pts()[self.corner_list()[0].1 as int],
            new.edges()[0] == self.edges()[self.corner_list()[0].0 as int],
            forall|i: int| 0 <= i < new.edges().len() ==> #[trigger] new.edges()[i] == (if i + self.corner_list()[0].0 < self.edges().len() {
                self.edges()[i + self.corner_list()[0].0]
            } else {
                self.edges()[i + self.corner_list()[0].0 - self.edges().len()]
            }),
            forall|i: int| 0 <= i < new.pts().len() ==> #[trigger] new.pts()[i] == (if i + self.corner_list()[0].1 < self.pts().len() {
                self.pts()[i + self.corner_list()[0].1]
            } else {
                self.pts()[i + self.corner_list()[0].1 - self.pts().len()]
            }),
            forall|k: int| 0 <= k < self.corner_list().len() ==> {
                &&& new.pts()[(#[trigger] new.corner_list()[k]).1 as int] == self.pts()[self.corner_list()[k].1 as int]
                &&& new.edges()[new.corner_list()[k].0 as int] == self.edges()[self.corner_list()[k].0 as int]
            },
    {
        self.lemma_corner_bounds();
        let o = self.corner_list()[0];
        assert forall|k: int| 0 <= k < self.corner_list().len() implies {
            &&& new.pts()[(#[trigger] new.corner_list()[k]).1 as int] == self.pts()[self.corner_list()[k].1 as int]
            &&& new.edges()[new.corner_list()[k].0 as int] == self.edges()[self.corner_list()[k].0 as int]
        } by {
            let c = self.corner_list()[k];
            if k > 0 {
                self.lemma_corners_ordered(0, k);
            }
            assert(new.corner_list()[k] == shifted(c, o));
        }
    }

    /// The splines of a contour that starts at its first corner tile its
    /// edge segments: the first starts at edge 0, each ends where the next
    /// begins and the last ends at the last edge; and each spline holds
    /// exactly the points of its edges, from the start point of its first
    /// edge to the end point of its last.
    pub proof fn lemma_splines_partition(self)
        requires
            self.wf(),
            starts_at_corner(self),
            self.corner_list().len() > 0,
        ensures
            spline_bounds(self.corner_list(), 0, self.edges().len(), self.pts().len()).0 == 0,
            spline_bounds(
                self.corner_list(),
                self.corner_list().len() - 1,
                self.edges().len(),
                self.pts().len(),
            ).1 == self.edges().len(),
            forall|i: int| 0 <= i < self.corner_list().len() - 1 ==> #[trigger] spline_bounds(
                self.corner_list(),
                i,
                self.edges().len(),
                self.pts().len(),
            ).1 == spline_bounds(self.corner_list(), i + 1, self.edges().len(), self.pts().len()).0,
            forall|i: int| 0 <= i < self.corner_list().len() ==> {
                let (es, ee, ps, pe) = #[trigger] spline_bounds(
                    self.corner_list(),
                    i,
                    self.edges().len(),
                    self.pts().len(),
                );
                &&& 0 <= es <= ee <= self.edges().len()
                &&& 0 <= ps <= pe <= self.pts().len()
                &&& ps == points_of(self.edges().take(es))
                &&& pe - ps == 1 + points_of(self.edges().subrange(es, ee))
            },
    {
        let cs = self.corner_list();
        let ne = self.edges().len() as int;
        self.lemma_corner_bounds();
        assert(self.edges().take(ne) == self.edges());
        assert forall|i: int| 0 <= i < cs.len() implies {
            let (es, ee, ps, pe) = #[trigger] spline_bounds(cs, i, self.edges().len(), self.pts().len());
            &&& 0 <= es <= ee <= self.edges().len()
            &&& 0 <= ps <= pe <= self.pts().len()
            &&& ps == points_of(self.edges().take(es))
            &&& pe - ps == 1 + points_of(self.edges().subrange(es, ee))
        } by {
            let c = cs[i];
            if i + 1 < cs.len() {
                self.lemma_corners_ordered(i, i + 1);
                let d = cs[i + 1];
                lemma_points_of_subrange(self.edges(), c.0 as int, d.0 as int);
            } else {
                lemma_points_of_subrange(self.edges(), c.0 as int, ne);
                lemma_points_of_take_mono(self.edges(), c.0 as int, ne);
            }
        }
    }

    /// Later corners have larger edge and point indices.
    pub proof fn lemma_corners_ordered(self, i: int, j: int)
        requires
            self.wf(),
            0 <= i < j < self.corner_list().len(),
        ensures
            self.corner_list()[i].0 < self.corner_list()[j].0,
            self.corner_list()[i].1 < self.corner_list()[j].1,
    {
        let ci = self.corner_list()[i];
        let cj = self.corner_list()[j];
        assert(ci.0 < cj.0);
        lemma_points_of_take_mono(self.edges(), ci.0 as int, cj.0 as int);
    }

    /// Close the contour with a line back to its first point.
    fn close(&mut self)
        where P: Copy,
        requires
            old(self).wf(),
        ensures
            final(self).wf(),
            final(self).edges() == old(self).edges().push(EdgeSegment::Line),
            final(self).pts() == old(self).pts().push(old(self).pts()[0]),
            final(self).corner_list() == old(self).corner_list(),
    {
        let start_point = self.points[0];
        let ghost old_edges = self.edges();
        self.edge_segments.push(EdgeSegment::Line);
        self.points.push(start_point);
        proof {
            lemma_edges_push_keeps(old_edges, EdgeSegment::Line, self.corner_list());
        }
    }

    /// For each edge segment, the indices of the points before, at and after
    /// its start: the three points that decide whether it starts at a sharp
    /// corner.
    fn corner_candidates(&self) -> (r: Vec<(usize, usize, usize)>)
        requires
            self.wf(),
            self.pts().len() >= 2,
        ensures
            r@.len() == self.edges().len(),
            forall|e: int| 0 <= e < r@.len() ==> #[trigger] r@[e] == candidate(self.edges(), self.pts().len(), e),
    {
        let n = self.edge_segments.len();
        let np = self.points.len();
        let mut out: Vec<(usize, usize, usize)> = Vec::new();
        let mut b: usize = 0;
        let mut e: usize = 0;
        while e < n
            invariant
                self.wf(),
                np == self.pts().len(),
                np >= 2,
                n == self.edges().len(),
                e <= n,
                b == points_of(self.edges().take(e as int)),
                out@.len() == e,
                forall|k: int| 0 <= k < e ==> #[trigger] out@[k] == candidate(self.edges(), np as nat, k),
            decreases n - e,
        {
            proof {
                lemma_points_of_take_step(self.edges(), e as int);
                lemma_points_of_take_mono(self.edges(), (e + 1) as int, n as int);
                assert(self.edges().take(n as int) == self.edges());
            }
            let a = if e == 0 { np - 2 } else { b - 1 };
            proof {
                if e > 0 {
                    lemma_points_of_take_mono(self.edges(), 0, e as int);
                }
            }
            out.push((a, b, b + 1));
            b = b + match self.edge_segments[e] {
                EdgeSegment::Line => 1,
                EdgeSegment::Quadratic => 2,
                EdgeSegment::Cubic => 3,
            };
            e = e + 1;
        }
        out
    }

    /// Record a corner at the start of every edge segment whose flag is set.
    fn identify_corners(&mut self, flags: &Vec<bool>)
        requires
            old(self).wf(),
            old(self).corner_list().len() == 0,
            flags@.len() == old(self).edges().len(),
        ensures
            final(self).wf(),
            final(self).edges() == old(self).edges(),
            final(self).pts() == old(self).pts(),
            final(self).corner_list() == flagged(old(self).edges(), flags@, flags@.len() as int),
    {
        let n = self.edge_segments.len();
        let mut b: usize = 0;
        let mut e: usize = 0;
        let np = self.points.len();
        while e < n
            invariant
                n == self.edges().len(),
                np == self.pts().len(),
                self.pts().len() == 1 + points_of(self.edges()),
                flags@.len() == n,
                e <= n,
                b == points_of(self.edges().take(e as int)),
                self.edges() == old(self).edges(),
                self.pts() == old(self).pts(),
                self.corner_list() == flagged(self.edges(), flags@, e as int),
                corners_valid(self.edges(), self.corner_list()),
                forall|k: int| 0 <= k < self.corner_list().len() ==> (#[trigger] self.corner_list()[k]).0 < e,
            decreases n - e,
        {
            proof {
                lemma_points_of_take_step(self.edges(), e as int);
                lemma_points_of_take_mono(self.edges(), (e + 1) as int, n as int);
                assert(self.edges().take(n as int) == self.edges());
            }
            if flags[e] {
                self.corners.push((e, b));
            }
            b = b + match self.edge_segments[e] {
                EdgeSegment::Line => 1,
                EdgeSegment::Quadratic => 2,
                EdgeSegment::Cubic => 3,
            };
            e = e + 1;
        }
    }

    /// Rotate the contour so that its first corner, if it has one, is at
    /// edge 0 and point 0.
    fn rearrange(&mut self)
        requires
            old(self).wf(),
        ensures
            final(self).wf(),
            rotated(*old(self), *final(self)),
    {
        if self.corners.len() == 0 {
            return;
        }
        let ghost old_self = *self;
        proof {
            self.lemma_corner_bounds();
        }
        let offset = self.corners[0];
        let mut i: usize = 0;
        let nc = self.corners.len();
        while i < nc
            invariant
                old_self.wf(),
                old_self.corner_list().len() > 0,
                offset == old_self.corner_list()[0],
                nc == old_self.corner_list().len(),
                i <= nc,
                self.edges() == old_self.edges(),
                self.pts() == old_self.pts(),
                self.corner_list().len() == nc,
                forall|k: int| 0 <= k < i ==> #[trigger] self.corner_list()[k] == shifted(old_self.corner_list()[k], offset),
                forall|k: int| i <= k < nc ==> #[trigger] self.corner_list()[k] == old_self.corner_list()[k],
            decreases nc - i,
        {
            let c = self.corners[i];
            proof {
                if i > 0 {
                    old_self.lemma_corners_ordered(0, i as int);
                }
            }
            self.corners.set(i, (c.0 - offset.0, c.1 - offset.1));
            i = i + 1;
        }
        let mut tail_edges = self.edge_segments.split_off(offset.0);
        tail_edges.append(&mut self.edge_segments);
        self.edge_segments = tail_edges;
        proof {
            old_self.lemma_corner_bounds();
        }
        let mut tail_points = self.points.split_off(offset.1);
        tail_points.append(&mut self.points);
        self.points = tail_points;
        proof {
            lemma_rotation_wf(old_self.edges(), old_self.pts(), old_self.corner_list(), self.corner_list());
        }
    }

    /// A contour of one point and no edges.
    fn fresh(origin: P) -> (r: Self)
        ensures
            r.wf(),
            r.edges() == Seq::<EdgeSegment>::empty(),
            r.pts() == seq![origin],
            r.corner_list() == Seq::<(usize, usize)>::empty(),
    {
        let mut points: Vec<P> = Vec::new();
        points.push(origin);
        Contour { edge_segments: Vec::new(), corners: Vec::new(), points }
    }

    /// Append an edge segment together with the points it adds.
    fn add_edge(&mut self, e: EdgeSegment, new_points: Vec<P>)
        requires
            old(self).wf(),
            new_points@.len() == degree(e),
        ensures
            final(self).wf(),
            final(self).edges() == old(self).edges().push(e),
            final(self).pts() == old(self).pts() + new_points@,
            final(self).corner_list() == old(self).corner_list(),
    {
        let ghost old_edges = self.edges();
        let mut new_points = new_points;
        self.edge_segments.push(e);
        self.points.append(&mut new_points);
        proof {
            lemma_edges_push_keeps(old_edges, e, self.corner_list());
        }
    }

    /// Move the start point of the contour.
    fn set_start(&mut self, p: P)
        requires
            old(self).wf(),
        ensures
            final(self).wf(),
            final(self).edges() == old(self).edges(),
            final(self).pts() == old(self).pts().update(0, p),
            final(self).corner_list() == old(self).corner_list(),
    {
        self.points.set(0, p);
    }

    /// The points at the sharp corners, in order.
    pub fn corners(&self) -> (r: Vec<P>)
        where P: Copy,
        requires
            forall|i: int| 0 <= i < self.corner_list().len() ==> (#[trigger] self.corner_list()[i]).1 < self.pts().len(),
        ensures
            r@.len() == self.corner_list().len(),
            forall|i: int| 0 <= i < r@.len() ==> r@[i] == self.pts()[(#[trigger] self.corner_list()[i]).1 as int],
    {
        let mut out: Vec<P> = Vec::new();
        let mut i: usize = 0;
        while i < self.corners.len()
            invariant
                i <= self.corners@.len(),
                forall|k: int| 0 <= k < self.corner_list().len() ==> (#[trigger] self.corner_list()[k]).1 < self.pts().len(),
                out@.len() == i,
                forall|k: int| 0 <= k < i ==> out@[k] == self.pts()[(#[trigger] self.corner_list()[k]).1 as int],
            decreases self.corners@.len() - i,
        {
            let pi = self.corners[i].1;
            assert(self.corner_list()[i as int].1 < self.pts().len());
            out.push(self.points[pi]);
            i = i + 1;
        }
        out
    }
}

} // verus!

verus! {

#[derive(PartialEq, Eq, Structural)]
enum ShapeBuilderState {
    Shape,
    Contour,
}

/// A shape made of contours, with its viewbox.
#[derive(Debug)]
pub struct Shape<P, C> {
    contours: Vec<Contour<P>>,
    viewbox: Box<C>,
}

/// Builds a [`Shape`] contour by contour.
///
/// A contour that is started without `start` begins at `origin`.
pub struct ShapeBuilder<P, C> {
    state: ShapeBuilderState,
    origin: P,
    contours: Vec<Contour<P>>,
    viewbox: Option<Box<C>>,
}

/// Every contour is well formed.
pub open spec fn all_wf<P>(cs: Seq<Contour<P>>) -> bool {
    forall|i: int| 0 <= i < cs.len() ==> (#[trigger] cs[i]).wf()
}

impl<P, C> Shape<P, C> {
    pub closed spec fn contour_list(self) -> Seq<Contour<P>> {
        self.contours@
    }

    pub closed spec fn viewbox_spec(self) -> Box<C> {
        self.viewbox
    }

    pub open spec fn wf(self) -> bool {
        all_wf(self.contour_list())
    }

    /// Returns a ShapeBuilder whose contours begin at `origin` unless started
    /// elsewhere.
    pub fn build(origin: P) -> (r: ShapeBuilder<P, C>)
        ensures
            r.wf(),
            r.contour_list().len() == 0,
            !r.in_contour(),
            r.origin() == origin,
            r.viewbox_spec() is None,
    {
        ShapeBuilder::new(origin)
    }

    /// The contours comprising the shape.
    pub fn contours(&self) -> (r: &Vec<Contour<P>>)
        ensures
            r@ == self.contour_list(),
    {
        &self.contours
    }

    /// The viewbox of the shape.
    pub fn viewbox(&self) -> (r: &Box<C>)
        ensures
            *r == self.viewbox_spec(),
    {
        &self.viewbox
    }
}

impl<P, C> ShapeBuilder<P, C> {
    pub closed spec fn contour_list(self) -> Seq<Contour<P>> {
        self.contours@
    }

    /// Whether a contour is being built.
    pub closed spec fn in_contour(self) -> bool {
        self.state == ShapeBuilderState::Contour
    }

    pub closed spec fn origin(self) -> P {
        self.origin
    }

    pub closed spec fn viewbox_spec(self) -> Option<Box<C>> {
        self.viewbox
    }

    pub open spec fn wf(self) -> bool {
        all_wf(self.contour_list())
    }

    /// A builder inside a contour has that contour to add to; culling every
    /// contour leaves a builder that is inside a contour but has none.
    pub open spec fn ready(self) -> bool {
        self.in_contour() ==> self.contour_list().len() > 0
    }

    pub fn new(origin: P) -> (r: Self)
        ensures
            r.wf(),
            r.contour_list().len() == 0,
            !r.in_contour(),
            r.origin() == origin,
            r.viewbox_spec() is None,
    {
        ShapeBuilder { state: ShapeBuilderState::Shape, origin, contours: Vec::new(), viewbox: None }
    }

    /// Set the viewbox dimensions.
    pub fn viewbox(self, left: C, right: C, top: C, bottom: C) -> (r: Self)
        ensures
            r.viewbox_spec() == Some(Box { left, right, top, bottom }),
            r.contour_list() == self.contour_list(),
            r.in_contour() == self.in_contour(),
            r.origin() == self.origin(),
    {
        let mut b = self;
        b.viewbox = Some(Box { left, right, top, bottom });
        b
    }

    /// The number of contours once the builder is inside a contour: adding
    /// to a builder that is not yet inside one first starts a contour.
    pub open spec fn base_count(self) -> nat {
        if self.in_contour() {
            self.contour_list().len()
        } else {
            self.contour_list().len() + 1
        }
    }

    /// The edge segments of the contour that an addition extends.
    pub open spec fn base_edges(self) -> Seq<EdgeSegment> {
        if self.in_contour() {
            self.contour_list().last().edges()
        } else {
            Seq::empty()
        }
    }

    /// The points of the contour that an addition extends.
    pub open spec fn base_pts(self) -> Seq<P> {
        if self.in_contour() {
            self.contour_list().last().pts()
        } else {
            seq![self.origin()]
        }
    }

    /// The corners of the contour that an addition extends.
    pub open spec fn base_corners(self) -> Seq<(usize, usize)> {
        if self.in_contour() {
            self.contour_list().last().corner_list()
        } else {
            Seq::empty()
        }
    }

    /// `r` is `self` with the contour being built (started first if need
    /// be) now holding `edges` and `pts`.
    pub open spec fn extended_to(self, r: Self, edges: Seq<EdgeSegment>, pts: Seq<P>) -> bool {
        &&& r.in_contour()
        &&& r.origin() == self.origin()
        &&& r.viewbox_spec() == self.viewbox_spec()
        &&& r.contour_list().len() == self.base_count()
        &&& forall|i: int| 0 <= i < self.base_count() - 1 ==> #[trigger] r.contour_list()[i] == self.contour_list()[i]
        &&& r.contour_list().last().edges() == edges
        &&& r.contour_list().last().pts() == pts
        &&& r.contour_list().last().corner_list() == self.base_corners()
    }

    /// The contours built so far.
    pub fn contours(&self) -> (r: &Vec<Contour<P>>)
        ensures
            r@ == self.contour_list(),
    {
        &self.contours
    }

    /// The viewbox, if one was set.
    pub fn viewbox_ref(&self) -> (r: &Option<Box<C>>)
        ensures
            *r == self.viewbox_spec(),
    {
        &self.viewbox
    }

    /// Create a new Contour.
    pub fn contour(self) -> (r: Self)
        where P: Copy,
        requires
            self.wf(),
        ensures
            r.wf(),
            r.in_contour(),
            r.origin() == self.origin(),
            r.viewbox_spec() == self.viewbox_spec(),
            r.contour_list().len() == self.contour_list().len() + 1,
            forall|i: int| 0 <= i < self.contour_list().len() ==> #[trigger] r.contour_list()[i] == self.contour_list()[i],
            r.contour_list().last().edges().len() == 0,
            r.contour_list().last().pts() == seq![self.origin()],
            r.contour_list().last().corner_list().len() == 0,
    {
        let mut b = self;
        b.state = ShapeBuilderState::Contour;
        let c = Contour::fresh(b.origin);
        b.contours.push(c);
        b
    }

    /// The builder inside a contour, starting one if need be, with the
    /// contour being built taken out.
    fn take_current(self) -> (r: (Self, Contour<P>))
        where P: Copy,
        requires
            self.wf(),
            self.ready(),
        ensures
            all_wf(r.0.contour_list()),
            r.0.in_contour(),
            r.0.origin() == self.origin(),
            r.0.viewbox_spec() == self.viewbox_spec(),
            r.0.contour_list().len() == self.base_count() - 1,
            forall|i: int| 0 <= i < self.base_count() - 1 ==> #[trigger] r.0.contour_list()[i] == self.contour_list()[i],
            r.1.wf(),
            r.1.edges() == self.base_edges(),
            r.1.pts() == self.base_pts(),
            r.1.corner_list() == self.base_corners(),
    {
        let mut b = if self.state == ShapeBuilderState::Shape {
            self.contour()
        } else {
            self
        };
        let ghost before = b.contours@;
        let c = match b.contours.pop() {
            Some(c) => c,
            None => vstd::pervasive::unreached(),
        };
        proof {
            assert(c == before.last());
            assert(b.contours@ == before.drop_last());
        }
        (b, c)
    }

    /// Put the contour being built back.
    fn put_current(self, c: Contour<P>) -> (r: Self)
        requires
            all_wf(self.contour_list()),
            self.in_contour(),
            c.wf(),
        ensures
            r.wf(),
            r.in_contour(),
            r.origin() == self.origin(),
            r.viewbox_spec() == self.viewbox_spec(),
            r.contour_list() == self.contour_list().push(c),
    {
        let mut b = self;
        b.contours.push(c);
        b
    }

    /// Set the starting coordinates of the current Contour.
    pub fn start(self, p: P) -> (r: Self)
        where P: Copy,
        requires
            self.wf(),
            self.ready(),
        ensures
            r.wf(),
            self.extended_to(r, self.base_edges(), self.base_pts().update(0, p)),
    {
        let (b, mut c) = self.take_current();
        c.set_start(p);
        b.put_current(c)
    }

    /// Add a Line to the current Contour.
    pub fn line(self, p: P) -> (r: Self)
        where P: Copy,
        requires
            self.wf(),
            self.ready(),
        ensures
            r.wf(),
            self.extended_to(r, self.base_edges().push(EdgeSegment::Line), self.base_pts().push(p)),
    {
        let ghost base = self.base_pts();
        let (b, mut c) = self.take_current();
        let mut added: Vec<P> = Vec::new();
        added.push(p);
        c.add_edge(EdgeSegment::Line, added);
        proof {
            assert(base.push(p) == base + seq![p]);
        }
        b.put_current(c)
    }

    /// Add a Quadratic bezier to the current Contour.
    pub fn quadratic(self, p1: P, p: P) -> (r: Self)
        where P: Copy,
        requires
            self.wf(),
            self.ready(),
        ensures
            r.wf(),
            self.extended_to(
                r,
                self.base_edges().push(EdgeSegment::Quadratic),
                self.base_pts() + seq![p1, p],
            ),
    {
        let (b, mut c) = self.take_current();
        c.add_edge(EdgeSegment::Quadratic, vec![p1, p]);
        b.put_current(c)
    }

    /// Add a Cubic bezier to the current Contour.
    pub fn cubic(self, p1: P, p2: P, p: P) -> (r: Self)
        where P: Copy,
        requires
            self.wf(),
            self.ready(),
        ensures
            r.wf(),
            self.extended_to(
                r,
                self.base_edges().push(EdgeSegment::Cubic),
                self.base_pts() + seq![p1, p2, p],
            ),
    {
        let (b, mut c) = self.take_current();
        c.add_edge(EdgeSegment::Cubic, vec![p1, p2, p]);
        b.put_current(c)
    }

    /// Close every contour whose flag is set with a line back to its first
    /// point; `needs_closing[i]` tells whether contour `i` ends away from
    /// where it starts.
    pub fn ensure_closed_contours(&mut self, needs_closing: &Vec<bool>)
        where P: Copy,
        requires
            old(self).wf(),
            needs_closing@.len() == old(self).contour_list().len(),
        ensures
            final(self).wf(),
            final(self).in_contour() == old(self).in_contour(),
            final(self).origin() == old(self).origin(),
            final(self).viewbox_spec() == old(self).viewbox_spec(),
            final(self).contour_list().len() == old(self).contour_list().len(),
            forall|i: int| 0 <= i < old(self).contour_list().len() ==> {
                let (o, n) = (old(self).contour_list()[i], #[trigger] final(self).contour_list()[i]);
                if needs_closing@[i] {
                    &&& n.edges() == o.edges().push(EdgeSegment::Line)
                    &&& n.pts() == o.pts().push(o.pts()[0])
                    &&& n.corner_list() == o.corner_list()
                } else {
                    n == o
                }
            },
    {
        let ghost old_list = self.contours@;
        let n = self.contours.len();
        let mut done: Vec<Contour<P>> = Vec::new();
        let mut i: usize = 0;
        while i < n
            invariant
                n == old_list.len(),
                needs_closing@.len() == n,
                all_wf(old_list),
                i <= n,
                self.contours@ == old_list.subrange(i as int, n as int),
                self.state == old(self).state,
                self.origin == old(self).origin,
                self.viewbox == old(self).viewbox,
                done@.len() == i,
                all_wf(done@),
                forall|k: int| 0 <= k < i ==> {
                    let (o, c) = (old_list[k], #[trigger] done@[k]);
                    if needs_closing@[k] {
                        &&& c.edges() == o.edges().push(EdgeSegment::Line)
                        &&& c.pts() == o.pts().push(o.pts()[0])
                        &&& c.corner_list() == o.corner_list()
                    } else {
                        c == o
                    }
                },
            decreases n - i,
        {
            let mut c = self.contours.remove(0);
            assert(c == old_list[i as int]);
            assert(c.wf());
            if needs_closing[i] {
                c.close();
            }
            done.push(c);
            proof {
                assert(self.contours@ =~= old_list.subrange(i + 1, n as int));
            }
            i = i + 1;
        }
        self.contours = done;
    }

    /// Remove the contours with fewer than four points, which enclose no
    /// area; the others keep their order.
    pub fn cull_degenerate_contours(&mut self)
        requires
            old(self).wf(),
        ensures
            final(self).wf(),
            final(self).in_contour() == old(self).in_contour(),
            final(self).origin() == old(self).origin(),
            final(self).viewbox_spec() == old(self).viewbox_spec(),
            final(self).contour_list() == with_area(old(self).contour_list()),
            forall|i: int| 0 <= i < final(self).contour_list().len() ==> (#[trigger] final(self).contour_list()[i]).pts().len() >= 4,
    {
        let ghost old_list = self.contours@;
        let n = self.contours.len();
        let mut kept: Vec<Contour<P>> = Vec::new();
        let mut i: usize = 0;
        proof {
            reveal(Seq::filter);
            assert(old_list.take(0) == Seq::<Contour<P>>::empty());
        }
        while i < n
            invariant
                n == old_list.len(),
                all_wf(old_list),
                i <= n,
                self.contours@ == old_list.subrange(i as int, n as int),
                self.state == old(self).state,
                self.origin == old(self).origin,
                self.viewbox == old(self).viewbox,
                kept@ == with_area(old_list.take(i as int)),
                all_wf(kept@),
                forall|j: int| 0 <= j < kept@.len() ==> (#[trigger] kept@[j]).pts().len() >= 4,
            decreases n - i,
        {
            let c = self.contours.remove(0);
            assert(c == old_list[i as int]);
            proof {
                lemma_with_area_push(old_list.take(i as int), c);
                assert(old_list.take(i as int).push(c) == old_list.take(i + 1));
                assert(self.contours@ =~= old_list.subrange(i + 1, n as int));
            }
            if c.points.len() >= 4 {
                kept.push(c);
            }
            i = i + 1;
        }
        proof {
            assert(old_list.take(n as int) == old_list);
        }
        self.contours = kept;
    }

    /// For each contour and each of its edge segments, the indices of the
    /// points before, at and after the segment's start; whether these three
    /// points make a sharp corner decides the corners of the contour.
    pub fn corner_candidates(&self) -> (r: Vec<Vec<(usize, usize, usize)>>)
        requires
            self.wf(),
            forall|i: int| 0 <= i < self.contour_list().len() ==> (#[trigger] self.contour_list()[i]).pts().len() >= 2,
        ensures
            r@.len() == self.contour_list().len(),
            forall|i: int| 0 <= i < r@.len() ==> {
                let c = self.contour_list()[i];
                &&& (#[trigger] r@[i])@.len() == c.edges().len()
                &&& forall|e: int| 0 <= e < r@[i]@.len() ==> #[trigger] r@[i]@[e] == candidate(c.edges(), c.pts().len(), e)
            },
    {
        let n = self.contours.len();
        let mut out: Vec<Vec<(usize, usize, usize)>> = Vec::new();
        let mut i: usize = 0;
        while i < n
            invariant
                self.wf(),
                n == self.contour_list().len(),
                forall|k: int| 0 <= k < n ==> (#[trigger] self.contour_list()[k]).pts().len() >= 2,
                i <= n,
                out@.len() == i,
                forall|k: int| 0 <= k < i ==> {
                    let c = self.contour_list()[k];
                    &&& (#[trigger] out@[k])@.len() == c.edges().len()
                    &&& forall|e: int| 0 <= e < out@[k]@.len() ==> #[trigger] out@[k]@[e] == candidate(c.edges(), c.pts().len(), e)
                },
            decreases n - i,
        {
            assert(self.contour_list()[i as int].wf());
            assert(self.contour_list()[i as int].pts().len() >= 2);
            let v = self.contours[i].corner_candidates();
            out.push(v);
            i = i + 1;
        }
        out
    }

    /// Record the sharp corners of every contour: `flags[i][e]` tells
    /// whether edge `e` of contour `i` starts at a sharp corner.
    pub fn identify_corners(&mut self, flags: &Vec<Vec<bool>>)
        requires
            old(self).wf(),
            flags@.len() == old(self).contour_list().len(),
            forall|i: int| 0 <= i < flags@.len() ==> {
                let c = #[trigger] old(self).contour_list()[i];
                &&& flags@[i]@.len() == c.edges().len()
                &&& c.corner_list().len() == 0
                &&& c.pts().len() >= 2
            },
        ensures
            final(self).wf(),
            final(self).in_contour() == old(self).in_contour(),
            final(self).origin() == old(self).origin(),
            final(self).viewbox_spec() == old(self).viewbox_spec(),
            final(self).contour_list().len() == old(self).contour_list().len(),
            forall|i: int| 0 <= i < old(self).contour_list().len() ==> {
                let (o, c) = (old(self).contour_list()[i], #[trigger] final(self).contour_list()[i]);
                &&& c.edges() == o.edges()
                &&& c.pts() == o.pts()
                &&& c.corner_list() == flagged(o.edges(), flags@[i]@, flags@[i]@.len() as int)
            },
    {
        let ghost old_list = self.contours@;
        let n = self.contours.len();
        let mut done: Vec<Contour<P>> = Vec::new();
        let mut i: usize = 0;
        while i < n
            invariant
                n == old_list.len(),
                flags@.len() == n,
                all_wf(old_list),
                forall|k: int| 0 <= k < n ==> {
                    let c = #[trigger] old_list[k];
                    &&& flags@[k]@.len() == c.edges().len()
                    &&& c.corner_list().len() == 0
                },
                i <= n,
                self.contours@ == old_list.subrange(i as int, n as int),
                self.state == old(self).state,
                self.origin == old(self).origin,
                self.viewbox == old(self).viewbox,
                done@.len() == i,
                all_wf(done@),
                forall|k: int| 0 <= k < i ==> {
                    let (o, c) = (old_list[k], #[trigger] done@[k]);
                    &&& c.edges() == o.edges()
                    &&& c.pts() == o.pts()
                    &&& c.corner_list() == flagged(o.edges(), flags@[k]@, flags@[k]@.len() as int)
                },
            decreases n - i,
        {
            let mut c = self.contours.remove(0);
            assert(c == old_list[i as int]);
            assert(c.wf());
            assert(flags@[i as int]@.len() == c.edges().len());
            c.identify_corners(&flags[i]);
            done.push(c);
            proof {
                assert(self.contours@ =~= old_list.subrange(i + 1, n as int));
            }
            i = i + 1;
        }
        self.contours = done;
    }

    /// Rotate every contour that has corners so that its first corner is at
    /// edge 0 and point 0.
    pub fn rearrange(&mut self)
        requires
            old(self).wf(),
        ensures
            final(self).wf(),
            final(self).in_contour() == old(self).in_contour(),
            final(self).origin() == old(self).origin(),
            final(self).viewbox_spec() == old(self).viewbox_spec(),
            final(self).contour_list().len() == old(self).contour_list().len(),
            forall|i: int| 0 <= i < old(self).contour_list().len() ==> rotated(
                old(self).contour_list()[i],
                #[trigger] final(self).contour_list()[i],
            ),
            forall|i: int| 0 <= i < old(self).contour_list().len() ==> starts_at_corner(
                #[trigger] final(self).contour_list()[i],
            ),
    {
        let ghost old_list = self.contours@;
        let n = self.contours.len();
        let mut done: Vec<Contour<P>> = Vec::new();
        let mut i: usize = 0;
        while i < n
            invariant
                n == old_list.len(),
                all_wf(old_list),
                i <= n,
                self.contours@ == old_list.subrange(i as int, n as int),
                self.state == old(self).state,
                self.origin == old(self).origin,
                self.viewbox == old(self).viewbox,
                done@.len() == i,
                all_wf(done@),
                forall|k: int| 0 <= k < i ==> rotated(old_list[k], #[trigger] done@[k]),
                forall|k: int| 0 <= k < i ==> starts_at_corner(#[trigger] done@[k]),
            decreases n - i,
        {
            let mut c = self.contours.remove(0);
            assert(c == old_list[i as int]);
            assert(c.wf());
            c.rearrange();
            done.push(c);
            proof {
                assert(self.contours@ =~= old_list.subrange(i + 1, n as int));
            }
            i = i + 1;
        }
        self.contours = done;
    }

    /// The shape, with the viewbox that was set or else `computed`.
    pub fn finish(self, computed: Box<C>) -> (r: Shape<P, C>)
        requires
            self.wf(),
        ensures
            r.wf(),
            r.contour_list() == self.contour_list(),
            r.viewbox_spec() == (match self.viewbox_spec() {
                Some(v) => v,
                None => computed,
            }),
    {
        let viewbox = match self.viewbox {
            Some(v) => v,
            None => computed,
        };
        Shape { contours: self.contours, viewbox }
    }
}

} // verus!
