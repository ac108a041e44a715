//! Edge colouring of a shape: every spline of every contour gets a colour
//! such that neighbouring splines share exactly one channel.

use vstd::prelude::*;
use crate::edge_shape::{Contour, EdgeSegment, Shape, spline_bounds};
use crate::spline_colour::{SplineColour, magenta, white, yellow};

verus! {

/// A shape whose splines are coloured.
#[derive(Debug)]
pub struct ColouredShape<P, C> {
    shape: Shape<P, C>,
    colours: Vec<Vec<SplineColour>>,
    /// Rays leading out of the corners of each contour.
    pub corner_rays: Vec<Vec<P>>,
}

/// A contour of a coloured shape, with the colours of its splines.
#[derive(Debug)]
pub struct ColouredContour<'a, P> {
    contour: &'a Contour<P>,
    colours: &'a Vec<SplineColour>,
}

/// A spline of a coloured contour: its edges and points, and its colour.
#[derive(Debug)]
pub struct ColouredSpline<'a, P> {
    pub spline: (&'a [EdgeSegment], &'a [P]),
    pub colour: &'a SplineColour,
}

/// The channel bits of spline `i` of a contour with `k` corners: white for a
/// fully smooth contour, otherwise magenta for the first spline and then
/// yellow and cyan in turn.
pub open spec fn colour_bits_at(k: nat, i: int) -> u8 {
    if k == 0 {
        0b111
    } else if i == 0 {
        0b101
    } else if i % 2 == 1 {
        0b110
    } else {
        0b011
    }
}

/// The number of splines, and so of colours, of a contour with `k` corners.
pub open spec fn spline_count(k: nat) -> nat {
    if k == 0 {
        1
    } else {
        k
    }
}

/// The colours follow [`colour_bits_at`] for a contour with `k` corners.
pub open spec fn coloured_as(colours: Seq<SplineColour>, k: nat) -> bool {
    &&& colours.len() == spline_count(k)
    &&& forall|i: int| 0 <= i < colours.len() ==> (#[trigger] colours[i]).bits() == colour_bits_at(k, i)
}

/// Around a contour with at least two corners, each spline shares exactly
/// one channel with the next one (the last with the first), and every
/// colour holds at least two channels.
pub proof fn lemma_neighbours_share_one_channel(k: nat, i: int)
    requires
        k >= 2,
        0 <= i < k,
    ensures
        ({
            let a = colour_bits_at(k, i);
            let b = colour_bits_at(k, (i + 1) % (k as int));
            let shared = a & b;
            &&& shared == 1 || shared == 2 || shared == 4
            &&& a != b
            &&& a == 0b101 || a == 0b110 || a == 0b011
        }),
{
    let a = colour_bits_at(k, i);
    let b = colour_bits_at(k, (i + 1) % (k as int));
    assert(a == 5 || a == 6 || a == 3);
    assert(b == 5 || b == 6 || b == 3);
    if i + 1 < k {
        let ki = k as int;
        assert((i + 1) % ki == i + 1) by (nonlinear_arith)
            requires
                0 <= i + 1 < ki,
        ;
        if i == 0 {
            assert(a == 5 && b == 6);
        } else if i % 2 == 1 {
            assert(a == 6 && b == 3);
        } else {
            assert(a == 3 && b == 6);
        }
    } else {
        let ki = k as int;
        assert((i + 1) % ki == 0) by (nonlinear_arith)
            requires
                i + 1 == ki,
                ki > 0,
        ;
        assert(b == 5);
        assert(a != 5);
    }
    assert(5u8 & 6u8 == 4u8 && 6u8 & 3u8 == 2u8 && 3u8 & 6u8 == 2u8 && 6u8 & 5u8 == 4u8 && 3u8 & 5u8 == 1u8)
        by (bit_vector);
}

/// Colour the splines of every contour: a fully smooth contour is white;
/// otherwise the first spline is magenta and the others alternate between
/// yellow and cyan, starting with yellow.
pub fn colour_shape<P, C>(shape: Shape<P, C>) -> (r: ColouredShape<P, C>)
    requires
        shape.wf(),
        forall|i: int| 0 <= i < shape.contour_list().len() ==> (#[trigger] shape.contour_list()[i]).corner_list().len() != 1,
    ensures
        r.shape_spec() == shape,
        r.colour_list().len() == shape.contour_list().len(),
        forall|i: int| 0 <= i < r.colour_list().len() ==> coloured_as(
            (#[trigger] r.colour_list()[i])@,
            shape.contour_list()[i].corner_list().len(),
        ),
        r.corner_ray_list().len() == 0,
{
    let mut shape_colours: Vec<Vec<SplineColour>> = Vec::new();
    let n = shape.contours().len();
    let mut i: usize = 0;
    while i < n
        invariant
            shape.wf(),
            forall|j: int| 0 <= j < shape.contour_list().len() ==> (#[trigger] shape.contour_list()[j]).corner_list().len() != 1,
            n == shape.contour_list().len(),
            i <= n,
            shape_colours@.len() == i,
            forall|j: int| 0 <= j < i ==> coloured_as(
                (#[trigger] shape_colours@[j])@,
                shape.contour_list()[j].corner_list().len(),
            ),
        decreases n - i,
    {
        let contour = &shape.contours()[i];
        assert(contour.wf());
        let k = contour.corner_indices().len();
        let mut colours: Vec<SplineColour> = Vec::new();
        if k == 0 {
            colours.push(white());
        } else {
            colours.push(magenta());
            let mut current = yellow();
            let splines = contour.splines();
            let ns = splines.len();
            let mut j: usize = 1;
            while j < ns
                invariant
                    ns == k,
                    k >= 2,
                    1 <= j <= ns,
                    colours@.len() == j,
                    current.bits() == colour_bits_at(k as nat, j as int),
                    forall|m: int| 0 <= m < j ==> (#[trigger] colours@[m]).bits() == colour_bits_at(k as nat, m),
                decreases ns - j,
            {
                colours.push(current);
                let ghost before = current.bits();
                current.bitxor_assign(magenta());
                proof {
                    assert(6u8 ^ 5u8 == 3u8 && 3u8 ^ 5u8 == 6u8) by (bit_vector);
                }
                j = j + 1;
            }
        }
        shape_colours.push(colours);
        i = i + 1;
    }
    ColouredShape { shape, colours: shape_colours, corner_rays: Vec::new() }
}

impl<P, C> ColouredShape<P, C> {
    pub closed spec fn shape_spec(self) -> Shape<P, C> {
        self.shape
    }

    pub closed spec fn corner_ray_list(self) -> Seq<Vec<P>> {
        self.corner_rays@
    }

    pub closed spec fn colour_list(self) -> Seq<Vec<SplineColour>> {
        self.colours@
    }

    /// The underlying shape.
    pub fn shape(&self) -> (r: &Shape<P, C>)
        ensures
            *r == self.shape_spec(),
    {
        &self.shape
    }

    /// The colours of the splines of each contour.
    pub fn colours(&self) -> (r: &Vec<Vec<SplineColour>>)
        ensures
            r@ == self.colour_list(),
    {
        &self.colours
    }

    /// Each contour paired with the colours of its splines, as far as both
    /// lists go.
    pub fn contours(&self) -> (r: Vec<ColouredContour<'_, P>>)
        ensures
            r@.len() == vstd::math::min(
                self.shape_spec().contour_list().len() as int,
                self.colour_list().len() as int,
            ),
            forall|i: int| 0 <= i < r@.len() ==> {
                &&& *(#[trigger] r@[i]).contour_spec() == self.shape_spec().contour_list()[i]
                &&& *r@[i].colours_spec() == self.colour_list()[i]
            },
    {
        let cs = self.shape.contours();
        let n = if cs.len() < self.colours.len() {
            cs.len()
        } else {
            self.colours.len()
        };
        let mut out: Vec<ColouredContour<'_, P>> = Vec::new();
        let mut i: usize = 0;
        while i < n
            invariant
                cs@ == self.shape_spec().contour_list(),
                n <= cs@.len(),
                n <= self.colour_list().len(),
                i <= n,
                out@.len() == i,
                forall|j: int| 0 <= j < i ==> {
                    &&& *(#[trigger] out@[j]).contour_spec() == self.shape_spec().contour_list()[j]
                    &&& *out@[j].colours_spec() == self.colour_list()[j]
                },
            decreases n - i,
        {
            out.push(ColouredContour { contour: &cs[i], colours: &self.colours[i] });
            i = i + 1;
        }
        out
    }
}

impl<'a, P> ColouredContour<'a, P> {
    pub closed spec fn contour_spec(self) -> &'a Contour<P> {
        self.contour
    }

    pub closed spec fn colours_spec(self) -> &'a Vec<SplineColour> {
        self.colours
    }

    /// Each spline paired with its colour, as far as both lists go.
    pub fn splines(&self) -> (r: Vec<ColouredSpline<'a, P>>)
        requires
            self.contour_spec().wf(),
        ensures
            r@.len() == vstd::math::min(
                spline_count(self.contour_spec().corner_list().len()) as int,
                self.colours_spec()@.len() as int,
            ),
            forall|i: int| 0 <= i < r@.len() ==> {
                &&& spline_is(*self.contour_spec(), i, (#[trigger] r@[i]).spline)
                &&& *r@[i].colour == self.colours_spec()@[i]
            },
    {
        let splines = self.contour.splines();
        let n = if splines.len() < self.colours.len() {
            splines.len()
        } else {
            self.colours.len()
        };
        let mut out: Vec<ColouredSpline<'a, P>> = Vec::new();
        let mut i: usize = 0;
        while i < n
            invariant
                n <= splines@.len(),
                n <= self.colours_spec()@.len(),
                splines@.len() == spline_count(self.contour_spec().corner_list().len()),
                forall|j: int| 0 <= j < splines@.len() ==> spline_is(*self.contour_spec(), j, #[trigger] splines@[j]),
                i <= n,
                out@.len() == i,
                forall|j: int| 0 <= j < i ==> {
                    &&& spline_is(*self.contour_spec(), j, (#[trigger] out@[j]).spline)
                    &&& *out@[j].colour == self.colours_spec()@[j]
                },
            decreases n - i,
        {
            out.push(ColouredSpline { spline: splines[i], colour: &self.colours[i] });
            i = i + 1;
        }
        out
    }

    /// The spline at `index` with its colour, if there is both.
    pub fn get_spline(&self, index: usize) -> (r: Option<ColouredSpline<'a, P>>)
        requires
            self.contour_spec().wf(),
        ensures
            r is Some <==> (index < spline_count(self.contour_spec().corner_list().len())
                && index < self.colours_spec()@.len()),
            r matches Some(s) ==> spline_is(*self.contour_spec(), index as int, s.spline)
                && *s.colour == self.colours_spec()@[index as int],
    {
        let splines = self.contour.splines();
        if index < splines.len() && index < self.colours.len() {
            Some(ColouredSpline { spline: splines[index], colour: &self.colours[index] })
        } else {
            None
        }
    }
}

/// `s` is spline `i` of contour `c` as [`Contour::splines`] gives it.
pub open spec fn spline_is<P>(c: Contour<P>, i: int, s: (&[EdgeSegment], &[P])) -> bool {
    if c.corner_list().len() == 0 {
        i == 0 && s.0@ == c.edges() && s.1@ == c.pts()
    } else {
        let (es, ee, ps, pe) = spline_bounds(c.corner_list(), i, c.edges().len(), c.pts().len());
        &&& s.0@ == c.edges().subrange(es, ee)
        &&& s.1@ == c.pts().subrange(ps, pe)
    }
}

} // verus!
