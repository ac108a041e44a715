//! A contour whose splines are cut at its corners, with the channels and
//! corner rays of each spline computed lazily.

use vstd::prelude::*;
use crate::channels::Channels;
use crate::memo::Memo;

verus! {

/// A contour of segments `S`, with the corner indices, corner rays `R` and
/// channels of its splines, each filled in once known.
pub struct Contour<S, R> {
    pub segments: Vec<S>,
    pub corners: Memo<Vec<usize>>,
    pub corner_rays: Memo<Vec<R>>,
    pub channels: Memo<Vec<Channels>>,
}

/// A spline: a run of segments with its channels and corner rays.
#[derive(Debug, PartialEq)]
pub struct Spline<'a, S, R> {
    pub segments: &'a [S],
    pub channels: Channels,
    pub corner_rays: &'a R,
}

/// `s` without consecutive repeats.
pub open spec fn dedup(s: Seq<usize>) -> Seq<usize>
    decreases s.len(),
{
    if s.len() <= 1 {
        s
    } else if s.last() == s[s.len() - 2] {
        dedup(s.drop_last())
    } else {
        dedup(s.drop_last()).push(s.last())
    }
}

/// Removing repeats keeps the last element.
pub proof fn lemma_dedup_last(s: Seq<usize>)
    requires
        s.len() > 0,
    ensures
        dedup(s).len() > 0,
        dedup(s).last() == s.last(),
        dedup(s).len() <= s.len(),
    decreases s.len(),
{
    if s.len() > 1 {
        lemma_dedup_last(s.drop_last());
    }
}

/// The boundaries of the splines: 0, the corners, and the number of
/// segments, without repeats.
pub open spec fn spline_boundaries(corners: Seq<usize>, len: usize) -> Seq<usize> {
    dedup(seq![0usize] + corners + seq![len])
}

/// The corners are in order and none lies past the last segment.
pub open spec fn corners_in_order(corners: Seq<usize>, len: nat) -> bool {
    &&& forall|i: int, j: int| 0 <= i <= j < corners.len() ==> corners[i] <= corners[j]
    &&& forall|i: int| 0 <= i < corners.len() ==> corners[i] <= len
}

impl<S, R> Contour<S, R> {
    /// The splines between consecutive boundaries (see
    /// [`spline_boundaries`]), paired with the channels and corner rays in
    /// order, as far as all three lists go. A contour without corners is one
    /// spline.
    pub fn splines(&self) -> (r: Vec<Spline<'_, S, R>>)
        requires
            self.corners is Value,
            self.corner_rays is Value,
            self.channels is Value,
            corners_in_order(self.corners->Value_0@, self.segments@.len()),
        ensures
            ({
                let b = spline_boundaries(self.corners->Value_0@, self.segments@.len() as usize);
                let n = vstd::math::min(
                    vstd::math::min(b.len() - 1, self.channels->Value_0@.len() as int),
                    self.corner_rays->Value_0@.len() as int,
                );
                &&& r@.len() == n
                &&& forall|i: int| 0 <= i < n ==> {
                    &&& (#[trigger] r@[i]).segments@ == self.segments@.subrange(b[i] as int, b[i + 1] as int)
                    &&& r@[i].channels == self.channels->Value_0@[i]
                    &&& *r@[i].corner_rays == self.corner_rays->Value_0@[i]
                }
            }),
    {
        let corners = self.corners.unwrap();
        let channels = self.channels.unwrap();
        let rays = self.corner_rays.unwrap();
        let len = self.segments.len();
        let ghost full = seq![0usize] + corners@ + seq![len];
        // the boundaries, without repeats
        let mut b: Vec<usize> = Vec::new();
        b.push(0);
        let mut j: usize = 0;
        let nc = corners.len();
        proof {
            assert(full.take(1) == seq![0usize]);
        }
        while j < nc
            invariant
                full == seq![0usize] + corners@ + seq![len],
                corners_in_order(corners@, len as nat),
                nc == corners@.len(),
                j <= nc,
                b@ == dedup(full.take(j + 1)),
                b@.len() > 0,
                b@.last() == full[j as int],
                forall|x: int, y: int| 0 <= x < y < b@.len() ==> b@[x] < b@[y],
                forall|x: int| 0 <= x < b@.len() ==> b@[x] <= len,
            decreases nc - j,
        {
            let c = corners[j];
            let last = b[b.len() - 1];
            proof {
                let t = full.take(j + 2);
                assert(t.drop_last() == full.take(j + 1));
                assert(t.last() == c);
                assert(t[t.len() - 2] == full[j as int]);
                if j > 0 {
                    assert(full[j as int] == corners@[j - 1]);
                }
            }
            if c != last {
                b.push(c);
            }
            j = j + 1;
        }
        let last = b[b.len() - 1];
        proof {
            let t = full.take(nc + 2);
            assert(t == full);
            assert(t.drop_last() == full.take(nc + 1));
            assert(t[t.len() - 2] == full[nc as int]);
            if nc > 0 {
                assert(full[nc as int] == corners@[nc - 1]);
            }
        }
        if len != last {
            b.push(len);
        }
        let mut out: Vec<Spline<'_, S, R>> = Vec::new();
        let nb = b.len();
        let mut n = nb - 1;
        if channels.len() < n {
            n = channels.len();
        }
        if rays.len() < n {
            n = rays.len();
        }
        let segs = self.segments.as_slice();
        let mut i: usize = 0;
        while i < n
            invariant
                n <= nb - 1,
                nb == b@.len(),
                n <= channels@.len(),
                n <= rays@.len(),
                segs@ == self.segments@,
                len == segs@.len(),
                forall|x: int, y: int| 0 <= x < y < b@.len() ==> b@[x] < b@[y],
                forall|x: int| 0 <= x < b@.len() ==> b@[x] <= len,
                i <= n,
                out@.len() == i,
                forall|k: int| 0 <= k < i ==> {
                    &&& (#[trigger] out@[k]).segments@ == self.segments@.subrange(b@[k] as int, b@[k + 1] as int)
                    &&& out@[k].channels == channels@[k]
                    &&& *out@[k].corner_rays == rays@[k]
                },
            decreases n - i,
        {
            let s = vstd::slice::slice_subrange(segs, b[i], b[i + 1]);
            out.push(Spline { segments: s, channels: channels[i], corner_rays: &rays[i] });
            i = i + 1;
        }
        out
    }
}

} // verus!
