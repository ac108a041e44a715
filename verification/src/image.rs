//! The pixel buffer of an RGB image, eight bits per channel.

use vstd::prelude::*;

verus! {

/// RGB pixels in rows, three bytes per pixel.
pub struct ImageData {
    data: Vec<u8>,
    width: usize,
    height: usize,
}

/// The index of the first byte of pixel `(x, y)` in an image `width` wide.
pub open spec fn pixel_index(x: int, y: int, width: int) -> int {
    (y * width + x) * 3
}

impl ImageData {
    /// The buffer holds three bytes for every pixel.
    pub closed spec fn wf(self) -> bool {
        self.data@.len() == self.width * self.height * 3
    }

    pub closed spec fn bytes(self) -> Seq<u8> {
        self.data@
    }

    pub closed spec fn spec_width(self) -> nat {
        self.width as nat
    }

    pub closed spec fn spec_height(self) -> nat {
        self.height as nat
    }

    /// A black image of `size[0]` by `size[1]` pixels.
    pub fn new(size: [usize; 2]) -> (r: Self)
        requires
            size[0] * size[1] * 3 <= usize::MAX,
        ensures
            r.wf(),
            r.spec_width() == size[0],
            r.spec_height() == size[1],
            r.bytes() == Seq::new((size[0] * size[1] * 3) as nat, |i: int| 0u8),
    {
        let data_length = size[0] * size[1] * 3;
        let mut data: Vec<u8> = Vec::new();
        let mut i: usize = 0;
        while i < data_length
            invariant
                i <= data_length,
                data@ == Seq::new(i as nat, |k: int| 0u8),
            decreases data_length - i,
        {
            data.push(0);
            i = i + 1;
        }
        ImageData { data, width: size[0], height: size[1] }
    }

    pub fn width(&self) -> (r: usize)
        ensures
            r == self.spec_width(),
    {
        self.width
    }

    pub fn height(&self) -> (r: usize)
        ensures
            r == self.spec_height(),
    {
        self.height
    }

    /// The bytes of the image, row by row.
    pub fn data(&self) -> (r: &Vec<u8>)
        requires
            self.wf(),
        ensures
            r@ == self.bytes(),
            r@.len() == self.spec_width() * self.spec_height() * 3,
    {
        &self.data
    }

    /// Set the colour of pixel `(coords[0], coords[1])`.
    pub fn set_pixel(&mut self, coords: [usize; 2], val: [u8; 3])
        requires
            old(self).wf(),
            coords[0] < old(self).spec_width(),
            coords[1] < old(self).spec_height(),
        ensures
            final(self).wf(),
            final(self).spec_width() == old(self).spec_width(),
            final(self).spec_height() == old(self).spec_height(),
            ({
                let loc = pixel_index(coords[0] as int, coords[1] as int, old(self).spec_width() as int);
                final(self).bytes() == old(self).bytes().update(loc, val[0]).update(loc + 1, val[1]).update(
                    loc + 2,
                    val[2],
                )
            }),
    {
        let w = self.width;
        let h = self.height;
        let x = coords[0];
        let y = coords[1];
        let len = self.data.len();
        assert(y * w + x < w * h && (y * w + x) * 3 + 2 < w * h * 3) by (nonlinear_arith)
            requires
                x < w,
                y < h,
        ;
        assert(y * w <= y * w + x);
        let location = (y * w + x) * 3;
        self.data.set(location, val[0]);
        self.data.set(location + 1, val[1]);
        self.data.set(location + 2, val[2]);
    }
}

} // verus!
