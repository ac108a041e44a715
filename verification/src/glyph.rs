//! Glyphs of a font prepared for multi-channel signed distance rendering,
//! and the clean-up of the channel values of each rendered pixel.

use vstd::prelude::*;
use ab_glyph::{Glyph, Outline, PxScaleFactor, Rect};

verus! {

#[verifier::external_type_specification]
#[verifier::external_body]
pub struct ExGlyph(Glyph);

#[verifier::external_type_specification]
#[verifier::external_body]
pub struct ExOutline(Outline);

#[verifier::external_type_specification]
#[verifier::external_body]
pub struct ExRect(Rect);

#[verifier::external_type_specification]
#[verifier::external_body]
pub struct ExPxScaleFactor(PxScaleFactor);

/// `ab_glyph::Outline::px_bounds` at the glyph's position: the whole-pixel
/// bounding box of the outline scaled by `scale_factor` and moved to the
/// glyph's position. The box is computed in floating point, where a NaN
/// result need not be the same from one call to the next, so nothing is
/// claimed of it here.
#[verifier::external_body]
fn outline_px_bounds(outline: &Outline, scale_factor: PxScaleFactor, glyph: &Glyph) -> (r: Rect) {
    outline.px_bounds(scale_factor, glyph.position)
}

/// A glyph with its outline, scale and pixel bounds.
pub struct RsdfGlyph {
    glyph: Glyph,
    px_bounds: Rect,
    scale_factor: PxScaleFactor,
    outline: Outline,
}

impl RsdfGlyph {
    pub closed spec fn glyph_spec(self) -> Glyph {
        self.glyph
    }

    pub closed spec fn outline_spec(self) -> Outline {
        self.outline
    }

    pub closed spec fn scale_factor_spec(self) -> PxScaleFactor {
        self.scale_factor
    }

    pub closed spec fn px_bounds_spec(self) -> Rect {
        self.px_bounds
    }

    /// Construct an `RsdfGlyph` from the source `Glyph`, its outline and the
    /// scale factor; the pixel bounds are those `ab_glyph` computes for the
    /// outline at the glyph's position.
    pub fn new(glyph: Glyph, outline: Outline, scale_factor: PxScaleFactor) -> (r: Self)
        ensures
            r.glyph_spec() == glyph,
            r.outline_spec() == outline,
            r.scale_factor_spec() == scale_factor,
    {
        let px_bounds = outline_px_bounds(&outline, scale_factor, &glyph);
        Self::with_px_bounds(glyph, outline, scale_factor, px_bounds)
    }

    /// An `RsdfGlyph` holding the given parts and pixel bounds.
    pub fn with_px_bounds(glyph: Glyph, outline: Outline, scale_factor: PxScaleFactor, px_bounds: Rect) -> (r: Self)
        ensures
            r.glyph_spec() == glyph,
            r.outline_spec() == outline,
            r.scale_factor_spec() == scale_factor,
            r.px_bounds_spec() == px_bounds,
    {
        RsdfGlyph { glyph, px_bounds, scale_factor, outline }
    }

    /// Glyph info.
    pub fn glyph(&self) -> (r: &Glyph)
        ensures
            *r == self.glyph_spec(),
    {
        &self.glyph
    }

    /// Conservative whole number pixel bounding box for this glyph.
    pub fn px_bounds(&self) -> (r: Rect)
        ensures
            r == self.px_bounds_spec(),
    {
        self.px_bounds
    }

    /// The outline of the glyph, unscaled.
    pub fn outline(&self) -> (r: &Outline)
        ensures
            *r == self.outline_spec(),
    {
        &self.outline
    }

    /// The scale factor of the glyph.
    pub fn scale_factor(&self) -> (r: PxScaleFactor)
        ensures
            r == self.scale_factor_spec(),
    {
        self.scale_factor
    }
}

/// The cleaned-up channels of a pixel: a pixel with at most one non-zero
/// channel is black, and a pixel with two saturated channels is white.
pub open spec fn clipped(field: [u8; 3]) -> [u8; 3] {
    let (r, g, b) = (field[0] as int, field[1] as int, field[2] as int);
    let sum = r + g + b;
    if (r == 255 && b == 255) || (r == 255 && g == 255) || (b == 255 && g == 255) {
        [255u8, 255u8, 255u8]
    } else if r == sum || g == sum || b == sum {
        [0u8, 0u8, 0u8]
    } else {
        field
    }
}

/// A pixel with any two channels saturated becomes white; otherwise a pixel
/// with at least two channels at zero becomes black; every other pixel is
/// left as it is.
pub proof fn lemma_clip_cases(field: [u8; 3])
    ensures
        ({
            let (r, g, b) = (field[0], field[1], field[2]);
            let two_saturated = (r == 255 && g == 255) || (r == 255 && b == 255) || (g == 255 && b == 255);
            let two_zero = (r == 0 && g == 0) || (r == 0 && b == 0) || (g == 0 && b == 0);
            &&& two_saturated ==> clipped(field)@ == seq![255u8, 255u8, 255u8]
            &&& !two_saturated && two_zero ==> clipped(field)@ == seq![0u8, 0u8, 0u8]
            &&& !two_saturated && !two_zero ==> clipped(field)@ == field@
        }),
{
}

/// Clipping treats the three channels alike: permuting the channels of a
/// pixel permutes the channels of its clipped value in the same way.
pub proof fn lemma_clip_symmetric(field: [u8; 3], rotated: [u8; 3], swapped: [u8; 3])
    requires
        rotated@ == seq![field[1], field[2], field[0]],
        swapped@ == seq![field[1], field[0], field[2]],
    ensures
        clipped(rotated)@ == seq![clipped(field)[1], clipped(field)[2], clipped(field)[0]],
        clipped(swapped)@ == seq![clipped(field)[1], clipped(field)[0], clipped(field)[2]],
{
    assert(rotated[0] == field[1] && rotated[1] == field[2] && rotated[2] == field[0]);
    assert(swapped[0] == field[1] && swapped[1] == field[0] && swapped[2] == field[2]);
}

/// Clip the channel values of a rendered pixel: clear the remaining values
/// when the bulk is 0 and saturate when the bulk is saturated.
pub fn clip_field(field: [u8; 3]) -> (r: [u8; 3])
    ensures
        r == clipped(field),
{
    let r = field[0];
    let g = field[1];
    let b = field[2];
    let mut color = field;
    let sum = r as u16 + g as u16 + b as u16;
    if r as u16 == sum || g as u16 == sum || b as u16 == sum {
        color = [0; 3];
    }
    if r == 255 && b == 255 || r == 255 && g == 255 || b == 255 && g == 255 {
        color = [255; 3];
    }
    proof {
        assert(color@ == clipped(field)@);
    }
    color
}

/// The median of three values.
pub fn median(a: u8, b: u8, c: u8) -> (r: u8)
    ensures
        r == a || r == b || r == c,
        (if a <= r { 1int } else { 0 }) + (if b <= r { 1int } else { 0 }) + (if c <= r { 1int } else { 0 }) >= 2,
        (if a >= r { 1int } else { 0 }) + (if b >= r { 1int } else { 0 }) + (if c >= r { 1int } else { 0 }) >= 2,
{
    if (a <= b && b <= c) || (c <= b && b <= a) {
        b
    } else if (a <= c && c <= b) || (b <= c && c <= a) {
        c
    } else {
        a
    }
}

} // verus!
