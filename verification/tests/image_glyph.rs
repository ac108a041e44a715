use ab_glyph::{point, GlyphId, Outline, PxScaleFactor, Rect};
use rsdf::glyph::{clip_field, median, RsdfGlyph};
use rsdf::image::ImageData;

#[test]
fn image_set_pixel() {
    let mut image = ImageData::new([3, 2]);
    assert_eq!(image.width(), 3);
    assert_eq!(image.height(), 2);
    assert_eq!(image.data().len(), 18);
    image.set_pixel([2, 1], [1, 2, 3]);
    let mut expected = vec![0u8; 18];
    expected[15] = 1;
    expected[16] = 2;
    expected[17] = 3;
    assert_eq!(image.data(), &expected);
    image.set_pixel([0, 0], [9, 9, 9]);
    assert_eq!(&image.data()[0..3], &[9, 9, 9]);
}

#[test]
fn clip_field_cases() {
    // bulk is zero: at most one channel is set
    assert_eq!(clip_field([0, 0, 0]), [0, 0, 0]);
    assert_eq!(clip_field([200, 0, 0]), [0, 0, 0]);
    assert_eq!(clip_field([0, 0, 17]), [0, 0, 0]);
    // two saturated channels
    assert_eq!(clip_field([255, 255, 0]), [255, 255, 255]);
    assert_eq!(clip_field([3, 255, 255]), [255, 255, 255]);
    // left alone
    assert_eq!(clip_field([10, 20, 0]), [10, 20, 0]);
    assert_eq!(clip_field([255, 254, 1]), [255, 254, 1]);
}

#[test]
fn median_of_three() {
    assert_eq!(median(1, 2, 3), 2);
    assert_eq!(median(3, 1, 2), 2);
    assert_eq!(median(2, 3, 1), 2);
    assert_eq!(median(5, 5, 1), 5);
    assert_eq!(median(0, 255, 0), 0);
}

#[test]
fn rsdf_glyph_bounds() {
    let glyph = GlyphId(3).with_scale_and_position(10.0, point(0.0, 0.0));
    let outline = Outline {
        bounds: Rect { min: point(0.0, 0.0), max: point(10.0, 10.0) },
        curves: vec![],
    };
    let scale = PxScaleFactor { horizontal: 2.0, vertical: 2.0 };
    let g = RsdfGlyph::new(glyph, outline, scale);
    assert_eq!(g.glyph().id, GlyphId(3));
    let bounds = g.px_bounds();
    assert_eq!(bounds.max.x, 20.0);
    assert_eq!(bounds.max.y, -20.0);
    assert_eq!(bounds.min.x, 0.0);
    assert_eq!(g.scale_factor(), scale);
    assert_eq!(g.outline().bounds.max.x, 10.0);
}

#[test]
fn rsdf_glyph_with_given_bounds() {
    let glyph = GlyphId(7).with_scale_and_position(10.0, point(1.5, 2.5));
    let outline = Outline {
        bounds: Rect { min: point(0.0, 0.0), max: point(4.0, 4.0) },
        curves: vec![],
    };
    let scale = PxScaleFactor { horizontal: 1.0, vertical: 1.0 };
    let bounds = Rect { min: point(-3.0, -4.0), max: point(5.0, 6.0) };
    let g = RsdfGlyph::with_px_bounds(glyph, outline, scale, bounds);
    assert_eq!(g.px_bounds(), bounds);
    assert_eq!(g.glyph().id, GlyphId(7));
    assert_eq!(g.outline().bounds.max.y, 4.0);
    assert_eq!(g.scale_factor(), scale);
}
