use rsdf::colour::Colour;
use rsdf::primitives::SegmentKind;
use rsdf::ref_shape::Shape;
use rsdf::shape::Segment;

fn shape() -> Shape<(i32, i32)> {
    Shape {
        points: vec![(5, -1), (4, 1), (3, 3), (1, 1), (0, 0), (5, -1)],
        segments: vec![
            (SegmentKind::Line, 0),
            (SegmentKind::QuadBezier, 1),
            (SegmentKind::Line, 3),
            (SegmentKind::Line, 4),
        ],
        splines: vec![(3, 0), (1, 3)],
        spline_colours: vec![Colour::Magenta, Colour::Yellow],
        contours: vec![(2, 0)],
    }
}

#[test]
fn contour_get_spline_segments() {
    let shape = shape();
    let contours = shape.contours();
    assert_eq!(contours.len(), 1);
    let contour = contours[0];
    let splines = contour.splines();
    assert_eq!(splines.len(), 2);
    assert_eq!(splines[0].len(), 3);
    assert_eq!(splines[1].len(), 1);
    assert_eq!(splines[1].colour, Colour::Yellow);
    let spline = contour.get_spline(0);
    assert_eq!(spline.colour, Colour::Magenta);
    let segments = contour.segments(spline);
    assert_eq!(segments.len(), 3);
    match segments[1] {
        Segment::QuadBezier(ps) => assert_eq!(ps, &[(4, 1), (3, 3), (1, 1)]),
        _ => panic!("wrong kind"),
    }
    match segments[2] {
        Segment::Line(ps) => assert_eq!(ps, &[(1, 1), (0, 0)]),
        _ => panic!("wrong kind"),
    }
}
