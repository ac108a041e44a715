use rsdf::builder::ShapeBuilder;
use rsdf::colour::Colour;
use rsdf::primitives::SegmentKind;
use rsdf::shape::Segment;

type P = (i32, i32);

#[test]
fn builder_square_without_corners_split() {
    let shape = ShapeBuilder::<P>::new()
        .contour((0, 0))
        .line((1, 0), false)
        .line((1, 1), false)
        .line((0, 1), false)
        .end_contour(Some(((0, 0), false)))
        .build();
    assert_eq!(shape.points, vec![(0, 0), (1, 0), (1, 1), (0, 1), (0, 0)]);
    assert_eq!(shape.segments.len(), 4);
    for (i, s) in shape.segments.iter().enumerate() {
        assert!(matches!(s.kind, SegmentKind::Line));
        assert_eq!(s.points_index, i);
    }
    // the smooth closing line extends the only spline
    assert_eq!(shape.splines.len(), 1);
    assert_eq!(shape.splines[0].segments_range, 0..4);
    assert_eq!(shape.splines[0].colour, Colour::Magenta);
    assert_eq!(shape.contours.len(), 1);
    assert_eq!(shape.contours[0].spline_range, 0..1);
}

#[test]
fn builder_sharp_corners_alternate_colours() {
    let shape = ShapeBuilder::<P>::new()
        .contour((0, 0))
        .line((1, 0), true)
        .line((1, 1), true)
        .line((0, 1), true)
        .line((0, 0), true)
        .end_contour(None)
        .build();
    // a new spline starts at every sharp join after the first segment
    let ranges: Vec<_> = shape.splines.iter().map(|s| s.segments_range.clone()).collect();
    assert_eq!(ranges, vec![0..1, 1..2, 2..3, 3..4]);
    let colours: Vec<_> = shape.splines.iter().map(|s| s.colour).collect();
    assert_eq!(colours, vec![Colour::Magenta, Colour::Yellow, Colour::Cyan, Colour::Yellow]);
    assert_eq!(shape.contours[0].spline_range, 0..4);
}

#[test]
fn builder_neighbouring_splines_share_one_channel() {
    let shape = ShapeBuilder::<P>::new()
        .contour((0, 0))
        .line((2, 0), true)
        .line((2, 2), true)
        .line((1, 3), true)
        .line((0, 2), true)
        .line((0, 0), true)
        .end_contour(None)
        .build();
    assert_eq!(shape.splines.len(), 5);
    for s in shape.splines.iter() {
        assert_eq!(s.colour.to_u8().count_ones(), 2);
    }
    for w in shape.splines.windows(2) {
        assert_ne!(w[0].colour, w[1].colour);
        assert_eq!((w[0].colour & w[1].colour).to_u8().count_ones(), 1);
    }
}

#[test]
fn builder_curves_and_segments() {
    let b = ShapeBuilder::<P>::new()
        .contour((0, 0))
        .quadratic_bezier((1, 1), (2, 0), false)
        .cubic_bezier((3, 1), (4, 1), (5, 0), false)
        .elliptical_arc([(9, 9), (8, 8), (7, 7), (6, 6)], (0, 0), false);
    assert_eq!(*b.last_point(), (0, 0));
    assert_eq!(b.first_segment_index(), 0);
    let shape = b.end_contour(None).build();
    assert_eq!(shape.points.len(), 1 + 2 + 3 + 5);
    let kinds: Vec<_> = shape.segments.iter().map(|s| (s.kind, s.points_index)).collect();
    assert!(matches!(kinds[0], (SegmentKind::QuadBezier, 0)));
    assert!(matches!(kinds[1], (SegmentKind::CubicBezier, 2)));
    assert!(matches!(kinds[2], (SegmentKind::EllipticalArc, 6)));
    match shape.get_segment(shape.segments[1]) {
        Segment::CubicBezier(ps) => assert_eq!(ps, &[(2, 0), (3, 1), (4, 1), (5, 0)]),
        _ => panic!("wrong kind"),
    }
    match shape.get_segment(shape.segments[2]) {
        Segment::EllipticalArc(ps) => assert_eq!(ps, &[(9, 9), (8, 8), (7, 7), (6, 6), (0, 0)]),
        _ => panic!("wrong kind"),
    }
    assert_eq!(shape.splines.len(), 1);
    assert_eq!(shape.splines[0].segments_range, 0..3);
}

#[test]
fn builder_two_contours() {
    let shape = ShapeBuilder::<P>::new()
        .contour((0, 0))
        .line((1, 0), false)
        .line((0, 0), false)
        .end_contour(None)
        .contour((5, 5))
        .line((6, 5), false)
        .line((6, 6), true)
        .end_contour(Some(((5, 5), true)))
        .build();
    assert_eq!(shape.contours.len(), 2);
    assert_eq!(shape.contours[0].spline_range, 0..1);
    // the second contour: line, line (sharp: split), the closing line
    // (sharp: split again), then the last spline is finished
    let ranges: Vec<_> = shape.splines.iter().map(|s| s.segments_range.clone()).collect();
    assert_eq!(ranges, vec![0..2, 2..3, 3..4, 4..5]);
    let colours: Vec<_> = shape.splines.iter().map(|s| s.colour).collect();
    assert_eq!(colours, vec![Colour::Magenta, Colour::Magenta, Colour::Yellow, Colour::Cyan]);
    assert_eq!(shape.contours[1].spline_range, 1..4);
    assert_eq!(shape.segments.len(), 5);
    assert_eq!(shape.segments[4].points_index, 5);
}

#[test]
fn builder_closing_line_gets_its_own_spline() {
    let shape = ShapeBuilder::<P>::new()
        .contour((0, 0))
        .line((1, 0), false)
        .line((1, 1), true)
        .end_contour(Some(((0, 0), true)))
        .build();
    assert_eq!(shape.segments.len(), 3);
    let ranges: Vec<_> = shape.splines.iter().map(|s| s.segments_range.clone()).collect();
    assert_eq!(ranges, vec![0..1, 1..2, 2..3]);
    assert_eq!(shape.contours[0].spline_range, 0..3);
}

#[test]
fn segment_kind_point_counts() {
    assert_eq!(SegmentKind::Line.point_count(), 2);
    assert_eq!(SegmentKind::QuadBezier.point_count(), 3);
    assert_eq!(SegmentKind::CubicBezier.point_count(), 4);
    assert_eq!(SegmentKind::EllipticalArc.point_count(), 5);
}
