use rsdf::edge_shape::{EdgeSegment, Shape, ShapeBuilder};

type P = (i32, i32);

fn triangle() -> ShapeBuilder<P, i32> {
    Shape::<P, i32>::build((0, 0))
        .start((0, 0))
        .line((4, 0))
        .line((2, 3))
}

#[test]
fn builder_adds_points_and_edges() {
    let b = Shape::<P, i32>::build((0, 0))
        .line((1, 0))
        .quadratic((2, 1), (3, 0))
        .cubic((4, 1), (5, 1), (6, 0));
    let c = &b.contours()[0];
    assert_eq!(c.points(), &vec![(0, 0), (1, 0), (2, 1), (3, 0), (4, 1), (5, 1), (6, 0)]);
    assert_eq!(
        c.edge_segments(),
        &vec![EdgeSegment::Line, EdgeSegment::Quadratic, EdgeSegment::Cubic]
    );
    assert!(c.corner_indices().is_empty());
}

#[test]
fn builder_start_moves_first_point_and_contour_opens_new() {
    let b = Shape::<P, i32>::build((0, 0))
        .start((7, 7))
        .line((8, 8))
        .contour()
        .line((1, 1));
    assert_eq!(b.contours().len(), 2);
    assert_eq!(b.contours()[0].points(), &vec![(7, 7), (8, 8)]);
    assert_eq!(b.contours()[1].points(), &vec![(0, 0), (1, 1)]);
}

#[test]
fn finalise_steps_triangle() {
    let mut b = triangle();
    // the triangle does not end where it starts
    b.ensure_closed_contours(&vec![true]);
    let c = &b.contours()[0];
    assert_eq!(c.points(), &vec![(0, 0), (4, 0), (2, 3), (0, 0)]);
    assert_eq!(c.edge_segments().len(), 3);

    b.cull_degenerate_contours();
    assert_eq!(b.contours().len(), 1);

    let candidates = b.corner_candidates();
    assert_eq!(candidates, vec![vec![(2, 0, 1), (0, 1, 2), (1, 2, 3)]]);

    // corners at the second and third point
    b.identify_corners(&vec![vec![false, true, true]]);
    assert_eq!(b.contours()[0].corner_indices(), &vec![(1, 1), (2, 2)]);

    b.rearrange();
    let c = &b.contours()[0];
    assert_eq!(c.corner_indices(), &vec![(0, 0), (1, 1)]);
    assert_eq!(c.points(), &vec![(4, 0), (2, 3), (0, 0), (0, 0)]);

    let shape = b.finish(rsdf::edge_shape::Box { left: 0, right: 4, top: 0, bottom: 3 });
    assert_eq!(
        shape.viewbox(),
        &rsdf::edge_shape::Box { left: 0, right: 4, top: 0, bottom: 3 }
    );
    let c = &shape.contours()[0];
    assert_eq!(c.corners(), vec![(4, 0), (2, 3)]);
    let splines = c.splines();
    assert_eq!(splines.len(), 2);
    assert_eq!(splines[0].0.len(), 1);
    assert_eq!(splines[0].1, &[(4, 0), (2, 3)]);
    assert_eq!(splines[1].0.len(), 2);
    assert_eq!(splines[1].1, &[(2, 3), (0, 0), (0, 0)]);
}

#[test]
fn splines_of_smooth_contour_is_whole_contour() {
    let mut b = triangle();
    b.ensure_closed_contours(&vec![true]);
    b.identify_corners(&vec![vec![false, false, false]]);
    b.rearrange();
    let shape = b.viewbox(1, 2, 3, 4).finish(rsdf::edge_shape::Box { left: 0, right: 0, top: 0, bottom: 0 });
    assert_eq!(shape.viewbox(), &rsdf::edge_shape::Box { left: 1, right: 2, top: 3, bottom: 4 });
    let splines = shape.contours()[0].splines();
    assert_eq!(splines.len(), 1);
    assert_eq!(splines[0].0.len(), 3);
    assert_eq!(splines[0].1.len(), 4);
}

#[test]
fn cull_keeps_exactly_the_contours_with_area() {
    // point counts 2, 2, 5: both short contours go, the five point one stays
    let b = Shape::<P, i32>::build((0, 0))
        .line((1, 1))
        .contour()
        .line((1, 1))
        .contour()
        .line((1, 0))
        .line((1, 1))
        .line((0, 1))
        .line((0, 0));
    let mut b = b;
    b.cull_degenerate_contours();
    assert_eq!(b.contours().len(), 1);
    assert_eq!(b.contours()[0].points().len(), 5);
}

#[test]
fn cull_keeps_order_of_long_contours() {
    // point counts 2, 5, 1, 4
    let mut b = Shape::<P, i32>::build((0, 0))
        .line((1, 1))
        .contour()
        .line((1, 0))
        .line((1, 1))
        .line((0, 1))
        .line((0, 0))
        .contour()
        .contour()
        .line((2, 0))
        .line((2, 2))
        .line((0, 0));
    b.cull_degenerate_contours();
    assert_eq!(b.contours().len(), 2);
    assert_eq!(b.contours()[0].points().len(), 5);
    assert_eq!(b.contours()[1].points(), &vec![(0, 0), (2, 0), (2, 2), (0, 0)]);
}

#[test]
fn finalise_steps_cull_empty_contours_before_square() {
    let mut b = Shape::<P, i32>::build((0, 0))
        .contour()
        .contour()
        .contour()
        .start((0, 0))
        .line((1, 0))
        .line((1, 1))
        .line((0, 1));
    assert_eq!(b.contours().len(), 3);
    b.ensure_closed_contours(&vec![false, false, true]);
    b.cull_degenerate_contours();
    assert_eq!(b.contours().len(), 1);
    assert_eq!(b.contours()[0].points(), &vec![(0, 0), (1, 0), (1, 1), (0, 1), (0, 0)]);
    assert_eq!(b.contours()[0].edge_segments().len(), 4);
}

#[test]
fn cull_can_remove_every_contour() {
    let mut b = Shape::<P, i32>::build((0, 0)).line((1, 1)).contour().line((2, 2)).line((0, 0));
    b.cull_degenerate_contours();
    assert!(b.contours().is_empty());
}
