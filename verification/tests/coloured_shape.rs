use rsdf::coloured_shape::colour_shape;
use rsdf::edge_shape::{Box, Shape};
use rsdf::spline_colour::{Colour, SplineColour};

type P = (i32, i32);

fn square(corners: Vec<bool>) -> Shape<P, i32> {
    let mut b = Shape::<P, i32>::build((0, 0))
        .line((1, 0))
        .line((1, 1))
        .line((0, 1))
        .line((0, 0));
    b.ensure_closed_contours(&vec![false]);
    b.identify_corners(&vec![corners]);
    b.rearrange();
    b.finish(Box { left: 0, right: 1, top: 0, bottom: 1 })
}

#[test]
fn smooth_contour_is_white() {
    let coloured = colour_shape(square(vec![false, false, false, false]));
    assert_eq!(coloured.colours().len(), 1);
    let colours: Vec<_> = coloured.colours()[0].iter().map(|c| c.colour()).collect();
    assert_eq!(colours, vec![Colour::White]);
}

#[test]
fn cornered_contour_alternates() {
    let coloured = colour_shape(square(vec![true, true, true, true]));
    let colours: Vec<_> = coloured.colours()[0].iter().map(|c| c.colour()).collect();
    assert_eq!(colours, vec![Colour::Magenta, Colour::Yellow, Colour::Cyan, Colour::Yellow]);
    assert!(coloured.corner_rays.is_empty());

    let contours = coloured.contours();
    assert_eq!(contours.len(), 1);
    let splines = contours[0].splines();
    assert_eq!(splines.len(), 4);
    assert_eq!(splines[2].spline.1, &[(1, 1), (0, 1)]);
    assert_eq!(splines[2].colour.colour(), Colour::Cyan);
    assert!(contours[0].get_spline(3).is_some());
    assert!(contours[0].get_spline(4).is_none());
    assert_eq!(contours[0].get_spline(1).unwrap().colour.colour(), Colour::Yellow);
}

#[test]
fn two_corners_magenta_yellow() {
    let coloured = colour_shape(square(vec![true, false, true, false]));
    let colours: Vec<_> = coloured.colours()[0].iter().map(|c| c.colour()).collect();
    assert_eq!(colours, vec![Colour::Magenta, Colour::Yellow]);
}

#[test]
fn spline_colour_round_trip() {
    let all = [
        Colour::Red,
        Colour::Yellow,
        Colour::Green,
        Colour::Cyan,
        Colour::Blue,
        Colour::Magenta,
        Colour::White,
        Colour::Black,
    ];
    for c in all {
        assert_eq!(SplineColour::from_colour(c).colour(), c);
    }
    let mut c = SplineColour::from_colour(Colour::Yellow);
    c ^= rsdf::spline_colour::magenta();
    assert_eq!(c.colour(), Colour::Cyan);
    c ^= rsdf::spline_colour::magenta();
    assert_eq!(c.colour(), Colour::Yellow);
    assert_eq!(rsdf::spline_colour::white().colour(), Colour::White);
}
