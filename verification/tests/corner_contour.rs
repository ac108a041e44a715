use rsdf::channels::Channels;
use rsdf::corner_contour::{Contour, Spline};
use rsdf::memo::Memo;

#[test]
fn contour_splines_empty() {
    let contour: Contour<u32, u32> = Contour {
        segments: vec![],
        corners: Memo::Value(vec![]),
        channels: Memo::Value(vec![]),
        corner_rays: Memo::Value(vec![]),
    };
    let splines = contour.splines();
    let expected: Vec<Spline<u32, u32>> = vec![];
    assert_eq!(splines, expected);
}

#[derive(Debug, Clone, Copy, PartialEq)]
struct Point {
    x: f32,
    y: f32,
}

#[derive(Debug, Clone, Copy, PartialEq)]
struct Vector {
    x: f32,
    y: f32,
}

impl Point {
    fn vector_to(self, end: Point) -> Vector {
        Vector::from_points(self, end)
    }
}

impl Vector {
    fn from_points(start: Point, end: Point) -> Vector {
        Vector { x: end.x - start.x, y: end.y - start.y }
    }

    fn norm(self) -> Vector {
        let abs = (self.x * self.x + self.y * self.y).sqrt();
        Vector { x: self.x / abs, y: self.y / abs }
    }
}

impl std::ops::Add for Vector {
    type Output = Vector;

    fn add(self, rhs: Vector) -> Vector {
        Vector { x: self.x + rhs.x, y: self.y + rhs.y }
    }
}

impl std::ops::Neg for Vector {
    type Output = Vector;

    fn neg(self) -> Vector {
        Vector { x: -self.x, y: -self.y }
    }
}

#[derive(Debug, Clone, PartialEq)]
enum Segment {
    Line { start: Point, end: Point },
}

#[derive(Debug, Clone, PartialEq)]
struct CornerRays {
    start: Vector,
    end: Vector,
}

use Segment::Line;

#[test]
fn contour_splines() {
    let point_a = Point { x: 0.0, y: 0.0 };
    let point_b = Point { x: 1.0, y: 0.0 };
    let point_c = Point { x: 0.5, y: 1.0 };

    let vec_ab = point_a.vector_to(point_b);
    let vec_bc = point_b.vector_to(point_c);
    let vec_ca = point_c.vector_to(point_a);

    let ray_a = (vec_ca.norm() + -vec_ab.norm()).norm();
    let ray_b = (vec_ab.norm() + -vec_bc.norm()).norm();
    let ray_c = (vec_bc.norm() + -vec_ca.norm()).norm();

    let line_ab = Line { start: point_a, end: point_b };
    let line_bc = Line { start: point_b, end: point_c };
    let line_ca = Line { start: point_c, end: point_a };

    let channels_ab: Channels = 0b101.into();
    let channels_bc: Channels = 0b110.into();
    let channels_ca: Channels = 0b011.into();

    let corner_rays_ab = CornerRays { start: ray_a, end: ray_b };
    let corner_rays_bc = CornerRays { start: ray_b, end: ray_c };
    let corner_rays_ca = CornerRays { start: ray_c, end: ray_a };

    let contour = Contour {
        segments: vec![line_ab.clone(), line_bc.clone(), line_ca.clone()],
        corners: Memo::Value(vec![0, 1, 2]),
        corner_rays: Memo::Value(vec![corner_rays_ab.clone(), corner_rays_bc.clone(), corner_rays_ca.clone()]),
        channels: Memo::Value(vec![channels_ab, channels_bc, channels_ca]),
    };

    let slice_ab = &[line_ab][..];
    let slice_bc = &[line_bc][..];
    let slice_ca = &[line_ca][..];

    let splines = contour.splines();
    let expected: Vec<Spline<Segment, CornerRays>> = vec![
        Spline { segments: slice_ab, channels: channels_ab, corner_rays: &corner_rays_ab },
        Spline { segments: slice_bc, channels: channels_bc, corner_rays: &corner_rays_bc },
        Spline { segments: slice_ca, channels: channels_ca, corner_rays: &corner_rays_ca },
    ];

    assert_eq!(splines, expected);
}

#[test]
fn contour_splines_fully_smooth() {
    // No corners
    let point_a = Point { x: 0.0, y: 0.0 };
    let point_b = Point { x: 1.0, y: 0.0 };
    let point_c = Point { x: 0.5, y: 1.0 };

    let vec_ab = Vector::from_points(point_a, point_b);
    let vec_ca = Vector::from_points(point_c, point_a);

    let ray_a = (vec_ca.norm() + -vec_ab.norm()).norm();

    let line_ab = Line { start: point_a, end: point_b };
    let line_bc = Line { start: point_b, end: point_c };
    let line_ca = Line { start: point_c, end: point_a };

    let channels: Channels = 0b111.into();
    let corner_rays = CornerRays { start: ray_a, end: ray_a };
    let slice = &[line_ab.clone(), line_bc.clone(), line_ca.clone()][..];

    let contour = Contour {
        segments: vec![line_ab, line_bc, line_ca],
        corners: Memo::Value(vec![]),
        corner_rays: Memo::Value(vec![corner_rays.clone()]),
        channels: Memo::Value(vec![channels]),
    };

    let splines = contour.splines();
    let expected: Vec<Spline<Segment, CornerRays>> =
        vec![Spline { segments: slice, channels, corner_rays: &corner_rays }];

    assert_eq!(splines, expected);
}

#[test]
fn contour_splines_repeated_corner_and_short_lists() {
    let channels: Channels = 0b001.into();
    let contour: Contour<u32, u32> = Contour {
        segments: vec![10, 11, 12, 13],
        corners: Memo::Value(vec![1, 1, 3]),
        corner_rays: Memo::Value(vec![1, 2]),
        channels: Memo::Value(vec![channels, channels, channels]),
    };
    // boundaries 0, 1, 3, 4; only two rays, so two splines
    let splines = contour.splines();
    assert_eq!(splines.len(), 2);
    assert_eq!(splines[0].segments, &[10]);
    assert_eq!(splines[1].segments, &[11, 12]);
}
