//! Tests of the individual pipeline components: coordinate transform, shape
//! extraction, triangulation, and cell labels.

use mapscene::geom::{Frac, PixelPoint};
use mapscene::mesh::{triangulate, MeshError, Triangle};
use mapscene::shape::{Extraction, Shape, ShapeExtractor};
use mapscene::text::{cell_name, dec_string};
use mapscene::transform::CoordinateTransformer;

fn transformer(tile_width: i64, tile_height: i64, num: i64, den: i64) -> CoordinateTransformer {
    CoordinateTransformer::new(tile_width, tile_height, Frac { num, den }).unwrap()
}

fn pt(x: i64, y: i64) -> PixelPoint {
    PixelPoint { x, y }
}

/// Doubled signed area of the polygon, by the shoelace formula.
fn area2_of(points: &[PixelPoint]) -> i64 {
    let n = points.len();
    let mut acc: i64 = 0;
    for i in 0..n {
        let p = points[i];
        let q = points[(i + 1) % n];
        acc += p.x * q.y - q.x * p.y;
    }
    acc
}

/// Doubled signed area of one triangle of the buffer.
fn tri_area2(t: &Triangle, points: &[PixelPoint]) -> i64 {
    let a = points[t.a];
    let b = points[t.b];
    let c = points[t.c];
    (b.x - a.x) * (c.y - a.y) - (c.x - a.x) * (b.y - a.y)
}

#[test]
fn transform_corners_of_one_tile() {
    // tile_width = 16, tile_height = 16, render size 1: the top-left pixel
    // maps to (0, 1) and the pixel one tile in maps to (1, 0).
    let t = transformer(16, 16, 1, 1);
    let origin = t.from_pixels(0, 0);
    assert!(origin.x.value_eq(&Frac { num: 0, den: 1 }));
    assert!(origin.y.value_eq(&Frac { num: 1, den: 1 }));
    let far = t.from_pixels(16, 16);
    assert!(far.x.value_eq(&Frac { num: 1, den: 1 }));
    assert!(far.y.value_eq(&Frac { num: 0, den: 1 }));
}

#[test]
fn transform_monotonic_spot_checks() {
    let t = transformer(16, 16, 3, 10);
    let a = t.from_pixels(5, 5);
    let b = t.from_pixels(6, 5);
    // x strictly increases with pixel x.
    assert!(a.x.value_lt(&b.x));
    let c = t.from_pixels(5, 6);
    // y strictly decreases as pixel y increases (axis flip).
    assert!(c.y.value_lt(&a.y));
}

#[test]
fn transform_rejects_bad_dimensions() {
    assert!(CoordinateTransformer::new(0, 16, Frac { num: 1, den: 1 }).is_none());
    assert!(CoordinateTransformer::new(16, -3, Frac { num: 1, den: 1 }).is_none());
    assert!(CoordinateTransformer::new(16, 16, Frac { num: 0, den: 1 }).is_none());
    assert!(CoordinateTransformer::new(16, 16, Frac { num: 1, den: 0 }).is_none());
}

#[test]
fn rect_extraction_is_centered_and_counter_clockwise() {
    let t = transformer(16, 16, 1, 1);
    let ex = ShapeExtractor { transformer: t };
    match ex.extract(&Shape::Rect { width: 32, height: 16 }) {
        Extraction::Outline { contour, vertices } => {
            assert_eq!(contour, vec![pt(-16, -8), pt(16, -8), pt(16, 8), pt(-16, 8)]);
            assert_eq!(vertices.len(), 4);
            assert_eq!(vertices[0].x, Frac { num: -16, den: 1 });
            assert_eq!(vertices[0].y, Frac { num: -8, den: 1 });
        },
        other => panic!("expected an outline, got {:?}", other),
    }
}

#[test]
fn point_extraction_is_one_tile_square() {
    let t = transformer(16, 12, 1, 1);
    let ex = ShapeExtractor { transformer: t };
    match ex.extract(&Shape::Point) {
        Extraction::Outline { contour, .. } => {
            assert_eq!(contour, vec![pt(-8, -6), pt(8, -6), pt(8, 6), pt(-8, 6)]);
        },
        other => panic!("expected an outline, got {:?}", other),
    }
}

#[test]
fn ellipse_extraction_passes_radii_through() {
    let t = transformer(16, 16, 1, 1);
    let ex = ShapeExtractor { transformer: t };
    match ex.extract(&Shape::Ellipse { width: 40, height: 20 }) {
        Extraction::EllipseRadii { rx, ry } => {
            assert_eq!((rx, ry), (40, 20));
        },
        other => panic!("expected radii, got {:?}", other),
    }
}

#[test]
fn polyline_extraction_is_unsupported() {
    let t = transformer(16, 16, 1, 1);
    let ex = ShapeExtractor { transformer: t };
    let e = ex.extract(&Shape::Polyline { points: vec![pt(0, 0), pt(5, 5)] });
    assert_eq!(e, Extraction::Unsupported);
}

#[test]
fn polygon_extraction_transforms_each_point() {
    let t = transformer(16, 16, 1, 1);
    let ex = ShapeExtractor { transformer: t };
    match ex.extract(&Shape::Polygon { points: vec![pt(0, 0), pt(16, 0), pt(0, 16)] }) {
        Extraction::Outline { contour, vertices } => {
            assert_eq!(contour, vec![pt(0, 0), pt(16, 0), pt(0, 16)]);
            assert_eq!(vertices.len(), 3);
            // (16, 0) maps to world (1, 1).
            assert!(vertices[1].x.value_eq(&Frac { num: 1, den: 1 }));
            assert!(vertices[1].y.value_eq(&Frac { num: 1, den: 1 }));
            // (0, 16) maps to world (0, 0).
            assert!(vertices[2].x.value_eq(&Frac { num: 0, den: 1 }));
            assert!(vertices[2].y.value_eq(&Frac { num: 0, den: 1 }));
        },
        other => panic!("expected an outline, got {:?}", other),
    }
}

#[test]
fn convex_pentagon_yields_three_triangles_with_exact_area() {
    let points = vec![pt(0, 0), pt(4, 0), pt(6, 3), pt(3, 6), pt(0, 4)];
    let triangles = triangulate(&points).unwrap();
    assert_eq!(triangles.len(), 3);
    let total: i64 = triangles.iter().map(|t| tri_area2(t, &points)).sum();
    assert_eq!(total, area2_of(&points));
    assert_ne!(total, 0);
    for t in &triangles {
        assert!(t.a < points.len() && t.b < points.len() && t.c < points.len());
        assert!(t.a != t.b && t.b != t.c && t.a != t.c);
    }
}

#[test]
fn square_yields_two_triangles_with_exact_area() {
    let points = vec![pt(0, 0), pt(10, 0), pt(10, 10), pt(0, 10)];
    let triangles = triangulate(&points).unwrap();
    assert_eq!(triangles.len(), 2);
    let total: i64 = triangles.iter().map(|t| tri_area2(t, &points)).sum();
    assert_eq!(total, area2_of(&points));
    assert_eq!(total, 200);
}

#[test]
fn concave_polygon_triangulates_with_exact_area() {
    // An arrowhead: concave at (2, 2).
    let points = vec![pt(0, 0), pt(8, 0), pt(8, 8), pt(2, 2)];
    let triangles = triangulate(&points).unwrap();
    assert_eq!(triangles.len(), 2);
    let total: i64 = triangles.iter().map(|t| tri_area2(t, &points)).sum();
    assert_eq!(total, area2_of(&points));
}

#[test]
fn triangulation_is_deterministic() {
    let points = vec![pt(0, 0), pt(4, 0), pt(6, 3), pt(3, 6), pt(0, 4)];
    let first = triangulate(&points).unwrap();
    let second = triangulate(&points).unwrap();
    assert_eq!(first, second);
}

#[test]
fn two_points_are_degenerate() {
    let points = vec![pt(0, 0), pt(5, 5)];
    assert_eq!(triangulate(&points), Err(MeshError::DegeneratePolygon));
}

#[test]
fn collinear_points_are_degenerate() {
    let points = vec![pt(0, 0), pt(2, 2), pt(5, 5)];
    assert_eq!(triangulate(&points), Err(MeshError::DegeneratePolygon));
}

#[test]
fn empty_contour_is_degenerate() {
    let points: Vec<PixelPoint> = Vec::new();
    assert_eq!(triangulate(&points), Err(MeshError::DegeneratePolygon));
}

#[test]
fn decimal_rendering() {
    assert_eq!(dec_string(0), "0");
    assert_eq!(dec_string(7), "7");
    assert_eq!(dec_string(10), "10");
    assert_eq!(dec_string(90210), "90210");
    assert_eq!(cell_name(12, 3), "12,3");
    assert_eq!(cell_name(0, 0), "0,0");
}
