//! ShapeExtractor: canonicalizes a raw object shape into a local-space
//! contour for meshing (point, rect, polygon), a radii descriptor (ellipse,
//! drawn natively by the renderer rather than meshed), or an unsupported
//! marker (polyline).

use vstd::prelude::*;

use crate::geom::{
    coord_in_bounds, point_in_bounds, points_in_bounds, Frac, GFrac, GWorld, PixelPoint,
    WorldPoint, COORD_BOUND,
};
use crate::transform::CoordinateTransformer;

verus! {

/// A raw object shape, as it appears in the source document. Polygon and
/// polyline points are in pixel space, relative to the object's anchor.
#[derive(Debug, Clone, PartialEq)]
pub enum Shape {
    Point,
    Rect { width: i64, height: i64 },
    Ellipse { width: i64, height: i64 },
    Polygon { points: Vec<PixelPoint> },
    Polyline { points: Vec<PixelPoint> },
}

/// Shape payloads are bounded so every later product fits the machine
/// integers.
pub open spec fn shape_wf(s: Shape) -> bool {
    match s {
        Shape::Point => true,
        Shape::Rect { width, height } => 0 <= width <= COORD_BOUND && 0 <= height <= COORD_BOUND,
        Shape::Ellipse { width, height } => 0 <= width <= COORD_BOUND && 0 <= height
            <= COORD_BOUND,
        Shape::Polygon { points } => points_in_bounds(points@),
        Shape::Polyline { points } => points_in_bounds(points@),
    }
}

/// What extraction yields: a meshable contour together with the vertex list
/// the placement will carry, an ellipse descriptor, or nothing.
#[derive(Debug, Clone, PartialEq)]
pub enum Extraction {
    Outline { contour: Vec<PixelPoint>, vertices: Vec<WorldPoint> },
    EllipseRadii { rx: i64, ry: i64 },
    Unsupported,
}

/// View of a vertex list.
pub open spec fn gviews(v: Seq<WorldPoint>) -> Seq<GWorld> {
    Seq::new(v.len(), |i: int| v[i]@)
}

/// A local pixel offset carried verbatim as a world-space vertex
/// (denominator one).
pub open spec fn local_vertex(p: PixelPoint) -> GWorld {
    GWorld {
        x: GFrac { num: p.x as int, den: 1 },
        y: GFrac { num: p.y as int, den: 1 },
    }
}

pub open spec fn local_vertices(pts: Seq<PixelPoint>) -> Seq<GWorld> {
    Seq::new(pts.len(), |i: int| local_vertex(pts[i]))
}

/// Each pixel point passed through the coordinate transformer, in order.
pub open spec fn transformed_vertices(pts: Seq<PixelPoint>, t: CoordinateTransformer) -> Seq<
    GWorld,
> {
    Seq::new(pts.len(), |i: int| t.spec_from_pixels(pts[i].x as int, pts[i].y as int))
}

/// The four corners of an axis-aligned rectangle centered on the anchor,
/// in fixed counter-clockwise order.
pub open spec fn rect_corners(width: int, height: int) -> Seq<PixelPoint> {
    let hw = width / 2;
    let hh = height / 2;
    seq![
        PixelPoint { x: (-hw) as i64, y: (-hh) as i64 },
        PixelPoint { x: hw as i64, y: (-hh) as i64 },
        PixelPoint { x: hw as i64, y: hh as i64 },
        PixelPoint { x: (-hw) as i64, y: hh as i64 },
    ]
}

/// Exactly what `extract` returns for each shape variant.
pub open spec fn extract_ok(e: Extraction, s: Shape, t: CoordinateTransformer) -> bool {
    match s {
        Shape::Point => e matches Extraction::Outline { contour, vertices } && contour@
            == rect_corners(t.tile_width as int, t.tile_height as int) && gviews(vertices@)
            == local_vertices(contour@) && points_in_bounds(contour@),
        Shape::Rect { width, height } => e matches Extraction::Outline { contour, vertices }
            && contour@ == rect_corners(width as int, height as int) && gviews(vertices@)
            == local_vertices(contour@) && points_in_bounds(contour@),
        Shape::Ellipse { width, height } => e == (Extraction::EllipseRadii {
            rx: width,
            ry: height,
        }),
        Shape::Polygon { points } => e matches Extraction::Outline { contour, vertices }
            && contour@ == points@ && gviews(vertices@) == transformed_vertices(points@, t)
            && points_in_bounds(contour@),
        Shape::Polyline { points } => e == (Extraction::Unsupported),
    }
}

/// ShapeExtractor: turns raw shapes into meshable geometry using the
/// document's coordinate transformer.
#[derive(Clone, Copy, Debug)]
pub struct ShapeExtractor {
    pub transformer: CoordinateTransformer,
}

impl ShapeExtractor {
    /// Canonicalize one shape. Point and rect yield a local (object-centered)
    /// contour; a polygon keeps its own contour and has each of its points
    /// run through the transformer; a polyline is unsupported.
    ///
    /// An ellipse is not meshed: its extent pair is handed through for the
    /// renderer's native ellipse primitive, exactly as stored in the
    /// document. This picks the primitive-drawing option over the
    /// polygon-sampling one, which would need trigonometry this pipeline
    /// does not otherwise carry.
    pub fn extract(&self, shape: &Shape) -> (e: Extraction)
        requires
            self.transformer.wf(),
            shape_wf(*shape),
        ensures
            extract_ok(e, *shape, self.transformer),
    {
        match shape {
            Shape::Point => {
                let (contour, vertices) = rect_outline(
                    self.transformer.tile_width,
                    self.transformer.tile_height,
                );
                Extraction::Outline { contour, vertices }
            },
            Shape::Rect { width, height } => {
                let (contour, vertices) = rect_outline(*width, *height);
                Extraction::Outline { contour, vertices }
            },
            Shape::Ellipse { width, height } => Extraction::EllipseRadii {
                rx: *width,
                ry: *height,
            },
            Shape::Polygon { points } => {
                let mut contour: Vec<PixelPoint> = Vec::new();
                let mut vertices: Vec<WorldPoint> = Vec::new();
                let n = points.len();
                let mut i: usize = 0;
                while i < n
                    invariant
                        0 <= i <= n,
                        n == points@.len(),
                        self.transformer.wf(),
                        points_in_bounds(points@),
                        contour@ == points@.take(i as int),
                        vertices@.len() == i,
                        forall|k: int|
                            0 <= k < i ==> (#[trigger] vertices@[k])@
                                == self.transformer.spec_from_pixels(
                                points@[k].x as int,
                                points@[k].y as int,
                            ),
                    decreases n - i,
                {
                    let p = points[i];
                    proof {
                        assert(point_in_bounds(points@[i as int]));
                    }
                    contour.push(p);
                    let w = self.transformer.from_pixels(p.x, p.y);
                    vertices.push(w);
                    proof {
                        assert(contour@ =~= points@.take(i as int + 1));
                    }
                    i = i + 1;
                }
                proof {
                    assert(points@.take(n as int) =~= points@);
                    assert(gviews(vertices@) =~= transformed_vertices(points@, self.transformer));
                }
                Extraction::Outline { contour, vertices }
            },
            Shape::Polyline { points: _ } => Extraction::Unsupported,
        }
    }
}

/// The four counter-clockwise corners of a centered rectangle, as both a
/// pixel contour and a local vertex list.
fn rect_outline(width: i64, height: i64) -> (r: (Vec<PixelPoint>, Vec<WorldPoint>))
    requires
        0 <= width <= COORD_BOUND,
        0 <= height <= COORD_BOUND,
    ensures
        r.0@ == rect_corners(width as int, height as int),
        gviews(r.1@) == local_vertices(r.0@),
        points_in_bounds(r.0@),
{
    let hw = ((width as u64) / 2) as i64;
    let hh = ((height as u64) / 2) as i64;
    let c0 = PixelPoint { x: -hw, y: -hh };
    let c1 = PixelPoint { x: hw, y: -hh };
    let c2 = PixelPoint { x: hw, y: hh };
    let c3 = PixelPoint { x: -hw, y: hh };
    let mut contour: Vec<PixelPoint> = Vec::new();
    contour.push(c0);
    contour.push(c1);
    contour.push(c2);
    contour.push(c3);
    let mut vertices: Vec<WorldPoint> = Vec::new();
    vertices.push(local_world_point(c0));
    vertices.push(local_world_point(c1));
    vertices.push(local_world_point(c2));
    vertices.push(local_world_point(c3));
    proof {
        assert(contour@ =~= rect_corners(width as int, height as int));
        assert(gviews(vertices@) =~= local_vertices(contour@));
    }
    (contour, vertices)
}

/// Embeds a pixel offset as a denominator-one world vertex.
fn local_world_point(p: PixelPoint) -> (w: WorldPoint)
    ensures
        w@ == local_vertex(p),
{
    WorldPoint { x: Frac { num: p.x, den: 1 }, y: Frac { num: p.y, den: 1 } }
}

} // verus!
