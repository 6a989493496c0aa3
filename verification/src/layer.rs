//! LayerProcessor: one pass per layer in document order. A tile grid emits
//! one sprite placement per occupied cell; an object layer runs every object
//! through the shape extractor and the mesh builder; image and group layers
//! are unsupported and produce a warning instead of placements. Every layer
//! gets the z value `(index + 1) * LAYER_Z_STEP`, so later layers render
//! strictly in front of earlier ones.

use vstd::prelude::*;

use crate::document::{
    grid_fits, grid_wf, layer_wf, objects_wf, object_wf, Layer, LayerKind, MapDocument, MapObject,
    TileGrid, doc_wf, MAX_LAYERS,
};
use crate::geom::{polygon_area2, GWorld, PixelPoint, WorldPoint};
use crate::mesh::{spec_triangulate, triangulate, Triangle};
use crate::shape::{
    extract_ok, gviews, local_vertices, rect_corners, transformed_vertices, Extraction, Shape,
    ShapeExtractor,
};
use crate::text::{cell_label, cell_name};
use crate::transform::CoordinateTransformer;

verus! {

/// Fixed per-layer depth increment.
pub const LAYER_Z_STEP: i64 = 100;

/// A world placement produced by processing one layer.
#[derive(Debug, Clone, PartialEq)]
pub enum Placement {
    /// One tile sprite: the tile id, its world position, and its `col,row`
    /// source label.
    Sprite { tile_id: u32, position: WorldPoint, name: String },
    /// A triangulated object: world offset of the anchor, local vertex list,
    /// triangle index buffer, and the object's name.
    Mesh { offset: WorldPoint, vertices: Vec<WorldPoint>, triangles: Vec<Triangle>, name: String },
    /// An ellipse object, handed to the renderer's primitive path as a radii
    /// pair rather than meshed.
    Ellipse { offset: WorldPoint, rx: i64, ry: i64, name: String },
}

/// Ghost counterpart of `Placement`.
pub ghost enum GPlacement {
    Sprite { tile_id: int, position: GWorld, name: Seq<char> },
    Mesh { offset: GWorld, vertices: Seq<GWorld>, triangles: Seq<Triangle>, name: Seq<char> },
    Ellipse { offset: GWorld, rx: int, ry: int, name: Seq<char> },
}

impl View for Placement {
    type V = GPlacement;

    open spec fn view(&self) -> GPlacement {
        match *self {
            Placement::Sprite { tile_id, position, name } => GPlacement::Sprite {
                tile_id: tile_id as int,
                position: position@,
                name: name@,
            },
            Placement::Mesh { offset, vertices, triangles, name } => GPlacement::Mesh {
                offset: offset@,
                vertices: gviews(vertices@),
                triangles: triangles@,
                name: name@,
            },
            Placement::Ellipse { offset, rx, ry, name } => GPlacement::Ellipse {
                offset: offset@,
                rx: rx as int,
                ry: ry as int,
                name: name@,
            },
        }
    }
}

/// Why a unit was skipped while its layer kept processing.
#[derive(Clone, Copy, Debug, PartialEq, Eq, Structural)]
pub enum WarnReason {
    UnsupportedLayerKind,
    UnsupportedShape,
    DegeneratePolygon,
}

/// A recoverable condition: the named unit was skipped, the load went on.
#[derive(Debug, Clone, PartialEq)]
pub struct Warning {
    pub name: String,
    pub reason: WarnReason,
}

/// Ghost counterpart of `Warning`.
pub ghost struct GWarning {
    pub name: Seq<char>,
    pub reason: WarnReason,
}

impl View for Warning {
    type V = GWarning;

    open spec fn view(&self) -> GWarning {
        GWarning { name: self.name@, reason: self.reason }
    }
}

pub open spec fn placement_views(s: Seq<Placement>) -> Seq<GPlacement> {
    Seq::new(s.len(), |i: int| s[i]@)
}

pub open spec fn warning_views(s: Seq<Warning>) -> Seq<GWarning> {
    Seq::new(s.len(), |i: int| s[i]@)
}

/// The sprite emitted for occupied cell `k` of a grid.
pub open spec fn cell_sprite(g: TileGrid, t: CoordinateTransformer, k: int, id: u32) -> GPlacement {
    let col = k % (g.width as int);
    let row = k / (g.width as int);
    GPlacement::Sprite {
        tile_id: id as int,
        position: t.spec_from_pixels(col * t.tile_width, row * t.tile_height),
        name: cell_label(col as nat, row as nat),
    }
}

/// What cell `k` contributes: one sprite if occupied, nothing if empty.
pub open spec fn cell_entry(g: TileGrid, t: CoordinateTransformer, k: int) -> Seq<GPlacement> {
    match g.cells@[k] {
        Some(id) => seq![cell_sprite(g, t, k, id)],
        None => Seq::empty(),
    }
}

pub open spec fn grid_placements_upto(g: TileGrid, t: CoordinateTransformer, k: int) -> Seq<
    GPlacement,
>
    decreases k,
{
    if k <= 0 {
        Seq::empty()
    } else {
        grid_placements_upto(g, t, k - 1) + cell_entry(g, t, k - 1)
    }
}

/// All sprites of a tile grid, in row-major cell order.
pub open spec fn grid_placements(g: TileGrid, t: CoordinateTransformer) -> Seq<GPlacement> {
    grid_placements_upto(g, t, g.cells@.len() as int)
}

pub open spec fn occupied_upto(g: TileGrid, k: int) -> int
    decreases k,
{
    if k <= 0 {
        0
    } else {
        occupied_upto(g, k - 1) + if g.cells@[k - 1] is Some {
            1int
        } else {
            0int
        }
    }
}

/// The number of cells with a present tile id.
pub open spec fn occupied_count(g: TileGrid) -> int {
    occupied_upto(g, g.cells@.len() as int)
}

proof fn lemma_grid_count_upto(g: TileGrid, t: CoordinateTransformer, k: int)
    requires
        0 <= k <= g.cells@.len(),
    ensures
        grid_placements_upto(g, t, k).len() == occupied_upto(g, k),
        forall|j: int|
            0 <= j < grid_placements_upto(g, t, k).len() ==> #[trigger] grid_placements_upto(
                g,
                t,
                k,
            )[j] is Sprite,
    decreases k,
{
    if k > 0 {
        lemma_grid_count_upto(g, t, k - 1);
    }
}

/// A tile grid emits exactly one sprite per occupied cell: as many
/// placements as cells with a present tile id, every one of them a sprite,
/// and none for empty cells.
pub proof fn lemma_tile_grid_sprite_count(g: TileGrid, t: CoordinateTransformer)
    ensures
        grid_placements(g, t).len() == occupied_count(g),
        forall|j: int|
            0 <= j < grid_placements(g, t).len() ==> #[trigger] grid_placements(g, t)[j] is Sprite,
{
    lemma_grid_count_upto(g, t, g.cells@.len() as int);
}

/// The world position of an object's anchor.
pub open spec fn object_offset(o: MapObject, t: CoordinateTransformer) -> GWorld {
    t.spec_from_pixels(o.x as int, o.y as int)
}

/// A meshable contour either becomes one mesh placement or (if degenerate)
/// nothing.
pub open spec fn outline_entry(
    o: MapObject,
    t: CoordinateTransformer,
    contour: Seq<PixelPoint>,
    verts: Seq<GWorld>,
) -> Seq<GPlacement> {
    if contour.len() >= 3 && polygon_area2(contour) != 0 {
        seq![
            GPlacement::Mesh {
                offset: object_offset(o, t),
                vertices: verts,
                triangles: spec_triangulate(contour),
                name: o.name@,
            },
        ]
    } else {
        Seq::empty()
    }
}

/// What one object contributes to its layer's placements.
pub open spec fn object_placement_entry(o: MapObject, t: CoordinateTransformer) -> Seq<
    GPlacement,
> {
    match o.shape {
        Shape::Point => outline_entry(
            o,
            t,
            rect_corners(t.tile_width as int, t.tile_height as int),
            local_vertices(rect_corners(t.tile_width as int, t.tile_height as int)),
        ),
        Shape::Rect { width, height } => outline_entry(
            o,
            t,
            rect_corners(width as int, height as int),
            local_vertices(rect_corners(width as int, height as int)),
        ),
        Shape::Ellipse { width, height } => seq![
            GPlacement::Ellipse {
                offset: object_offset(o, t),
                rx: width as int,
                ry: height as int,
                name: o.name@,
            },
        ],
        Shape::Polygon { points } => outline_entry(o, t, points@, transformed_vertices(points@, t)),
        Shape::Polyline { points } => Seq::empty(),
    }
}

/// A degenerate contour is skipped with a warning.
pub open spec fn degen_entry(o: MapObject, contour: Seq<PixelPoint>) -> Seq<GWarning> {
    if contour.len() >= 3 && polygon_area2(contour) != 0 {
        Seq::empty()
    } else {
        seq![GWarning { name: o.name@, reason: WarnReason::DegeneratePolygon }]
    }
}

/// What one object contributes to its layer's warnings.
pub open spec fn object_warning_entry(o: MapObject, t: CoordinateTransformer) -> Seq<GWarning> {
    match o.shape {
        Shape::Point => degen_entry(o, rect_corners(t.tile_width as int, t.tile_height as int)),
        Shape::Rect { width, height } => degen_entry(o, rect_corners(width as int, height as int)),
        Shape::Ellipse { width, height } => Seq::empty(),
        Shape::Polygon { points } => degen_entry(o, points@),
        Shape::Polyline { points } => seq![
            GWarning { name: o.name@, reason: WarnReason::UnsupportedShape },
        ],
    }
}

pub open spec fn objects_placements(objs: Seq<MapObject>, t: CoordinateTransformer) -> Seq<
    GPlacement,
>
    decreases objs.len(),
{
    if objs.len() == 0 {
        Seq::empty()
    } else {
        objects_placements(objs.drop_last(), t) + object_placement_entry(objs.last(), t)
    }
}

pub open spec fn objects_warnings(objs: Seq<MapObject>, t: CoordinateTransformer) -> Seq<GWarning>
    decreases objs.len(),
{
    if objs.len() == 0 {
        Seq::empty()
    } else {
        objects_warnings(objs.drop_last(), t) + object_warning_entry(objs.last(), t)
    }
}

/// All placements of a layer, by kind.
pub open spec fn kind_placements(k: LayerKind, t: CoordinateTransformer) -> Seq<GPlacement> {
    match k {
        LayerKind::TileGrid(g) => grid_placements(g, t),
        LayerKind::ObjectSet(objs) => objects_placements(objs@, t),
        LayerKind::Image => Seq::empty(),
        LayerKind::Group => Seq::empty(),
    }
}

/// All warnings of a layer, by kind; unsupported kinds warn under the
/// layer's own name.
pub open spec fn kind_warnings(k: LayerKind, name: Seq<char>, t: CoordinateTransformer) -> Seq<
    GWarning,
> {
    match k {
        LayerKind::TileGrid(g) => Seq::empty(),
        LayerKind::ObjectSet(objs) => objects_warnings(objs@, t),
        LayerKind::Image => seq![GWarning { name, reason: WarnReason::UnsupportedLayerKind }],
        LayerKind::Group => seq![GWarning { name, reason: WarnReason::UnsupportedLayerKind }],
    }
}

/// The output of processing one layer.
#[derive(Debug, Clone, PartialEq)]
pub struct ProcessedLayer {
    pub name: String,
    pub index: usize,
    pub offset_x: i64,
    pub offset_y: i64,
    pub z: i64,
    pub placements: Vec<Placement>,
    pub warnings: Vec<Warning>,
}

/// Ghost counterpart of `ProcessedLayer`.
pub ghost struct GLayerOut {
    pub name: Seq<char>,
    pub index: int,
    pub offset_x: int,
    pub offset_y: int,
    pub z: int,
    pub placements: Seq<GPlacement>,
    pub warnings: Seq<GWarning>,
}

impl View for ProcessedLayer {
    type V = GLayerOut;

    open spec fn view(&self) -> GLayerOut {
        GLayerOut {
            name: self.name@,
            index: self.index as int,
            offset_x: self.offset_x as int,
            offset_y: self.offset_y as int,
            z: self.z as int,
            placements: placement_views(self.placements@),
            warnings: warning_views(self.warnings@),
        }
    }
}

/// Exactly what processing a validated layer yields.
pub open spec fn layer_out(l: Layer, t: CoordinateTransformer) -> GLayerOut {
    GLayerOut {
        name: l.name@,
        index: l.index as int,
        offset_x: l.offset_x as int,
        offset_y: l.offset_y as int,
        z: (l.index as int + 1) * (LAYER_Z_STEP as int),
        placements: kind_placements(l.kind, t),
        warnings: kind_warnings(l.kind, l.name@, t),
    }
}

/// Layers later in document order always get strictly larger z values, in
/// fixed steps of `LAYER_Z_STEP` starting at `LAYER_Z_STEP`.
pub proof fn lemma_z_order(d: MapDocument, t: CoordinateTransformer, i: int, j: int)
    requires
        doc_wf(d),
        0 <= i < j < d.layers@.len(),
    ensures
        layer_out(d.layers@[i], t).z == (i + 1) * (LAYER_Z_STEP as int),
        layer_out(d.layers@[j], t).z == (j + 1) * (LAYER_Z_STEP as int),
        layer_out(d.layers@[i], t).z < layer_out(d.layers@[j], t).z,
{
    assert(d.layers@[i].index == i);
    assert(d.layers@[j].index == j);
}

proof fn lemma_placement_views_push(s: Seq<Placement>, p: Placement)
    ensures
        placement_views(s.push(p)) == placement_views(s) + seq![p@],
{
    assert(placement_views(s.push(p)) =~= placement_views(s) + seq![p@]);
}

proof fn lemma_warning_views_push(s: Seq<Warning>, w: Warning)
    ensures
        warning_views(s.push(w)) == warning_views(s) + seq![w@],
{
    assert(warning_views(s.push(w)) =~= warning_views(s) + seq![w@]);
}

/// LayerProcessor: dispatches each layer by kind, producing its placements
/// and warnings.
#[derive(Clone, Copy, Debug)]
pub struct LayerProcessor {
    pub transformer: CoordinateTransformer,
}

impl LayerProcessor {
    /// One sprite per occupied cell, in row-major order; empty cells emit
    /// nothing.
    pub fn process_tile_grid(&self, g: &TileGrid) -> (out: Vec<Placement>)
        requires
            self.transformer.wf(),
            grid_wf(*g),
            grid_fits(*g, self.transformer.tile_width as int, self.transformer.tile_height as int),
        ensures
            placement_views(out@) == grid_placements(*g, self.transformer),
    {
        let mut out: Vec<Placement> = Vec::new();
        let total = g.cells.len();
        let mut k: usize = 0;
        while k < total
            invariant
                0 <= k <= total,
                total == g.cells@.len(),
                self.transformer.wf(),
                grid_wf(*g),
                grid_fits(*g, self.transformer.tile_width as int,
                self.transformer.tile_height as int),
                placement_views(out@) == grid_placements_upto(*g, self.transformer, k as int),
            decreases total - k,
        {
            proof {
                assert(g.width > 0) by (nonlinear_arith)
                    requires
                        (k as int) < g.width * g.height,
                        k >= 0,
                ;
            }
            let col = k % g.width;
            let row = k / g.width;
            match g.cells[k] {
                Some(id) => {
                    proof {
                        assert(row < g.height) by (nonlinear_arith)
                            requires
                                (k as int) < g.width * g.height,
                                g.width > 0,
                                row == (k as int) / (g.width as int),
                        ;
                        assert(0 <= (col as int) * (self.transformer.tile_width as int)
                            <= crate::geom::COORD_BOUND && 0 <= (row as int)
                            * (self.transformer.tile_height as int) <= crate::geom::COORD_BOUND
                            && col as int <= crate::geom::COORD_BOUND && row as int
                            <= crate::geom::COORD_BOUND) by (nonlinear_arith)
                            requires
                                0 <= col as int,
                                (col as int) < g.width as int,
                                0 <= row as int,
                                (row as int) < g.height as int,
                                0 < self.transformer.tile_width,
                                0 < self.transformer.tile_height,
                                g.width * self.transformer.tile_width <= crate::geom::COORD_BOUND,
                                g.height * self.transformer.tile_height
                                    <= crate::geom::COORD_BOUND,
                        ;
                    }
                    let px = (col as i64) * self.transformer.tile_width;
                    let py = (row as i64) * self.transformer.tile_height;
                    let position = self.transformer.from_pixels(px, py);
                    let name = cell_name(col as u64, row as u64);
                    let ghost sold = out@;
                    out.push(Placement::Sprite { tile_id: id, position, name });
                    proof {
                        lemma_placement_views_push(sold, out@.last());
                        assert(out@.last()@ == cell_sprite(*g, self.transformer, k as int, id));
                        assert(cell_entry(*g, self.transformer, k as int) == seq![
                            cell_sprite(*g, self.transformer, k as int, id),
                        ]);
                    }
                },
                None => {
                    proof {
                        assert(cell_entry(*g, self.transformer, k as int) =~= Seq::<
                            GPlacement,
                        >::empty());
                        assert(placement_views(out@) =~= grid_placements_upto(
                            *g,
                            self.transformer,
                            k as int + 1,
                        ));
                    }
                },
            }
            k = k + 1;
        }
        out
    }

    /// Run every object through extraction and meshing; emit one placement
    /// per supported, non-degenerate object and one warning per skipped one.
    pub fn process_objects(&self, objs: &Vec<MapObject>) -> (r: (Vec<Placement>, Vec<Warning>))
        requires
            self.transformer.wf(),
            objects_wf(objs@),
        ensures
            placement_views(r.0@) == objects_placements(objs@, self.transformer),
            warning_views(r.1@) == objects_warnings(objs@, self.transformer),
    {
        let mut placements: Vec<Placement> = Vec::new();
        let mut warnings: Vec<Warning> = Vec::new();
        let n = objs.len();
        let extractor = ShapeExtractor { transformer: self.transformer };
        let mut i: usize = 0;
        while i < n
            invariant
                0 <= i <= n,
                n == objs@.len(),
                self.transformer.wf(),
                extractor.transformer == self.transformer,
                objects_wf(objs@),
                placement_views(placements@) == objects_placements(
                    objs@.take(i as int),
                    self.transformer,
                ),
                warning_views(warnings@) == objects_warnings(
                    objs@.take(i as int),
                    self.transformer,
                ),
            decreases n - i,
        {
            let o = &objs[i];
            proof {
                assert(object_wf(objs@[i as int]));
            }
            let offset = self.transformer.from_pixels(o.x, o.y);
            let ex = extractor.extract(&o.shape);
            let ghost pold = placements@;
            let ghost wold = warnings@;
            match ex {
                Extraction::Outline { contour, vertices } => {
                    match triangulate(&contour) {
                        Ok(triangles) => {
                            placements.push(
                                Placement::Mesh {
                                    offset,
                                    vertices,
                                    triangles,
                                    name: o.name.clone(),
                                },
                            );
                            proof {
                                lemma_placement_views_push(pold, placements@.last());
                            }
                        },
                        Err(_) => {
                            warnings.push(
                                Warning {
                                    name: o.name.clone(),
                                    reason: WarnReason::DegeneratePolygon,
                                },
                            );
                            proof {
                                lemma_warning_views_push(wold, warnings@.last());
                            }
                        },
                    }
                },
                Extraction::EllipseRadii { rx, ry } => {
                    placements.push(
                        Placement::Ellipse { offset, rx, ry, name: o.name.clone() },
                    );
                    proof {
                        lemma_placement_views_push(pold, placements@.last());
                    }
                },
                Extraction::Unsupported => {
                    warnings.push(
                        Warning { name: o.name.clone(), reason: WarnReason::UnsupportedShape },
                    );
                    proof {
                        lemma_warning_views_push(wold, warnings@.last());
                    }
                },
            }
            proof {
                let t = self.transformer;
                let pre = objs@.take(i as int);
                let cur = objs@.take(i as int + 1);
                assert(cur.drop_last() =~= pre);
                assert(cur.last() == objs@[i as int]);
                assert(placement_views(placements@) =~= objects_placements(cur, t));
                assert(warning_views(warnings@) =~= objects_warnings(cur, t));
            }
            i = i + 1;
        }
        proof {
            assert(objs@.take(n as int) =~= objs@);
        }
        (placements, warnings)
    }

    /// Process one validated layer: dispatch by kind and stamp the z value.
    pub fn process_layer(&self, l: &Layer) -> (p: ProcessedLayer)
        requires
            self.transformer.wf(),
            layer_wf(*l, self.transformer.tile_width as int, self.transformer.tile_height as int),
            l.index < MAX_LAYERS,
        ensures
            p@ == layer_out(*l, self.transformer),
    {
        let z = (l.index as i64 + 1) * LAYER_Z_STEP;
        let (placements, warnings) = match &l.kind {
            LayerKind::TileGrid(g) => {
                let ps = self.process_tile_grid(g);
                let ws: Vec<Warning> = Vec::new();
                proof {
                    assert(warning_views(ws@) =~= kind_warnings(l.kind, l.name@, self.transformer));
                }
                (ps, ws)
            },
            LayerKind::ObjectSet(objs) => self.process_objects(objs),
            LayerKind::Image => {
                let ps: Vec<Placement> = Vec::new();
                let ws = singleton_warning(&l.name, WarnReason::UnsupportedLayerKind);
                proof {
                    assert(placement_views(ps@) =~= kind_placements(l.kind, self.transformer));
                }
                (ps, ws)
            },
            LayerKind::Group => {
                let ps: Vec<Placement> = Vec::new();
                let ws = singleton_warning(&l.name, WarnReason::UnsupportedLayerKind);
                proof {
                    assert(placement_views(ps@) =~= kind_placements(l.kind, self.transformer));
                }
                (ps, ws)
            },
        };
        ProcessedLayer {
            name: l.name.clone(),
            index: l.index,
            offset_x: l.offset_x,
            offset_y: l.offset_y,
            z,
            placements,
            warnings,
        }
    }

    /// Process a whole document, in document order.
    pub fn process_document(&self, d: &MapDocument) -> (out: Vec<ProcessedLayer>)
        requires
            self.transformer.wf(),
            doc_wf(*d),
            self.transformer.tile_width == d.tile_width,
            self.transformer.tile_height == d.tile_height,
        ensures
            out@.len() == d.layers@.len(),
            forall|i: int|
                0 <= i < d.layers@.len() ==> (#[trigger] out@[i])@ == layer_out(
                    d.layers@[i],
                    self.transformer,
                ),
    {
        let mut out: Vec<ProcessedLayer> = Vec::new();
        let n = d.layers.len();
        let mut i: usize = 0;
        while i < n
            invariant
                0 <= i <= n,
                n == d.layers@.len(),
                self.transformer.wf(),
                doc_wf(*d),
                self.transformer.tile_width == d.tile_width,
                self.transformer.tile_height == d.tile_height,
                out@.len() == i,
                forall|k: int|
                    0 <= k < i ==> (#[trigger] out@[k])@ == layer_out(
                        d.layers@[k],
                        self.transformer,
                    ),
            decreases n - i,
        {
            let l = &d.layers[i];
            proof {
                assert(layer_wf(d.layers@[i as int], d.tile_width as int, d.tile_height as int));
                assert(d.layers@[i as int].index == i);
            }
            let p = self.process_layer(l);
            out.push(p);
            i = i + 1;
        }
        out
    }
}

/// A single warning under the given name.
fn singleton_warning(name: &String, reason: WarnReason) -> (ws: Vec<Warning>)
    ensures
        warning_views(ws@) == seq![GWarning { name: name@, reason }],
{
    let mut ws: Vec<Warning> = Vec::new();
    ws.push(Warning { name: name.clone(), reason });
    proof {
        assert(warning_views(ws@) =~= seq![GWarning { name: name@, reason }]);
    }
    ws
}

} // verus!
