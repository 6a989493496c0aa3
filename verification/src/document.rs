//! The map document model and MapLoader: validating a raw (untrusted) map
//! description into a well-formed `MapDocument`.
//!
//! Fatal conditions (the whole load aborts): non-positive or oversized tile
//! dimensions, malformed structure, and tile references that the injected
//! tileset table cannot resolve. Reading bytes from disk and parsing them
//! into the raw description happen outside this library; a source that could
//! not be read is reported as `IoError` by that outer layer, never by the
//! loader itself.

use vstd::prelude::*;

use vstd::assert_by_contradiction;

use crate::geom::{coord_in_bounds, COORD_BOUND};
use crate::shape::{shape_wf, Shape};

verus! {

/// Why a load failed. The whole load is abandoned on any of these.
#[derive(Clone, Copy, Debug, PartialEq, Eq, Structural)]
pub enum LoadError {
    /// Malformed document structure (grid data of the wrong size, a
    /// coordinate beyond the machine bounds, too many layers).
    ParseError,
    /// A tile layer references a tile the tileset cannot resolve.
    MissingTilesetReference,
    /// The source could not be read (raised by the I/O layer around this
    /// library, never by the loader itself).
    IoError,
    /// Tile dimensions or render size are non-positive or oversized.
    InvalidMapDimensions,
}

/// Documents cannot hold more than this many layers, so every z value fits
/// comfortably in the machine integers.
pub const MAX_LAYERS: usize = 1000000;

/// A dense tile grid: `cells[row * width + col]` is the tile at
/// `(col, row)`, or `None` for an empty cell.
#[derive(Debug, Clone, PartialEq)]
pub struct TileGrid {
    pub width: usize,
    pub height: usize,
    pub cells: Vec<Option<u32>>,
}

/// A named, freely positioned vector object with a pixel-space anchor.
#[derive(Debug, Clone, PartialEq)]
pub struct MapObject {
    pub name: String,
    pub x: i64,
    pub y: i64,
    pub shape: Shape,
}

/// The payload of a layer, by kind. Image and group layers are parsed but
/// unsupported for placement generation.
#[derive(Debug, Clone, PartialEq)]
pub enum LayerKind {
    TileGrid(TileGrid),
    ObjectSet(Vec<MapObject>),
    Image,
    Group,
}

/// A layer as it arrives from the parser, before validation.
#[derive(Debug, Clone, PartialEq)]
pub struct RawLayer {
    pub name: String,
    pub offset_x: i64,
    pub offset_y: i64,
    pub kind: LayerKind,
}

/// A whole map description as it arrives from the parser.
#[derive(Debug, Clone, PartialEq)]
pub struct RawDocument {
    pub tile_width: i64,
    pub tile_height: i64,
    pub layers: Vec<RawLayer>,
}

/// A validated layer: same data as the raw layer plus its position in
/// document order.
#[derive(Debug, Clone, PartialEq)]
pub struct Layer {
    pub name: String,
    pub index: usize,
    pub offset_x: i64,
    pub offset_y: i64,
    pub kind: LayerKind,
}

/// A validated, immutable map document. Layer order is render order.
#[derive(Debug, Clone, PartialEq)]
pub struct MapDocument {
    pub tile_width: i64,
    pub tile_height: i64,
    pub layers: Vec<Layer>,
}

/// The injected tileset-resolution collaborator: tile ids `0..tile_count`
/// resolve, all others are missing.
#[derive(Clone, Copy, Debug, PartialEq, Eq, Structural)]
pub struct TilesetTable {
    pub tile_count: u32,
}

pub open spec fn grid_wf(g: TileGrid) -> bool {
    g.cells@.len() == g.width * g.height
}

/// The grid's pixel extent stays within the coordinate bounds.
pub open spec fn grid_fits(g: TileGrid, tile_width: int, tile_height: int) -> bool {
    &&& g.width * tile_width <= COORD_BOUND
    &&& g.height * tile_height <= COORD_BOUND
}

pub open spec fn object_wf(o: MapObject) -> bool {
    &&& coord_in_bounds(o.x as int)
    &&& coord_in_bounds(o.y as int)
    &&& shape_wf(o.shape)
}

pub open spec fn objects_wf(s: Seq<MapObject>) -> bool {
    forall|i: int| 0 <= i < s.len() ==> object_wf(#[trigger] s[i])
}

pub open spec fn kind_wf(k: LayerKind, tile_width: int, tile_height: int) -> bool {
    match k {
        LayerKind::TileGrid(g) => grid_wf(g) && grid_fits(g, tile_width, tile_height),
        LayerKind::ObjectSet(objs) => objects_wf(objs@),
        LayerKind::Image => true,
        LayerKind::Group => true,
    }
}

pub open spec fn raw_layer_wf(rl: RawLayer, tile_width: int, tile_height: int) -> bool {
    &&& coord_in_bounds(rl.offset_x as int)
    &&& coord_in_bounds(rl.offset_y as int)
    &&& kind_wf(rl.kind, tile_width, tile_height)
}

/// Well-formedness of a validated layer: same conditions as for the raw
/// layer it came from.
pub open spec fn layer_wf(l: Layer, tile_width: int, tile_height: int) -> bool {
    &&& coord_in_bounds(l.offset_x as int)
    &&& coord_in_bounds(l.offset_y as int)
    &&& kind_wf(l.kind, tile_width, tile_height)
}

/// Tile dimensions are positive and bounded.
pub open spec fn dims_ok(raw: RawDocument) -> bool {
    &&& 0 < raw.tile_width <= COORD_BOUND
    &&& 0 < raw.tile_height <= COORD_BOUND
}

/// Every layer is structurally sound and the document is not oversized.
pub open spec fn structure_ok(raw: RawDocument) -> bool {
    &&& raw.layers@.len() <= MAX_LAYERS
    &&& forall|i: int|
        0 <= i < raw.layers@.len() ==> raw_layer_wf(
            #[trigger] raw.layers@[i],
            raw.tile_width as int,
            raw.tile_height as int,
        )
}

pub open spec fn grid_tiles_ok(g: TileGrid, tile_count: u32) -> bool {
    forall|c: int|
        0 <= c < g.cells@.len() ==> ((#[trigger] g.cells@[c]) matches Some(id) ==> id < tile_count)
}

/// Every referenced tile id resolves against the tileset table.
pub open spec fn tiles_ok(raw: RawDocument, tile_count: u32) -> bool {
    forall|i: int|
        0 <= i < raw.layers@.len() ==> ((#[trigger] raw.layers@[i].kind) matches
        LayerKind::TileGrid(g) ==> grid_tiles_ok(g, tile_count))
}

/// The validated layer a raw layer becomes at position `i`.
pub open spec fn indexed_layer(rl: RawLayer, i: int) -> Layer {
    Layer {
        name: rl.name,
        index: i as usize,
        offset_x: rl.offset_x,
        offset_y: rl.offset_y,
        kind: rl.kind,
    }
}

/// Invariant of a validated document.
pub open spec fn doc_wf(d: MapDocument) -> bool {
    &&& 0 < d.tile_width <= COORD_BOUND
    &&& 0 < d.tile_height <= COORD_BOUND
    &&& d.layers@.len() <= MAX_LAYERS
    &&& forall|i: int| 0 <= i < d.layers@.len() ==> (#[trigger] d.layers@[i].index) == i
    &&& forall|i: int|
        0 <= i < d.layers@.len() ==> layer_wf(
            #[trigger] d.layers@[i],
            d.tile_width as int,
            d.tile_height as int,
        )
}

pub open spec fn doc_tiles_ok(d: MapDocument, tile_count: u32) -> bool {
    forall|i: int|
        0 <= i < d.layers@.len() ==> ((#[trigger] d.layers@[i].kind) matches LayerKind::TileGrid(g)
            ==> grid_tiles_ok(g, tile_count))
}

/// MapLoader: validates a raw map description into a `MapDocument`.
pub struct MapLoader {
}

impl MapLoader {
    /// Validate `raw` against the machine bounds and the injected tileset.
    ///
    /// Fails fast, with exactly one error per failure class, in a fixed
    /// order: dimensions, then structure, then tileset resolution. On
    /// success the document holds the raw layers unchanged, in order, each
    /// stamped with its position.
    pub fn load(raw: RawDocument, tileset: &TilesetTable) -> (r: Result<MapDocument, LoadError>)
        ensures
            r == Result::<MapDocument, LoadError>::Err(LoadError::InvalidMapDimensions) <==> !dims_ok(
                raw,
            ),
            r == Result::<MapDocument, LoadError>::Err(LoadError::ParseError) <==> (dims_ok(raw)
                && !structure_ok(raw)),
            r == Result::<MapDocument, LoadError>::Err(LoadError::MissingTilesetReference) <==> (
            dims_ok(raw) && structure_ok(raw) && !tiles_ok(raw, tileset.tile_count)),
            r is Ok <==> (dims_ok(raw) && structure_ok(raw) && tiles_ok(raw, tileset.tile_count)),
            r matches Ok(d) ==> {
                &&& d.tile_width == raw.tile_width
                &&& d.tile_height == raw.tile_height
                &&& d.layers@.len() == raw.layers@.len()
                &&& forall|i: int|
                    0 <= i < raw.layers@.len() ==> #[trigger] d.layers@[i] == indexed_layer(
                        raw.layers@[i],
                        i,
                    )
                &&& doc_wf(d)
                &&& doc_tiles_ok(d, tileset.tile_count)
            },
    {
        if !(0 < raw.tile_width && raw.tile_width <= COORD_BOUND && 0 < raw.tile_height
            && raw.tile_height <= COORD_BOUND) {
            return Err(LoadError::InvalidMapDimensions);
        }
        if !Self::check_structure(&raw) {
            return Err(LoadError::ParseError);
        }
        if !Self::check_tiles(&raw, tileset) {
            return Err(LoadError::MissingTilesetReference);
        }
        let RawDocument { tile_width, tile_height, layers } = raw;
        let ghost raw_layers = layers@;
        let mut rest = layers;
        let mut out: Vec<Layer> = Vec::new();
        while rest.len() > 0
            invariant
                out@.len() + rest@.len() == raw_layers.len(),
                rest@ == raw_layers.skip(out@.len() as int),
                forall|i: int|
                    0 <= i < out@.len() ==> #[trigger] out@[i] == indexed_layer(raw_layers[i], i),
            decreases rest@.len(),
        {
            let ghost done = out@.len() as int;
            let rl = rest.remove(0);
            proof {
                assert(raw_layers.skip(done)[0] == raw_layers[done]);
                assert(rest@ =~= raw_layers.skip(done + 1));
            }
            let idx = out.len();
            out.push(
                Layer {
                    name: rl.name,
                    index: idx,
                    offset_x: rl.offset_x,
                    offset_y: rl.offset_y,
                    kind: rl.kind,
                },
            );
        }
        let d = MapDocument { tile_width, tile_height, layers: out };
        proof {
            assert forall|i: int| 0 <= i < d.layers@.len() implies layer_wf(
                #[trigger] d.layers@[i],
                d.tile_width as int,
                d.tile_height as int,
            ) by {
                assert(d.layers@[i] == indexed_layer(raw_layers[i], i));
                assert(raw_layer_wf(raw_layers[i], d.tile_width as int, d.tile_height as int));
            }
        }
        Ok(d)
    }

    /// Structural validation of every layer.
    fn check_structure(raw: &RawDocument) -> (b: bool)
        requires
            dims_ok(*raw),
        ensures
            b == structure_ok(*raw),
    {
        if raw.layers.len() > MAX_LAYERS {
            return false;
        }
        let n = raw.layers.len();
        let mut i: usize = 0;
        while i < n
            invariant
                0 <= i <= n,
                n == raw.layers@.len(),
                dims_ok(*raw),
                forall|k: int|
                    0 <= k < i ==> raw_layer_wf(
                        #[trigger] raw.layers@[k],
                        raw.tile_width as int,
                        raw.tile_height as int,
                    ),
            decreases n - i,
        {
            let rl = &raw.layers[i];
            if !(-COORD_BOUND <= rl.offset_x && rl.offset_x <= COORD_BOUND && -COORD_BOUND
                <= rl.offset_y && rl.offset_y <= COORD_BOUND) {
                return false;
            }
            if !Self::check_kind(&rl.kind, raw.tile_width, raw.tile_height) {
                return false;
            }
            i = i + 1;
        }
        true
    }

    fn check_kind(k: &LayerKind, tile_width: i64, tile_height: i64) -> (b: bool)
        requires
            0 < tile_width <= COORD_BOUND,
            0 < tile_height <= COORD_BOUND,
        ensures
            b == kind_wf(*k, tile_width as int, tile_height as int),
    {
        match k {
            LayerKind::TileGrid(g) => Self::check_grid(g, tile_width, tile_height),
            LayerKind::ObjectSet(objs) => Self::check_objects(objs),
            LayerKind::Image => true,
            LayerKind::Group => true,
        }
    }

    fn check_objects(objs: &Vec<MapObject>) -> (b: bool)
        ensures
            b == objects_wf(objs@),
    {
        let n = objs.len();
        let mut i: usize = 0;
        while i < n
            invariant
                0 <= i <= n,
                n == objs@.len(),
                forall|m: int| 0 <= m < i ==> object_wf(#[trigger] objs@[m]),
            decreases n - i,
        {
            let o = &objs[i];
            let coords_ok = -COORD_BOUND <= o.x && o.x <= COORD_BOUND && -COORD_BOUND <= o.y && o.y
                <= COORD_BOUND;
            if !coords_ok || !Self::check_shape(&o.shape) {
                proof {
                    assert(!object_wf(objs@[i as int]));
                }
                return false;
            }
            i = i + 1;
        }
        true
    }

    fn check_shape(s: &Shape) -> (b: bool)
        ensures
            b == shape_wf(*s),
    {
        match s {
            Shape::Point => true,
            Shape::Rect { width, height } => 0 <= *width && *width <= COORD_BOUND && 0 <= *height
                && *height <= COORD_BOUND,
            Shape::Ellipse { width, height } => 0 <= *width && *width <= COORD_BOUND && 0
                <= *height && *height <= COORD_BOUND,
            Shape::Polygon { points } => Self::check_points(points),
            Shape::Polyline { points } => Self::check_points(points),
        }
    }

    fn check_points(points: &Vec<crate::geom::PixelPoint>) -> (b: bool)
        ensures
            b == crate::geom::points_in_bounds(points@),
    {
        let n = points.len();
        let mut i: usize = 0;
        while i < n
            invariant
                0 <= i <= n,
                n == points@.len(),
                forall|k: int|
                    0 <= k < i ==> crate::geom::point_in_bounds(#[trigger] points@[k]),
            decreases n - i,
        {
            let p = points[i];
            if !(-COORD_BOUND <= p.x && p.x <= COORD_BOUND && -COORD_BOUND <= p.y && p.y
                <= COORD_BOUND) {
                proof {
                    assert(!crate::geom::point_in_bounds(points@[i as int]));
                }
                return false;
            }
            i = i + 1;
        }
        true
    }

    fn check_grid(g: &TileGrid, tile_width: i64, tile_height: i64) -> (b: bool)
        requires
            0 < tile_width <= COORD_BOUND,
            0 < tile_height <= COORD_BOUND,
        ensures
            b == (grid_wf(*g) && grid_fits(*g, tile_width as int, tile_height as int)),
    {
        let bound = COORD_BOUND as usize;
        if g.width > bound || g.height > bound {
            proof {
                lemma_oversized_grid(*g, tile_width as int, tile_height as int);
            }
            return false;
        }
        proof {
            assert(g.width * tile_width <= 0x1000_0000_0000_0000 && g.height * tile_height
                <= 0x1000_0000_0000_0000 && g.width * g.height <= 0x1000_0000_0000_0000)
                by (nonlinear_arith)
                requires
                    g.width <= COORD_BOUND as int,
                    g.height <= COORD_BOUND as int,
                    0 < tile_width <= COORD_BOUND,
                    0 < tile_height <= COORD_BOUND,
            ;
        }
        let w = g.width as u64;
        let h = g.height as u64;
        if !(g.cells.len() as u64 == w * h) {
            return false;
        }
        let wext = (w as i64) * tile_width;
        let hext = (h as i64) * tile_height;
        wext <= COORD_BOUND && hext <= COORD_BOUND
    }
}

/// A grid wider or taller than the coordinate bound cannot fit: its extent
/// exceeds the bound already at one pixel per tile.
proof fn lemma_oversized_grid(g: TileGrid, tile_width: int, tile_height: int)
    by (nonlinear_arith)
    requires
        0 < tile_width,
        0 < tile_height,
        g.width > COORD_BOUND as int || g.height > COORD_BOUND as int,
    ensures
        !grid_fits(g, tile_width, tile_height),
{
}

impl MapLoader {
    /// Tileset resolution for every referenced tile id.
    fn check_tiles(raw: &RawDocument, tileset: &TilesetTable) -> (b: bool)
        ensures
            b == tiles_ok(*raw, tileset.tile_count),
    {
        let n = raw.layers.len();
        let mut i: usize = 0;
        while i < n
            invariant
                0 <= i <= n,
                n == raw.layers@.len(),
                forall|k: int|
                    0 <= k < i ==> ((#[trigger] raw.layers@[k].kind) matches LayerKind::TileGrid(g)
                        ==> grid_tiles_ok(g, tileset.tile_count)),
            decreases n - i,
        {
            match &raw.layers[i].kind {
                LayerKind::TileGrid(g) => {
                    let m = g.cells.len();
                    let mut c: usize = 0;
                    while c < m
                        invariant
                            0 <= c <= m,
                            m == g.cells@.len(),
                            0 <= i < raw.layers@.len(),
                            raw.layers@[i as int].kind == LayerKind::TileGrid(*g),
                            forall|k: int|
                                0 <= k < c ==> ((#[trigger] g.cells@[k]) matches Some(id) ==> id
                                    < tileset.tile_count),
                        decreases m - c,
                    {
                        match g.cells[c] {
                            Some(id) => {
                                if id >= tileset.tile_count {
                                    proof {
                                        assert(!grid_tiles_ok(*g, tileset.tile_count));
                                        assert_by_contradiction!(!tiles_ok(
                                            *raw,
                                            tileset.tile_count,
                                        ), {
                                            assert((raw.layers@[i as int].kind) matches
                                                LayerKind::TileGrid(gg) ==> grid_tiles_ok(
                                                gg,
                                                tileset.tile_count,
                                            ));
                                        });
                                    }
                                    return false;
                                }
                            },
                            None => {},
                        }
                        c = c + 1;
                    }
                },
                LayerKind::ObjectSet(_) => {},
                LayerKind::Image => {},
                LayerKind::Group => {},
            }
            i = i + 1;
        }
        true
    }
}

} // verus!
