//! SceneAssembler and the whole pipeline: one root "map" node, one child per
//! layer (named after it, positioned at its transformed pixel offset, tagged
//! with its z value), and one leaf grandchild per placement, named after the
//! placed object or tile. Assembly order is document order.

use vstd::prelude::*;
use vstd::string::StringExecFns;

use crate::document::{
    dims_ok, doc_wf, indexed_layer, structure_ok, tiles_ok, LoadError, MapDocument, MapLoader,
    RawDocument, TilesetTable,
};
use crate::geom::{coord_in_bounds, Frac, GFrac, GWorld, WorldPoint, COORD_BOUND};
use crate::layer::{
    kind_warnings, layer_out, warning_views, GLayerOut, GPlacement, LayerProcessor, Placement,
    ProcessedLayer, Warning,
};
use crate::transform::CoordinateTransformer;

verus! {

/// A node of the assembled scene tree: a name, a local transform (world
/// position and z), an optional placement payload (leaves only), and
/// children in document order.
#[derive(Debug, PartialEq)]
pub struct SceneNode {
    pub name: String,
    pub x: Frac,
    pub y: Frac,
    pub z: i64,
    pub placement: Option<Placement>,
    pub children: Vec<SceneNode>,
}

/// The name a placement's leaf node carries: the object's name, or the
/// `col,row` label of a tile sprite.
pub open spec fn placement_name(p: GPlacement) -> Seq<char> {
    match p {
        GPlacement::Sprite { name, .. } => name,
        GPlacement::Mesh { name, .. } => name,
        GPlacement::Ellipse { name, .. } => name,
    }
}

/// The world position a placement's leaf node is put at.
pub open spec fn placement_position(p: GPlacement) -> GWorld {
    match p {
        GPlacement::Sprite { position, .. } => position,
        GPlacement::Mesh { offset, .. } => offset,
        GPlacement::Ellipse { offset, .. } => offset,
    }
}

/// A leaf node wraps exactly one placement.
pub open spec fn leaf_ok(n: SceneNode, p: GPlacement) -> bool {
    &&& n.placement matches Some(q) && q@ == p
    &&& n.name@ == placement_name(p)
    &&& n.x@ == placement_position(p).x
    &&& n.y@ == placement_position(p).y
    &&& n.z == 0
    &&& n.children@.len() == 0
}

/// A layer node carries the layer's name, transformed offset and z value,
/// and one leaf per placement, in order.
pub open spec fn layer_node_ok(n: SceneNode, gl: GLayerOut, t: CoordinateTransformer) -> bool {
    &&& n.name@ == gl.name
    &&& n.x@ == t.spec_from_pixels(gl.offset_x, gl.offset_y).x
    &&& n.y@ == t.spec_from_pixels(gl.offset_x, gl.offset_y).y
    &&& n.z == gl.z
    &&& n.placement is None
    &&& n.children@.len() == gl.placements.len()
    &&& forall|j: int|
        0 <= j < gl.placements.len() ==> leaf_ok(#[trigger] n.children@[j], gl.placements[j])
}

/// The root node: named "map", at the origin, depth zero.
pub open spec fn scene_root_ok(n: SceneNode) -> bool {
    &&& n.name@ == "map"@
    &&& n.x@ == (GFrac { num: 0, den: 1 })
    &&& n.y@ == (GFrac { num: 0, den: 1 })
    &&& n.z == 0
    &&& n.placement is None
}

pub open spec fn layer_views(s: Seq<ProcessedLayer>) -> Seq<GLayerOut> {
    Seq::new(s.len(), |i: int| s[i]@)
}

/// The scene a sequence of processed layers assembles into.
pub open spec fn scene_of_outs_ok(n: SceneNode, outs: Seq<GLayerOut>, t: CoordinateTransformer) -> bool {
    &&& scene_root_ok(n)
    &&& n.children@.len() == outs.len()
    &&& forall|i: int|
        0 <= i < outs.len() ==> layer_node_ok(#[trigger] n.children@[i], outs[i], t)
}

/// All warnings of the first `k` processed layers, concatenated in document
/// order.
pub open spec fn outs_warnings(outs: Seq<GLayerOut>, k: int) -> Seq<crate::layer::GWarning>
    decreases k,
{
    if k <= 0 {
        Seq::empty()
    } else {
        outs_warnings(outs, k - 1) + outs[k - 1].warnings
    }
}

/// Builds one leaf node around a placement.
fn make_leaf(p: Placement) -> (n: SceneNode)
    ensures
        leaf_ok(n, p@),
{
    let (name, pos) = match &p {
        Placement::Sprite { position, name, .. } => (name.clone(), *position),
        Placement::Mesh { offset, name, .. } => (name.clone(), *offset),
        Placement::Ellipse { offset, name, .. } => (name.clone(), *offset),
    };
    SceneNode { name, x: pos.x, y: pos.y, z: 0, placement: Some(p), children: Vec::new() }
}

/// SceneAssembler: builds the scene tree from the processed layers.
#[derive(Clone, Copy, Debug)]
pub struct SceneAssembler {
    pub transformer: CoordinateTransformer,
}

impl SceneAssembler {
    /// Assemble the tree and hand back every warning gathered along the way,
    /// in document order.
    pub fn assemble(&self, layers: Vec<ProcessedLayer>) -> (r: (SceneNode, Vec<Warning>))
        requires
            self.transformer.wf(),
            forall|i: int|
                0 <= i < layers@.len() ==> coord_in_bounds(
                    (#[trigger] layers@[i]).offset_x as int,
                ) && coord_in_bounds(layers@[i].offset_y as int),
        ensures
            scene_of_outs_ok(r.0, layer_views(layers@), self.transformer),
            warning_views(r.1@) == outs_warnings(layer_views(layers@), layers@.len() as int),
    {
        let ghost orig = layers@;
        let mut rest = layers;
        let mut children: Vec<SceneNode> = Vec::new();
        let mut all_warnings: Vec<Warning> = Vec::new();
        while rest.len() > 0
            invariant
                self.transformer.wf(),
                children@.len() + rest@.len() == orig.len(),
                rest@ == orig.skip(children@.len() as int),
                forall|i: int|
                    0 <= i < orig.len() ==> coord_in_bounds((#[trigger] orig[i]).offset_x as int)
                        && coord_in_bounds(orig[i].offset_y as int),
                forall|k: int|
                    0 <= k < children@.len() ==> layer_node_ok(
                        #[trigger] children@[k],
                        orig[k]@,
                        self.transformer,
                    ),
                warning_views(all_warnings@) == outs_warnings(
                    layer_views(orig),
                    children@.len() as int,
                ),
            decreases rest@.len(),
        {
            let ghost done = children@.len() as int;
            let pl = rest.remove(0);
            proof {
                assert(orig.skip(done)[0] == orig[done]);
                assert(rest@ =~= orig.skip(done + 1));
            }
            let ProcessedLayer { name, index: _, offset_x, offset_y, z, placements, warnings } =
                pl;
            let off = self.transformer.from_pixels(offset_x, offset_y);
            let ghost porig = placements@;
            let mut prest = placements;
            let mut kids: Vec<SceneNode> = Vec::new();
            while prest.len() > 0
                invariant
                    kids@.len() + prest@.len() == porig.len(),
                    prest@ == porig.skip(kids@.len() as int),
                    forall|k: int|
                        0 <= k < kids@.len() ==> leaf_ok(#[trigger] kids@[k], porig[k]@),
                decreases prest@.len(),
            {
                let ghost pdone = kids@.len() as int;
                let p = prest.remove(0);
                proof {
                    assert(porig.skip(pdone)[0] == porig[pdone]);
                    assert(prest@ =~= porig.skip(pdone + 1));
                }
                let leaf = make_leaf(p);
                kids.push(leaf);
            }
            let node = SceneNode {
                name,
                x: off.x,
                y: off.y,
                z,
                placement: None,
                children: kids,
            };
            proof {
                assert(layer_node_ok(node, orig[done]@, self.transformer));
            }
            children.push(node);
            let ghost wold = all_warnings@;
            let mut wrest = warnings;
            let ghost worig = wrest@;
            while wrest.len() > 0
                invariant
                    all_warnings@.len() == wold.len() + worig.len() - wrest@.len(),
                    wrest@ == worig.skip((worig.len() - wrest@.len()) as int),
                    all_warnings@ =~= wold + worig.take((worig.len() - wrest@.len()) as int),
                decreases wrest@.len(),
            {
                let ghost wdone = (worig.len() - wrest@.len()) as int;
                let one = wrest.remove(0);
                proof {
                    assert(worig.skip(wdone)[0] == worig[wdone]);
                    assert(wrest@ =~= worig.skip(wdone + 1));
                    assert(wold + worig.take(wdone + 1) =~= (wold + worig.take(wdone)).push(
                        worig[wdone],
                    ));
                }
                all_warnings.push(one);
            }
            proof {
                assert(worig.take(worig.len() as int) =~= worig);
                assert(all_warnings@ =~= wold + worig);
                assert(layer_views(orig)[done].warnings == warning_views(worig));
                assert(warning_views(all_warnings@) =~= outs_warnings(
                    layer_views(orig),
                    done + 1,
                ));
            }
        }
        let root = SceneNode {
            name: String::from_str("map"),
            x: Frac { num: 0, den: 1 },
            y: Frac { num: 0, den: 1 },
            z: 0,
            placement: None,
            children,
        };
        (root, all_warnings)
    }
}

/// The transformer a raw document and render size induce.
pub open spec fn doc_transformer(raw: RawDocument, render_size: Frac) -> CoordinateTransformer {
    CoordinateTransformer {
        tile_width: raw.tile_width,
        tile_height: raw.tile_height,
        render_size,
    }
}

/// The render size of one tile is positive and bounded.
pub open spec fn render_ok(render_size: Frac) -> bool {
    &&& 0 < render_size.num <= COORD_BOUND
    &&& 0 < render_size.den <= COORD_BOUND
}

/// The scene tree a raw document loads into, pinned layer by layer,
/// placement by placement.
pub open spec fn scene_of_raw_ok(n: SceneNode, raw: RawDocument, render_size: Frac) -> bool {
    let t = doc_transformer(raw, render_size);
    &&& scene_root_ok(n)
    &&& n.children@.len() == raw.layers@.len()
    &&& forall|i: int|
        0 <= i < raw.layers@.len() ==> layer_node_ok(
            #[trigger] n.children@[i],
            layer_out(indexed_layer(raw.layers@[i], i), t),
            t,
        )
}

/// All warnings of the first `k` raw layers.
pub open spec fn raw_warnings_upto(raw: RawDocument, t: CoordinateTransformer, k: int) -> Seq<
    crate::layer::GWarning,
>
    decreases k,
{
    if k <= 0 {
        Seq::empty()
    } else {
        raw_warnings_upto(raw, t, k - 1) + kind_warnings(
            raw.layers@[k - 1].kind,
            raw.layers@[k - 1].name@,
            t,
        )
    }
}

/// The whole load: validate, process every layer, assemble the tree.
///
/// Fatal conditions abort the load with exactly one error each:
/// `InvalidMapDimensions` for bad tile dimensions or render size,
/// `ParseError` for malformed structure, `MissingTilesetReference` for an
/// unresolvable tile. On success the tree and the gathered warnings are the
/// unique results that `scene_of_raw_ok` and `raw_warnings_upto` pin down.
pub fn load_scene(raw: RawDocument, tileset: &TilesetTable, render_size: Frac) -> (r: Result<
    (SceneNode, Vec<Warning>),
    LoadError,
>)
    ensures
        r == Result::<(SceneNode, Vec<Warning>), LoadError>::Err(LoadError::InvalidMapDimensions)
            <==> !(dims_ok(raw) && render_ok(render_size)),
        r == Result::<(SceneNode, Vec<Warning>), LoadError>::Err(LoadError::ParseError) <==> (
        dims_ok(raw) && render_ok(render_size) && !structure_ok(raw)),
        r == Result::<(SceneNode, Vec<Warning>), LoadError>::Err(
            LoadError::MissingTilesetReference,
        ) <==> (dims_ok(raw) && render_ok(render_size) && structure_ok(raw) && !tiles_ok(
            raw,
            tileset.tile_count,
        )),
        r is Ok <==> (dims_ok(raw) && render_ok(render_size) && structure_ok(raw) && tiles_ok(
            raw,
            tileset.tile_count,
        )),
        r matches Ok(out) ==> scene_of_raw_ok(out.0, raw, render_size) && warning_views(out.1@)
            == raw_warnings_upto(raw, doc_transformer(raw, render_size), raw.layers@.len() as int),
{
    if !(0 < render_size.num && render_size.num <= COORD_BOUND && 0 < render_size.den
        && render_size.den <= COORD_BOUND && 0 < raw.tile_width && raw.tile_width <= COORD_BOUND
        && 0 < raw.tile_height && raw.tile_height <= COORD_BOUND) {
        return Err(LoadError::InvalidMapDimensions);
    }
    let ghost raw0 = raw;
    let t = CoordinateTransformer {
        tile_width: raw.tile_width,
        tile_height: raw.tile_height,
        render_size,
    };
    let doc = match MapLoader::load(raw, tileset) {
        Ok(d) => d,
        Err(e) => {
            return Err(e);
        },
    };
    let processor = LayerProcessor { transformer: t };
    let processed = processor.process_document(&doc);
    proof {
        assert forall|i: int| 0 <= i < processed@.len() implies coord_in_bounds(
            (#[trigger] processed@[i]).offset_x as int,
        ) && coord_in_bounds(processed@[i].offset_y as int) by {
            assert(processed@[i]@ == layer_out(doc.layers@[i], t));
            assert(crate::document::layer_wf(
                doc.layers@[i],
                doc.tile_width as int,
                doc.tile_height as int,
            ));
        }
    }
    let assembler = SceneAssembler { transformer: t };
    let ghost outs = layer_views(processed@);
    let n = processed.len();
    let (root, warnings) = assembler.assemble(processed);
    proof {
        assert forall|i: int| 0 <= i < raw0.layers@.len() implies layer_node_ok(
            #[trigger] root.children@[i],
            layer_out(indexed_layer(raw0.layers@[i], i), doc_transformer(raw0, render_size)),
            doc_transformer(raw0, render_size),
        ) by {
            assert(outs[i] == layer_out(doc.layers@[i], t));
            assert(doc.layers@[i] == indexed_layer(raw0.layers@[i], i));
        }
        lemma_outs_warnings_match(outs, raw0, t, n as int);
    }
    Ok((root, warnings))
}

/// The per-layer warning concatenations over the processed outputs and over
/// the raw layers agree.
proof fn lemma_outs_warnings_match(
    outs: Seq<GLayerOut>,
    raw: RawDocument,
    t: CoordinateTransformer,
    k: int,
)
    requires
        0 <= k <= raw.layers@.len(),
        outs.len() == raw.layers@.len(),
        forall|i: int|
            0 <= i < raw.layers@.len() ==> #[trigger] outs[i] == layer_out(
                indexed_layer(raw.layers@[i], i),
                t,
            ),
    ensures
        outs_warnings(outs, k) == raw_warnings_upto(raw, t, k),
    decreases k,
{
    if k > 0 {
        lemma_outs_warnings_match(outs, raw, t, k - 1);
    }
}

/// Field-level equality of two scene nodes: same name, transform, and
/// placement payload.
pub open spec fn node_attrs_eq(a: SceneNode, b: SceneNode) -> bool {
    &&& a.name@ == b.name@
    &&& a.x@ == b.x@
    &&& a.y@ == b.y@
    &&& a.z == b.z
    &&& placement_view_of(a) == placement_view_of(b)
}

pub open spec fn placement_view_of(n: SceneNode) -> Option<GPlacement> {
    match n.placement {
        Some(p) => Some(p@),
        None => None,
    }
}

/// Full structural equality of two assembled scene trees: identical node
/// names, counts, transforms and placement data at every level.
pub open spec fn scene_eq(a: SceneNode, b: SceneNode) -> bool {
    &&& node_attrs_eq(a, b)
    &&& a.children@.len() == b.children@.len()
    &&& forall|i: int|
        0 <= i < a.children@.len() ==> node_attrs_eq(
            #[trigger] a.children@[i],
            b.children@[i],
        ) && a.children@[i].children@.len() == b.children@[i].children@.len()
    &&& forall|i: int, j: int|
        0 <= i < a.children@.len() && 0 <= j < a.children@[i].children@.len() ==> node_attrs_eq(
            #[trigger] a.children@[i].children@[j],
            b.children@[i].children@[j],
        )
}

/// Loading the same source document twice produces two scene trees with
/// identical node names, counts, transforms and placement data: the load is
/// a deterministic function of the document.
pub proof fn lemma_load_deterministic(
    n1: SceneNode,
    n2: SceneNode,
    raw: RawDocument,
    render_size: Frac,
)
    requires
        scene_of_raw_ok(n1, raw, render_size),
        scene_of_raw_ok(n2, raw, render_size),
    ensures
        scene_eq(n1, n2),
{
    let t = doc_transformer(raw, render_size);
    assert forall|i: int| 0 <= i < n1.children@.len() implies node_attrs_eq(
        #[trigger] n1.children@[i],
        n2.children@[i],
    ) && n1.children@[i].children@.len() == n2.children@[i].children@.len() by {
        assert(layer_node_ok(n1.children@[i], layer_out(indexed_layer(raw.layers@[i], i), t), t));
        assert(layer_node_ok(n2.children@[i], layer_out(indexed_layer(raw.layers@[i], i), t), t));
    }
    assert forall|i: int, j: int|
        0 <= i < n1.children@.len() && 0 <= j < n1.children@[i].children@.len() implies
        node_attrs_eq(#[trigger] n1.children@[i].children@[j], n2.children@[i].children@[j]) by {
        let gl = layer_out(indexed_layer(raw.layers@[i], i), t);
        assert(layer_node_ok(n1.children@[i], gl, t));
        assert(layer_node_ok(n2.children@[i], gl, t));
        assert(leaf_ok(n1.children@[i].children@[j], gl.placements[j]));
        assert(leaf_ok(n2.children@[i].children@[j], gl.placements[j]));
    }
}

} // verus!
