//! Tests of the whole pipeline: loading, layer processing, z-ordering,
//! warnings, and scene assembly.

use mapscene::document::{
    LayerKind, LoadError, MapLoader, MapObject, RawDocument, RawLayer, TileGrid, TilesetTable,
};
use mapscene::geom::{Frac, PixelPoint};
use mapscene::layer::{LayerProcessor, Placement, WarnReason};
use mapscene::scene::load_scene;
use mapscene::shape::Shape;
use mapscene::transform::CoordinateTransformer;

fn pt(x: i64, y: i64) -> PixelPoint {
    PixelPoint { x, y }
}

fn unit_render() -> Frac {
    Frac::from_int(1)
}

/// A 3x2 grid with three occupied cells.
fn sample_grid() -> TileGrid {
    TileGrid {
        width: 3,
        height: 2,
        cells: vec![Some(5), None, Some(7), None, Some(9), None],
    }
}

fn grid_layer(name: &str) -> RawLayer {
    RawLayer {
        name: name.to_string(),
        offset_x: 0,
        offset_y: 0,
        kind: LayerKind::TileGrid(sample_grid()),
    }
}

fn object_layer(name: &str) -> RawLayer {
    RawLayer {
        name: name.to_string(),
        offset_x: 4,
        offset_y: 8,
        kind: LayerKind::ObjectSet(vec![
            MapObject {
                name: "wall".to_string(),
                x: 32,
                y: 16,
                shape: Shape::Rect { width: 32, height: 16 },
            },
            MapObject {
                name: "spawn".to_string(),
                x: 8,
                y: 8,
                shape: Shape::Point,
            },
            MapObject {
                name: "zone".to_string(),
                x: 0,
                y: 0,
                shape: Shape::Polygon { points: vec![pt(0, 0), pt(16, 0), pt(0, 16)] },
            },
            MapObject {
                name: "pond".to_string(),
                x: 40,
                y: 40,
                shape: Shape::Ellipse { width: 24, height: 12 },
            },
            MapObject {
                name: "path".to_string(),
                x: 0,
                y: 0,
                shape: Shape::Polyline { points: vec![pt(0, 0), pt(5, 5)] },
            },
            MapObject {
                name: "sliver".to_string(),
                x: 0,
                y: 0,
                shape: Shape::Polygon { points: vec![pt(0, 0), pt(2, 2), pt(4, 4)] },
            },
        ]),
    }
}

fn sample_raw() -> RawDocument {
    RawDocument {
        tile_width: 16,
        tile_height: 16,
        layers: vec![
            grid_layer("ground"),
            object_layer("objects"),
            RawLayer {
                name: "backdrop".to_string(),
                offset_x: 0,
                offset_y: 0,
                kind: LayerKind::Image,
            },
        ],
    }
}

fn tileset() -> TilesetTable {
    TilesetTable { tile_count: 100 }
}

#[test]
fn loader_assigns_indices_in_document_order() {
    let doc = MapLoader::load(sample_raw(), &tileset()).unwrap();
    assert_eq!(doc.layers.len(), 3);
    for (i, layer) in doc.layers.iter().enumerate() {
        assert_eq!(layer.index, i);
    }
    assert_eq!(doc.layers[0].name, "ground");
    assert_eq!(doc.layers[2].name, "backdrop");
}

#[test]
fn loader_rejects_zero_tile_dimensions() {
    let mut raw = sample_raw();
    raw.tile_width = 0;
    assert_eq!(
        MapLoader::load(raw, &tileset()),
        Err(LoadError::InvalidMapDimensions)
    );
}

#[test]
fn loader_rejects_malformed_grid() {
    let mut raw = sample_raw();
    // Grid claims 3x2 but carries five cells.
    raw.layers[0].kind = LayerKind::TileGrid(TileGrid {
        width: 3,
        height: 2,
        cells: vec![Some(5), None, Some(7), None, Some(9)],
    });
    assert_eq!(MapLoader::load(raw, &tileset()), Err(LoadError::ParseError));
}

#[test]
fn loader_rejects_unresolvable_tile() {
    let raw = sample_raw();
    // Tile ids go up to 9; a table of 7 cannot resolve them all.
    assert_eq!(
        MapLoader::load(raw, &TilesetTable { tile_count: 7 }),
        Err(LoadError::MissingTilesetReference)
    );
}

#[test]
fn tile_grid_emits_one_sprite_per_occupied_cell() {
    let t = CoordinateTransformer::new(16, 16, unit_render()).unwrap();
    let processor = LayerProcessor { transformer: t };
    let grid = sample_grid();
    let placements = processor.process_tile_grid(&grid);
    // Three occupied cells, three sprites; empty cells emit nothing.
    assert_eq!(placements.len(), 3);
    match &placements[0] {
        Placement::Sprite { tile_id, position, name } => {
            assert_eq!(*tile_id, 5);
            assert_eq!(name, "0,0");
            assert!(position.x.value_eq(&Frac { num: 0, den: 1 }));
            assert!(position.y.value_eq(&Frac { num: 1, den: 1 }));
        },
        other => panic!("expected a sprite, got {:?}", other),
    }
    match &placements[1] {
        Placement::Sprite { tile_id, position, name } => {
            assert_eq!(*tile_id, 7);
            assert_eq!(name, "2,0");
            assert!(position.x.value_eq(&Frac { num: 2, den: 1 }));
        },
        other => panic!("expected a sprite, got {:?}", other),
    }
    match &placements[2] {
        Placement::Sprite { tile_id, position, name } => {
            assert_eq!(*tile_id, 9);
            assert_eq!(name, "1,1");
            assert!(position.y.value_eq(&Frac { num: 0, den: 1 }));
        },
        other => panic!("expected a sprite, got {:?}", other),
    }
}

#[test]
fn object_layer_placements_and_warnings() {
    let t = CoordinateTransformer::new(16, 16, unit_render()).unwrap();
    let processor = LayerProcessor { transformer: t };
    let objects = match object_layer("objects").kind {
        LayerKind::ObjectSet(objs) => objs,
        _ => unreachable!(),
    };
    let (placements, warnings) = processor.process_objects(&objects);
    // wall (rect), spawn (point), zone (polygon) and pond (ellipse) place;
    // path (polyline) and sliver (collinear polygon) are skipped.
    assert_eq!(placements.len(), 4);
    match &placements[0] {
        Placement::Mesh { vertices, triangles, name, .. } => {
            assert_eq!(name, "wall");
            assert_eq!(vertices.len(), 4);
            assert_eq!(triangles.len(), 2);
        },
        other => panic!("expected a mesh, got {:?}", other),
    }
    match &placements[3] {
        Placement::Ellipse { rx, ry, name, .. } => {
            assert_eq!(name, "pond");
            assert_eq!((*rx, *ry), (24, 12));
        },
        other => panic!("expected an ellipse, got {:?}", other),
    }
    assert_eq!(warnings.len(), 2);
    assert_eq!(warnings[0].name, "path");
    assert_eq!(warnings[0].reason, WarnReason::UnsupportedShape);
    assert_eq!(warnings[1].name, "sliver");
    assert_eq!(warnings[1].reason, WarnReason::DegeneratePolygon);
}

#[test]
fn z_values_step_by_one_hundred_in_document_order() {
    let (root, _) = load_scene(sample_raw(), &tileset(), unit_render()).unwrap();
    assert_eq!(root.children.len(), 3);
    assert_eq!(root.children[0].z, 100);
    assert_eq!(root.children[1].z, 200);
    assert_eq!(root.children[2].z, 300);
    assert!(root.children[0].z < root.children[1].z);
    assert!(root.children[1].z < root.children[2].z);
}

#[test]
fn scene_structure_matches_document() {
    let (root, warnings) = load_scene(sample_raw(), &tileset(), unit_render()).unwrap();
    assert_eq!(root.name, "map");
    assert!(root.placement.is_none());
    let ground = &root.children[0];
    assert_eq!(ground.name, "ground");
    assert_eq!(ground.children.len(), 3);
    assert_eq!(ground.children[0].name, "0,0");
    assert!(ground.children[0].placement.is_some());
    assert!(ground.children[0].children.is_empty());
    let objects = &root.children[1];
    assert_eq!(objects.name, "objects");
    assert_eq!(objects.children.len(), 4);
    assert_eq!(objects.children[0].name, "wall");
    assert_eq!(objects.children[3].name, "pond");
    // The layer node sits at the transformed pixel offset (4, 8).
    assert!(objects.x.value_eq(&Frac { num: 4, den: 16 }));
    assert!(objects.y.value_eq(&Frac { num: 8, den: 16 }));
    let backdrop = &root.children[2];
    assert_eq!(backdrop.name, "backdrop");
    assert!(backdrop.children.is_empty());
    // path + sliver from the object layer, plus the unsupported image layer.
    assert_eq!(warnings.len(), 3);
    assert_eq!(warnings[2].name, "backdrop");
    assert_eq!(warnings[2].reason, WarnReason::UnsupportedLayerKind);
}

#[test]
fn loading_twice_builds_identical_trees() {
    let first = load_scene(sample_raw(), &tileset(), unit_render()).unwrap();
    let second = load_scene(sample_raw(), &tileset(), unit_render()).unwrap();
    assert_eq!(first.0, second.0);
    assert_eq!(first.1, second.1);
}

#[test]
fn bad_render_size_is_rejected() {
    let raw = sample_raw();
    assert_eq!(
        load_scene(raw, &tileset(), Frac { num: 0, den: 1 }),
        Err(LoadError::InvalidMapDimensions)
    );
}

#[test]
fn empty_document_loads_to_bare_root() {
    let raw = RawDocument { tile_width: 16, tile_height: 16, layers: Vec::new() };
    let (root, warnings) = load_scene(raw, &tileset(), unit_render()).unwrap();
    assert_eq!(root.name, "map");
    assert!(root.children.is_empty());
    assert!(warnings.is_empty());
}
