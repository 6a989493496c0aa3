//! Map-ingestion pipeline: loads a grid+vector map description (tile layers
//! of indexed cells plus object layers of free-form vector shapes), converts
//! pixel-space coordinates to exact rational world-space coordinates,
//! triangulates object geometry by ear clipping, and assembles a scene tree
//! with deterministic z-ordering.
//!
//! The stages, leaf first: `transform` (CoordinateTransformer), `shape`
//! (ShapeExtractor), `mesh` (MeshBuilder), `document` (MapLoader and the
//! validated document model), `layer` (LayerProcessor), and `scene`
//! (SceneAssembler and the whole load). `geom` holds the planar geometry the
//! stages share, and `text` the decimal labels of grid cells.
//!
//! Reading the source bytes and parsing them into the raw document is the
//! caller's business; the pipeline itself is a pure batch transform, and
//! loading the same document twice builds identical trees
//! (`scene::lemma_load_deterministic`).

pub mod document;
pub mod geom;
pub mod layer;
pub mod mesh;
pub mod scene;
pub mod shape;
pub mod text;
pub mod transform;
