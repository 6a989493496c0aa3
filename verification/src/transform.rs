//! CoordinateTransformer: maps pixel-space coordinates to world-space
//! coordinates given the map's tile dimensions and the render size of one
//! tile. The y axis is flipped: the source format's origin is top-left with y
//! increasing downward, while world space has y increasing upward.

use vstd::prelude::*;

use crate::geom::{coord_in_bounds, frac_lt, Frac, GFrac, GWorld, WorldPoint, COORD_BOUND};

verus! {

/// Pure pixel-to-world coordinate mapping:
/// `world_x = (x / tile_width) * render_size`,
/// `world_y = 1 - (y / tile_height) * render_size`.
#[derive(Clone, Copy, Debug, PartialEq, Eq, Structural)]
pub struct CoordinateTransformer {
    pub tile_width: i64,
    pub tile_height: i64,
    pub render_size: Frac,
}

impl CoordinateTransformer {
    /// Tile dimensions and render size are positive and bounded, so every
    /// product in the transform fits in 64 bits.
    pub open spec fn wf(self) -> bool {
        &&& 0 < self.tile_width <= COORD_BOUND
        &&& 0 < self.tile_height <= COORD_BOUND
        &&& 0 < self.render_size.num <= COORD_BOUND
        &&& 0 < self.render_size.den <= COORD_BOUND
    }

    /// The exact rational world x coordinate of pixel x:
    /// `(x * render_num) / (tile_width * render_den)`.
    pub open spec fn spec_world_x(self, x: int) -> GFrac {
        GFrac {
            num: x * self.render_size.num,
            den: self.tile_width * self.render_size.den,
        }
    }

    /// The exact rational world y coordinate of pixel y:
    /// `1 - (y * render_num) / (tile_height * render_den)`, over the common
    /// denominator `tile_height * render_den`.
    pub open spec fn spec_world_y(self, y: int) -> GFrac {
        GFrac {
            num: self.tile_height * self.render_size.den - y * self.render_size.num,
            den: self.tile_height * self.render_size.den,
        }
    }

    pub open spec fn spec_from_pixels(self, x: int, y: int) -> GWorld {
        GWorld { x: self.spec_world_x(x), y: self.spec_world_y(y) }
    }

    /// Builds a transformer, rejecting non-positive or oversized tile
    /// dimensions and render sizes (`InvalidMapDimensions` is raised by the
    /// document loader before this is ever reached).
    pub open spec fn params_ok(tile_width: i64, tile_height: i64, render_size: Frac) -> bool {
        &&& 0 < tile_width <= COORD_BOUND
        &&& 0 < tile_height <= COORD_BOUND
        &&& 0 < render_size.num <= COORD_BOUND
        &&& 0 < render_size.den <= COORD_BOUND
    }

    pub fn new(tile_width: i64, tile_height: i64, render_size: Frac) -> (r: Option<
        CoordinateTransformer,
    >)
        ensures
            r is Some <==> Self::params_ok(tile_width, tile_height, render_size),
            r matches Some(t) ==> t == (CoordinateTransformer { tile_width, tile_height, render_size })
                && t.wf(),
    {
        if 0 < tile_width && tile_width <= COORD_BOUND && 0 < tile_height && tile_height
            <= COORD_BOUND && 0 < render_size.num && render_size.num <= COORD_BOUND && 0
            < render_size.den && render_size.den <= COORD_BOUND {
            Some(CoordinateTransformer { tile_width, tile_height, render_size })
        } else {
            None
        }
    }

    /// The transform itself. Total for well-formed transformers; the result is
    /// the exact rational given by `spec_from_pixels`.
    pub fn from_pixels(&self, x: i64, y: i64) -> (w: WorldPoint)
        requires
            self.wf(),
            coord_in_bounds(x as int),
            coord_in_bounds(y as int),
        ensures
            w@ == self.spec_from_pixels(x as int, y as int),
            w.x.wf(),
            w.y.wf(),
    {
        proof {
            lemma_transform_products_bounded(*self, x as int, y as int);
        }
        let den_x = self.tile_width * self.render_size.den;
        let den_y = self.tile_height * self.render_size.den;
        let wx = Frac { num: x * self.render_size.num, den: den_x };
        let wy = Frac { num: den_y - y * self.render_size.num, den: den_y };
        WorldPoint { x: wx, y: wy }
    }
}

/// All products formed by `from_pixels` stay well within `i64`.
proof fn lemma_transform_products_bounded(t: CoordinateTransformer, x: int, y: int)
    by (nonlinear_arith)
    requires
        t.wf(),
        coord_in_bounds(x),
        coord_in_bounds(y),
    ensures
        -0x2000_0000_0000_0000 <= x * t.render_size.num <= 0x2000_0000_0000_0000,
        -0x2000_0000_0000_0000 <= y * t.render_size.num <= 0x2000_0000_0000_0000,
        0 < t.tile_width * t.render_size.den <= 0x1000_0000_0000_0000,
        0 < t.tile_height * t.render_size.den <= 0x1000_0000_0000_0000,
{
}

/// World x strictly increases with pixel x: the transform is monotonic.
pub proof fn lemma_world_x_strictly_increasing(t: CoordinateTransformer, x1: int, x2: int)
    by (nonlinear_arith)
    requires
        t.wf(),
        x1 < x2,
    ensures
        frac_lt(t.spec_world_x(x1), t.spec_world_x(x2)),
{
}

/// World y strictly decreases as pixel y increases: the axis flip.
pub proof fn lemma_world_y_strictly_decreasing(t: CoordinateTransformer, y1: int, y2: int)
    by (nonlinear_arith)
    requires
        t.wf(),
        y1 < y2,
    ensures
        frac_lt(t.spec_world_y(y2), t.spec_world_y(y1)),
{
}

} // verus!
