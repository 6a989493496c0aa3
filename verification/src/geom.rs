//! Planar geometry primitives: integer pixel-space points, exact rational
//! world-space coordinates, and signed-area machinery for polygons.

use vstd::prelude::*;

verus! {

/// All pixel-space coordinates, tile dimensions and render-size components
/// handled by this library lie within `[-COORD_BOUND, COORD_BOUND]`, so that
/// every product the pipeline forms fits comfortably in the machine integers.
pub const COORD_BOUND: i64 = 0x4000_0000;

/// A point in pixel space (the source document's coordinate system:
/// origin top-left, y increasing downward).
#[derive(Clone, Copy, Debug, PartialEq, Eq, Structural)]
pub struct PixelPoint {
    pub x: i64,
    pub y: i64,
}

/// An exact rational scalar: `num / den`, with `den > 0`.
/// World-space coordinates are rationals because they divide pixel
/// coordinates by the map's tile dimensions.
#[derive(Clone, Copy, Debug, PartialEq, Eq, Structural)]
pub struct Frac {
    pub num: i64,
    pub den: i64,
}

/// Ghost counterpart of `Frac` over unbounded integers.
pub ghost struct GFrac {
    pub num: int,
    pub den: int,
}

impl View for Frac {
    type V = GFrac;

    open spec fn view(&self) -> GFrac {
        GFrac { num: self.num as int, den: self.den as int }
    }
}

/// A point in world space (y increasing upward), with exact rational
/// coordinates.
#[derive(Clone, Copy, Debug, PartialEq, Eq, Structural)]
pub struct WorldPoint {
    pub x: Frac,
    pub y: Frac,
}

/// Ghost counterpart of `WorldPoint`.
pub ghost struct GWorld {
    pub x: GFrac,
    pub y: GFrac,
}

impl View for WorldPoint {
    type V = GWorld;

    open spec fn view(&self) -> GWorld {
        GWorld { x: self.x@, y: self.y@ }
    }
}

pub open spec fn frac_wf(f: GFrac) -> bool {
    f.den > 0
}

/// Value order on rationals with positive denominators, by cross-multiplication.
pub open spec fn frac_lt(a: GFrac, b: GFrac) -> bool {
    a.num * b.den < b.num * a.den
}

/// Value equality on rationals with positive denominators.
pub open spec fn frac_eq_val(a: GFrac, b: GFrac) -> bool {
    a.num * b.den == b.num * a.den
}

pub open spec fn coord_in_bounds(v: int) -> bool {
    -(COORD_BOUND as int) <= v <= COORD_BOUND as int
}

pub open spec fn point_in_bounds(p: PixelPoint) -> bool {
    coord_in_bounds(p.x as int) && coord_in_bounds(p.y as int)
}

pub open spec fn points_in_bounds(s: Seq<PixelPoint>) -> bool {
    forall|i: int| 0 <= i < s.len() ==> #[trigger] point_in_bounds(s[i])
}

/// Product of two 64-bit values, computed exactly in 128 bits.
fn mul_wide(a: i64, b: i64) -> (r: i128)
    ensures
        r == (a as int) * (b as int),
{
    proof {
        assert((a as int) * (b as int) <= 0x4000_0000_0000_0000_0000_0000_0000_0000
            && (a as int) * (b as int) >= -0x4000_0000_0000_0000_0000_0000_0000_0000)
            by (nonlinear_arith)
            requires
                -0x8000_0000_0000_0000 <= a as int <= 0x7FFF_FFFF_FFFF_FFFF,
                -0x8000_0000_0000_0000 <= b as int <= 0x7FFF_FFFF_FFFF_FFFF,
        ;
    }
    (a as i128) * (b as i128)
}

impl Frac {
    pub open spec fn wf(self) -> bool {
        frac_wf(self@)
    }

    /// Whole number as a rational.
    pub fn from_int(v: i64) -> (r: Frac)
        ensures
            r@ == (GFrac { num: v as int, den: 1 }),
    {
        Frac { num: v, den: 1 }
    }

    /// Exact value equality (`self == other` as rational numbers).
    pub fn value_eq(&self, other: &Frac) -> (r: bool)
        requires
            self.wf(),
            other.wf(),
        ensures
            r == frac_eq_val(self@, other@),
    {
        mul_wide(self.num, other.den) == mul_wide(other.num, self.den)
    }

    /// Exact value order (`self < other` as rational numbers).
    pub fn value_lt(&self, other: &Frac) -> (r: bool)
        requires
            self.wf(),
            other.wf(),
        ensures
            r == frac_lt(self@, other@),
    {
        mul_wide(self.num, other.den) < mul_wide(other.num, self.den)
    }
}

/// Twice the signed area contribution of the directed edge `p -> q`
/// (one term of the shoelace formula).
pub open spec fn edge_term(p: PixelPoint, q: PixelPoint) -> int {
    p.x * q.y - q.x * p.y
}

/// Twice the signed area of the triangle `a, b, c`.
pub open spec fn cross3(a: PixelPoint, b: PixelPoint, c: PixelPoint) -> int {
    (b.x - a.x) * (c.y - a.y) - (c.x - a.x) * (b.y - a.y)
}

/// Sum of `edge_term` over the open chain `s[0] -> s[1] -> ... -> s[len-1]`.
pub open spec fn chain_sum(s: Seq<PixelPoint>) -> int
    decreases s.len(),
{
    if s.len() < 2 {
        0
    } else {
        chain_sum(s.drop_last()) + edge_term(s[s.len() - 2], s[s.len() - 1])
    }
}

/// Twice the signed area of the closed polygon `s` (shoelace formula).
pub open spec fn polygon_area2(s: Seq<PixelPoint>) -> int {
    if s.len() < 3 {
        0
    } else {
        chain_sum(s) + edge_term(s.last(), s[0])
    }
}

/// The doubled triangle area decomposes into shoelace edge terms.
proof fn lemma_cross3_edges(a: PixelPoint, b: PixelPoint, c: PixelPoint)
    by (nonlinear_arith)
    ensures
        cross3(a, b, c) == edge_term(a, b) + edge_term(b, c) - edge_term(a, c),
{
}

/// `chain_sum` of a concatenation splits into the two chains plus the
/// connecting edge.
proof fn lemma_chain_sum_concat(a: Seq<PixelPoint>, b: Seq<PixelPoint>)
    requires
        a.len() >= 1,
    ensures
        chain_sum(a + b) == chain_sum(a) + chain_sum(b) + if b.len() >= 1 {
            edge_term(a.last(), b[0])
        } else {
            0
        },
    decreases b.len(),
{
    if b.len() == 0 {
        assert(a + b =~= a);
    } else if b.len() == 1 {
        assert((a + b).drop_last() =~= a);
        assert(chain_sum(a + b) == chain_sum(a) + edge_term(a.last(), b[0]));
    } else {
        let ab = a + b;
        assert(ab.drop_last() =~= a + b.drop_last());
        lemma_chain_sum_concat(a, b.drop_last());
        assert(ab[ab.len() - 2] == b[b.len() - 2]);
        assert(ab[ab.len() - 1] == b[b.len() - 1]);
    }
}

/// Removing an interior vertex `j` from a closed polygon removes exactly the
/// doubled area of the triangle at `j`: the heart of ear-clipping.
pub proof fn lemma_area2_remove(s: Seq<PixelPoint>, j: int)
    requires
        s.len() >= 4,
        1 <= j <= s.len() - 2,
    ensures
        polygon_area2(s) == cross3(s[j - 1], s[j], s[j + 1]) + polygon_area2(s.remove(j)),
{
    let n = s.len() as int;
    let a = s.take(j);
    let m = s.subrange(j, j + 1);
    let b = s.skip(j + 1);
    assert(s =~= a + m + b);
    let r = s.remove(j);
    assert(r =~= a + b);
    assert(a.len() == j && m.len() == 1 && b.len() == n - j - 1);
    assert(a.last() == s[j - 1]);
    assert(b[0] == s[j + 1]);
    assert(m[0] == s[j]);
    // chain_sum(s) == chain_sum(a) + chain_sum(b) + e(s[j-1], s[j]) + e(s[j], s[j+1])
    lemma_chain_sum_concat(a + m, b);
    lemma_chain_sum_concat(a, m);
    assert((a + m).last() == s[j]);
    assert(chain_sum(a + m) == chain_sum(a) + edge_term(s[j - 1], s[j]));
    assert(chain_sum(s) == chain_sum(a) + chain_sum(b) + edge_term(s[j - 1], s[j]) + edge_term(
        s[j],
        s[j + 1],
    ));
    // chain_sum(r) == chain_sum(a) + chain_sum(b) + e(s[j-1], s[j+1])
    lemma_chain_sum_concat(a, b);
    assert(chain_sum(r) == chain_sum(a) + chain_sum(b) + edge_term(s[j - 1], s[j + 1]));
    // closing edges agree
    assert(r.last() == s.last());
    assert(r[0] == s[0]);
    lemma_cross3_edges(s[j - 1], s[j], s[j + 1]);
    if r.len() < 3 {
        // n == 4 and removal leaves 3 points, so this cannot happen
        assert(r.len() == n - 1 >= 3);
    }
}

/// A closed triangle's shoelace area is its `cross3`.
pub proof fn lemma_area2_triangle(s: Seq<PixelPoint>)
    requires
        s.len() == 3,
    ensures
        polygon_area2(s) == cross3(s[0], s[1], s[2]),
{
    let t2 = s.drop_last();
    assert(t2.len() == 2 && t2[0] == s[0] && t2[1] == s[1]);
    let t1 = t2.drop_last();
    assert(t1.len() == 1);
    assert(chain_sum(t1) == 0);
    assert(chain_sum(t2) == edge_term(s[0], s[1]));
    assert(chain_sum(s) == edge_term(s[0], s[1]) + edge_term(s[1], s[2]));
    lemma_cross3_edges(s[0], s[1], s[2]);
    assert(edge_term(s[2], s[0]) == -edge_term(s[0], s[2])) by (nonlinear_arith);
}

/// Every shoelace edge term of a coordinate-bounded polygon is small.
pub proof fn lemma_edge_term_bound(p: PixelPoint, q: PixelPoint)
    by (nonlinear_arith)
    requires
        point_in_bounds(p),
        point_in_bounds(q),
    ensures
        -0x2000_0000_0000_0000 <= edge_term(p, q) <= 0x2000_0000_0000_0000,
{
}

} // verus!
