//! MeshBuilder: ear-clipping triangulation of a single simple polygon
//! contour into a triangle index buffer. The procedure is deterministic, and
//! it always emits exactly `n - 2` triangles whose doubled signed areas sum to
//! the doubled signed area of the input polygon.

use vstd::prelude::*;

use crate::geom::{
    chain_sum, cross3, lemma_area2_remove, lemma_area2_triangle, lemma_edge_term_bound,
    point_in_bounds, points_in_bounds, polygon_area2, PixelPoint,
};

verus! {

/// Failure of the mesh builder: the contour has fewer than three vertices or
/// zero signed area, so it bounds no triangle.
#[derive(Clone, Copy, Debug, PartialEq, Eq, Structural)]
pub enum MeshError {
    DegeneratePolygon,
}

/// One triangle of the output buffer, as indices into the input vertex list.
#[derive(Clone, Copy, Debug, PartialEq, Eq, Structural)]
pub struct Triangle {
    pub a: usize,
    pub b: usize,
    pub c: usize,
}

/// The indices of a triangle are in range and pairwise distinct.
pub open spec fn tri_valid(t: Triangle, n: int) -> bool {
    &&& t.a < n
    &&& t.b < n
    &&& t.c < n
    &&& t.a != t.b
    &&& t.b != t.c
    &&& t.a != t.c
}

/// Doubled signed area of one output triangle.
pub open spec fn tri_cross(t: Triangle, pts: Seq<PixelPoint>) -> int {
    cross3(pts[t.a as int], pts[t.b as int], pts[t.c as int])
}

/// Sum of the doubled signed areas of a triangle buffer.
pub open spec fn tri_area2_sum(ts: Seq<Triangle>, pts: Seq<PixelPoint>) -> int
    decreases ts.len(),
{
    if ts.len() == 0 {
        0
    } else {
        tri_cross(ts[0], pts) + tri_area2_sum(ts.skip(1), pts)
    }
}

/// `+1` for counter-clockwise input, `-1` for clockwise.
pub open spec fn orientation(pts: Seq<PixelPoint>) -> int {
    if polygon_area2(pts) >= 0 {
        1
    } else {
        -1
    }
}

/// The still-unclipped vertex indices, in their original cyclic order.
pub open spec fn act_wf(act: Seq<usize>, n: int) -> bool {
    &&& forall|k: int| 0 <= k < act.len() ==> #[trigger] (act[k] as int) < n
    &&& forall|k1: int, k2: int| 0 <= k1 < k2 < act.len() ==> act[k1] < act[k2]
}

/// The sub-polygon formed by the still-unclipped vertices.
pub open spec fn sub_poly(pts: Seq<PixelPoint>, act: Seq<usize>) -> Seq<PixelPoint> {
    Seq::new(act.len(), |k: int| pts[act[k] as int])
}

/// `p` lies inside or on the triangle `a b c` (oriented by `o`).
pub open spec fn in_tri(p: PixelPoint, a: PixelPoint, b: PixelPoint, c: PixelPoint, o: int) -> bool {
    &&& o * cross3(a, b, p) >= 0
    &&& o * cross3(b, c, p) >= 0
    &&& o * cross3(c, a, p) >= 0
}

/// Position `j` of the active list is an ear: the corner there is strictly
/// convex (with respect to the input polygon's orientation) and no other
/// active vertex lies inside or on its triangle.
pub open spec fn is_ear(pts: Seq<PixelPoint>, act: Seq<usize>, j: int) -> bool {
    let o = orientation(pts);
    let a = pts[act[j - 1] as int];
    let b = pts[act[j] as int];
    let c = pts[act[j + 1] as int];
    &&& o * cross3(a, b, c) > 0
    &&& forall|k: int|
        0 <= k < act.len() && k != j - 1 && k != j && k != j + 1 ==> !in_tri(
            pts[#[trigger] act[k] as int],
            a,
            b,
            c,
            o,
        )
}

/// First interior ear position at or after `j`; position 1 if none exists
/// (self-intersecting input is undefined behaviour upstream, so the fallback
/// only keeps the procedure total and deterministic).
pub open spec fn find_clip_from(pts: Seq<PixelPoint>, act: Seq<usize>, j: int) -> int
    decreases act.len() - j,
{
    if j < 1 || j >= act.len() - 1 {
        1
    } else if is_ear(pts, act, j) {
        j
    } else {
        find_clip_from(pts, act, j + 1)
    }
}

pub open spec fn find_clip(pts: Seq<PixelPoint>, act: Seq<usize>) -> int {
    find_clip_from(pts, act, 1)
}

/// The clip position, clamped to the interior of the active list; the clamp
/// never fires (the search already returns an interior position) but keeps
/// the clipping procedure manifestly well defined.
pub open spec fn clip_pos(pts: Seq<PixelPoint>, act: Seq<usize>) -> int {
    let j = find_clip(pts, act);
    if 1 <= j <= act.len() - 2 {
        j
    } else {
        1
    }
}

/// The triangle clipped at position `j` of the active list.
pub open spec fn tri_at(act: Seq<usize>, j: int) -> Triangle {
    Triangle { a: act[j - 1], b: act[j], c: act[j + 1] }
}

/// The whole deterministic clipping procedure, as a function of the input.
pub open spec fn clip_all(pts: Seq<PixelPoint>, act: Seq<usize>) -> Seq<Triangle>
    decreases act.len(),
{
    if act.len() < 3 {
        Seq::empty()
    } else if act.len() == 3 {
        seq![Triangle { a: act[0], b: act[1], c: act[2] }]
    } else {
        let j = clip_pos(pts, act);
        seq![tri_at(act, j)] + clip_all(pts, act.remove(j))
    }
}

pub open spec fn full_range(n: int) -> Seq<usize> {
    Seq::new(n as nat, |k: int| k as usize)
}

/// What `triangulate` returns on a non-degenerate contour.
pub open spec fn spec_triangulate(pts: Seq<PixelPoint>) -> Seq<Triangle> {
    clip_all(pts, full_range(pts.len() as int))
}

/// Removal keeps the active list sorted, unique and in range.
proof fn lemma_remove_preserves_act_wf(act: Seq<usize>, j: int, n: int)
    requires
        act_wf(act, n),
        0 <= j < act.len(),
    ensures
        act_wf(act.remove(j), n),
{
    let r = act.remove(j);
    assert forall|k: int| 0 <= k < r.len() implies #[trigger] (r[k] as int) < n by {
        if k < j {
            assert(r[k] == act[k]);
        } else {
            assert(r[k] == act[k + 1]);
        }
    }
    assert forall|k1: int, k2: int| 0 <= k1 < k2 < r.len() implies r[k1] < r[k2] by {
        let a1 = if k1 < j { k1 } else { k1 + 1 };
        let a2 = if k2 < j { k2 } else { k2 + 1 };
        assert(r[k1] == act[a1]);
        assert(r[k2] == act[a2]);
        assert(a1 < a2);
    }
}

/// Ear clipping always emits exactly `len - 2` triangles.
pub proof fn lemma_clip_all_count(pts: Seq<PixelPoint>, act: Seq<usize>)
    requires
        act.len() >= 3,
    ensures
        clip_all(pts, act).len() == act.len() - 2,
    decreases act.len(),
{
    if act.len() == 3 {
    } else {
        let j = clip_pos(pts, act);
        lemma_clip_all_count(pts, act.remove(j));
    }
}

/// Every emitted triangle has in-range, pairwise distinct indices.
pub proof fn lemma_clip_all_valid(pts: Seq<PixelPoint>, act: Seq<usize>, n: int)
    requires
        act_wf(act, n),
        act.len() >= 3,
    ensures
        forall|k: int|
            0 <= k < clip_all(pts, act).len() ==> tri_valid(#[trigger] clip_all(pts, act)[k], n),
    decreases act.len(),
{
    if act.len() == 3 {
    } else {
        let j = clip_pos(pts, act);
        lemma_remove_preserves_act_wf(act, j, n);
        lemma_clip_all_valid(pts, act.remove(j), n);
        let ts = clip_all(pts, act);
        let rest = clip_all(pts, act.remove(j));
        assert(tri_valid(tri_at(act, j), n));
        assert forall|k: int| 0 <= k < ts.len() implies tri_valid(#[trigger] ts[k], n) by {
            if k > 0 {
                assert(ts[k] == rest[k - 1]);
            }
        }
    }
}

/// The doubled areas of the emitted triangles sum exactly to the doubled
/// signed area of the (sub-)polygon being clipped.
pub proof fn lemma_clip_all_area(pts: Seq<PixelPoint>, act: Seq<usize>, n: int)
    requires
        act_wf(act, n),
        n == pts.len(),
        act.len() >= 3,
    ensures
        tri_area2_sum(clip_all(pts, act), pts) == polygon_area2(sub_poly(pts, act)),
    decreases act.len(),
{
    let s = sub_poly(pts, act);
    if act.len() == 3 {
        lemma_area2_triangle(s);
        let ts = clip_all(pts, act);
        assert(ts.len() == 1);
        assert(ts.skip(1).len() == 0);
        assert(tri_area2_sum(ts.skip(1), pts) == 0);
        assert(tri_area2_sum(ts, pts) == tri_cross(ts[0], pts));
        assert(tri_cross(ts[0], pts) == cross3(s[0], s[1], s[2]));
    } else {
        let j = clip_pos(pts, act);
        lemma_remove_preserves_act_wf(act, j, n);
        lemma_area2_remove(s, j);
        assert(sub_poly(pts, act.remove(j)) =~= s.remove(j));
        lemma_clip_all_area(pts, act.remove(j), n);
        let t = tri_at(act, j);
        let rest = clip_all(pts, act.remove(j));
        let ts = clip_all(pts, act);
        assert(ts == seq![t] + rest);
        assert(ts[0] == t);
        assert(ts.skip(1) =~= rest);
        assert(tri_cross(t, pts) == cross3(s[j - 1], s[j], s[j + 1]));
    }
}

/// Exact doubled triangle area, in 128-bit arithmetic.
fn cross3_exec(a: PixelPoint, b: PixelPoint, c: PixelPoint) -> (r: i128)
    requires
        point_in_bounds(a),
        point_in_bounds(b),
        point_in_bounds(c),
    ensures
        r == cross3(a, b, c),
{
    proof {
        assert((b.x - a.x) * (c.y - a.y) <= 0x4000_0000_0000_0000 && (b.x - a.x) * (c.y - a.y)
            >= -0x4000_0000_0000_0000 && (c.x - a.x) * (b.y - a.y) <= 0x4000_0000_0000_0000 && (c.x
            - a.x) * (b.y - a.y) >= -0x4000_0000_0000_0000) by (nonlinear_arith)
            requires
                point_in_bounds(a),
                point_in_bounds(b),
                point_in_bounds(c),
        ;
    }
    let bax = b.x as i128 - a.x as i128;
    let bay = b.y as i128 - a.y as i128;
    let cax = c.x as i128 - a.x as i128;
    let cay = c.y as i128 - a.y as i128;
    bax * cay - cax * bay
}

/// Exact doubled signed polygon area (shoelace), in 128-bit arithmetic.
pub fn polygon_area2_exec(pts: &Vec<PixelPoint>) -> (r: i128)
    requires
        points_in_bounds(pts@),
    ensures
        r == polygon_area2(pts@),
{
    let n = pts.len();
    if n < 3 {
        return 0i128;
    }
    let mut acc: i128 = 0;
    let mut i: usize = 1;
    while i < n
        invariant
            1 <= i <= n,
            n == pts@.len(),
            points_in_bounds(pts@),
            acc == chain_sum(pts@.take(i as int)),
            -(i as int - 1) * 0x2000_0000_0000_0000 <= acc <= (i as int - 1)
                * 0x2000_0000_0000_0000,
        decreases n - i,
    {
        let p = pts[i - 1];
        let q = pts[i];
        proof {
            assert(point_in_bounds(pts@[i as int - 1]));
            assert(point_in_bounds(pts@[i as int]));
            lemma_edge_term_bound(p, q);
            let t = pts@.take(i as int + 1);
            assert(t.drop_last() =~= pts@.take(i as int));
            assert(t[t.len() - 2] == p && t[t.len() - 1] == q);
        }
        let e = mul_wide_pt(p.x, q.y) - mul_wide_pt(q.x, p.y);
        acc = acc + e;
        i = i + 1;
    }
    proof {
        assert(pts@.take(n as int) =~= pts@);
        assert(point_in_bounds(pts@[n - 1]));
        assert(point_in_bounds(pts@[0]));
        lemma_edge_term_bound(pts@[n - 1], pts@[0]);
    }
    let p = pts[n - 1];
    let q = pts[0];
    let e = mul_wide_pt(p.x, q.y) - mul_wide_pt(q.x, p.y);
    acc + e
}

/// Product of two bounded coordinates, computed exactly.
fn mul_wide_pt(a: i64, b: i64) -> (r: i128)
    requires
        crate::geom::coord_in_bounds(a as int),
        crate::geom::coord_in_bounds(b as int),
    ensures
        r == (a as int) * (b as int),
{
    proof {
        assert((a as int) * (b as int) <= 0x1000_0000_0000_0000 && (a as int) * (b as int)
            >= -0x1000_0000_0000_0000) by (nonlinear_arith)
            requires
                crate::geom::coord_in_bounds(a as int),
                crate::geom::coord_in_bounds(b as int),
        ;
    }
    (a as i128) * (b as i128)
}

/// Ear test for position `j` of the active list.
fn is_ear_exec(pts: &Vec<PixelPoint>, act: &Vec<usize>, j: usize, o_pos: bool) -> (r: bool)
    requires
        points_in_bounds(pts@),
        act_wf(act@, pts@.len() as int),
        1 <= j && j + 1 < act@.len(),
        o_pos == (polygon_area2(pts@) >= 0),
    ensures
        r == is_ear(pts@, act@, j as int),
{
    let ghost o = orientation(pts@);
    let n = act.len();
    let a = pts[act[j - 1]];
    let b = pts[act[j]];
    let c = pts[act[j + 1]];
    let corner = cross3_exec(a, b, c);
    let convex = if o_pos {
        corner > 0
    } else {
        corner < 0
    };
    proof {
        assert(convex == (o * cross3(a, b, c) > 0));
    }
    if !convex {
        return false;
    }
    let mut k: usize = 0;
    while k < n
        invariant
            0 <= k <= n,
            n == act@.len(),
            points_in_bounds(pts@),
            act_wf(act@, pts@.len() as int),
            1 <= j && j + 1 < act@.len(),
            o_pos == (polygon_area2(pts@) >= 0),
            o == orientation(pts@),
            a == pts@[act@[j as int - 1] as int],
            b == pts@[act@[j as int] as int],
            c == pts@[act@[j as int + 1] as int],
            forall|m: int|
                0 <= m < k && m != j - 1 && m != j && m != j + 1 ==> !in_tri(
                    pts@[#[trigger] act@[m] as int],
                    a,
                    b,
                    c,
                    o,
                ),
        decreases n - k,
    {
        if k != j - 1 && k != j && k != j + 1 {
            let p = pts[act[k]];
            let c1 = cross3_exec(a, b, p);
            let c2 = cross3_exec(b, c, p);
            let c3 = cross3_exec(c, a, p);
            let inside = if o_pos {
                c1 >= 0 && c2 >= 0 && c3 >= 0
            } else {
                c1 <= 0 && c2 <= 0 && c3 <= 0
            };
            proof {
                assert(inside == in_tri(p, a, b, c, o));
            }
            if inside {
                return false;
            }
        }
        k = k + 1;
    }
    true
}

/// Skipping non-ears does not change the clip position.
proof fn lemma_find_clip_skip(pts: Seq<PixelPoint>, act: Seq<usize>, lo: int, j: int)
    requires
        1 <= lo <= j <= act.len() - 1,
        forall|m: int| lo <= m < j ==> !is_ear(pts, act, m),
    ensures
        find_clip_from(pts, act, lo) == find_clip_from(pts, act, j),
    decreases j - lo,
{
    if lo < j {
        lemma_find_clip_skip(pts, act, lo + 1, j);
    }
}

/// Ear-clipping triangulation of a single simple polygon contour.
///
/// Fails with `DegeneratePolygon` exactly when the contour has fewer than
/// three vertices or zero doubled signed area. On success the buffer is the
/// unique result of the deterministic clipping procedure: `n - 2` valid
/// triangles whose doubled signed areas sum to the polygon's.
pub fn triangulate(pts: &Vec<PixelPoint>) -> (r: Result<Vec<Triangle>, MeshError>)
    requires
        points_in_bounds(pts@),
    ensures
        r is Err <==> (pts@.len() < 3 || polygon_area2(pts@) == 0),
        r matches Err(e) ==> e == MeshError::DegeneratePolygon,
        r matches Ok(ts) ==> ts@ == spec_triangulate(pts@) && ts@.len() == pts@.len() - 2
            && tri_area2_sum(ts@, pts@) == polygon_area2(pts@) && (forall|k: int|
            0 <= k < ts@.len() ==> tri_valid(#[trigger] ts@[k], pts@.len() as int)),
{
    let n = pts.len();
    if n < 3 {
        return Err(MeshError::DegeneratePolygon);
    }
    let area = polygon_area2_exec(pts);
    if area == 0 {
        return Err(MeshError::DegeneratePolygon);
    }
    let o_pos = area > 0;
    let mut act: Vec<usize> = Vec::new();
    let mut i: usize = 0;
    while i < n
        invariant
            0 <= i <= n,
            act@.len() == i,
            forall|k: int| 0 <= k < i ==> #[trigger] (act@[k] as int) == k,
        decreases n - i,
    {
        act.push(i);
        i = i + 1;
    }
    proof {
        assert(act@ =~= full_range(n as int));
    }
    let ghost act0 = act@;
    let mut out: Vec<Triangle> = Vec::new();
    while act.len() > 3
        invariant
            n == pts@.len(),
            points_in_bounds(pts@),
            act@.len() >= 3,
            act_wf(act@, n as int),
            o_pos == (polygon_area2(pts@) >= 0),
            polygon_area2(pts@) != 0,
            act0 == full_range(n as int),
            clip_all(pts@, act0) == out@ + clip_all(pts@, act@),
        decreases act@.len(),
    {
        let ghost act_before = act@;
        let len = act.len();
        let mut j: usize = 1;
        let mut have_ear = false;
        while !have_ear && j < len - 1
            invariant
                1 <= j <= len - 1,
                len == act@.len(),
                len >= 4,
                n == pts@.len(),
                points_in_bounds(pts@),
                act_wf(act@, n as int),
                o_pos == (polygon_area2(pts@) >= 0),
                forall|m: int| 1 <= m < j ==> !is_ear(pts@, act@, m),
                have_ear ==> j < len - 1 && is_ear(pts@, act@, j as int),
            decreases len - j, (if have_ear { 0int } else { 1int }),
        {
            if is_ear_exec(pts, &act, j, o_pos) {
                have_ear = true;
            } else {
                j = j + 1;
            }
        }
        let clip_at = if have_ear {
            j
        } else {
            1
        };
        proof {
            if have_ear {
                lemma_find_clip_skip(pts@, act@, 1, clip_at as int);
                assert(find_clip(pts@, act@) == clip_at as int);
                assert(clip_pos(pts@, act@) == clip_at as int);
            } else {
                lemma_find_clip_skip(pts@, act@, 1, len as int - 1);
                assert(find_clip(pts@, act@) == 1);
                assert(clip_pos(pts@, act@) == 1);
            }
        }
        let t = Triangle { a: act[clip_at - 1], b: act[clip_at], c: act[clip_at + 1] };
        out.push(t);
        act.remove(clip_at);
        proof {
            lemma_remove_preserves_act_wf(act_before, clip_at as int, n as int);
            assert(clip_all(pts@, act_before) == seq![tri_at(act_before, clip_at as int)]
                + clip_all(pts@, act@));
            assert(t == tri_at(act_before, clip_at as int));
            assert(out@ + clip_all(pts@, act@) =~= out@.drop_last() + (seq![t] + clip_all(
                pts@,
                act@,
            )));
        }
    }
    let t = Triangle { a: act[0], b: act[1], c: act[2] };
    out.push(t);
    proof {
        assert(clip_all(pts@, act@) == seq![t]);
        assert(out@ =~= clip_all(pts@, act0));
        lemma_clip_all_count(pts@, act0);
        lemma_clip_all_valid(pts@, act0, n as int);
        lemma_clip_all_area(pts@, act0, n as int);
        assert forall|k: int| 0 <= k < pts@.len() implies sub_poly(pts@, act0)[k] == pts@[k] by {
            assert(act0[k] == k as usize);
        }
        assert(sub_poly(pts@, act0) =~= pts@);
    }
    Ok(out)
}

/// Triangulating any polygon with `n >= 3` vertices yields exactly `n - 2`
/// triangles; in particular a convex polygon of 5 vertices yields 3.
pub proof fn lemma_triangulate_count(pts: Seq<PixelPoint>)
    requires
        3 <= pts.len() <= usize::MAX,
    ensures
        spec_triangulate(pts).len() == pts.len() - 2,
{
    lemma_clip_all_count(pts, full_range(pts.len() as int));
}

/// The doubled areas of the triangles of a triangulation sum exactly to the
/// doubled signed area of the polygon: no area is lost or duplicated.
pub proof fn lemma_triangulate_area(pts: Seq<PixelPoint>)
    requires
        3 <= pts.len() <= usize::MAX,
    ensures
        tri_area2_sum(spec_triangulate(pts), pts) == polygon_area2(pts),
{
    let rng = full_range(pts.len() as int);
    lemma_full_range_wf(pts.len() as int);
    lemma_clip_all_area(pts, rng, pts.len() as int);
    assert forall|k: int| 0 <= k < pts.len() implies sub_poly(pts, rng)[k] == pts[k] by {
        assert(rng[k] == k as usize);
    }
    assert(sub_poly(pts, rng) =~= pts);
}

proof fn lemma_full_range_wf(n: int)
    requires
        0 <= n <= usize::MAX,
    ensures
        act_wf(full_range(n), n),
{
    assert forall|k: int| 0 <= k < n implies #[trigger] (full_range(n)[k] as int) < n by {
        assert(full_range(n)[k] == k as usize);
    }
    assert forall|k1: int, k2: int| 0 <= k1 < k2 < n implies full_range(n)[k1] < full_range(
        n,
    )[k2] by {
        assert(full_range(n)[k1] == k1 as usize);
        assert(full_range(n)[k2] == k2 as usize);
    }
}

} // verus!
