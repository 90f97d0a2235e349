//! Diagram construction: input validation, the build-and-relax loop, and
//! the public entry point `voronoi` whose contract states what the
//! returned cells are.

use vstd::prelude::*;
use crate::geom::{Point, Vertex, closer_eq, coord_ok, next_idx, orient_val, same_vertex, COORD_LIMIT};
use crate::region::{BoundingRegion, in_region, on_boundary, region_corners, corner_polygon};
use crate::cell::{Cell, BuildError, build_cells, cell_geometry_ok, distinct_vertices, winding_ok};
use crate::area::{cells_area_sum, diagram_area_exact, doubled_area, doubled_area_sum, edge_cross,
    rat_pair_add, region_doubled_area};
use crate::neighbors::{
    add_neighbors, adjacent, has_neighbor, lemma_adjacent_symmetric, neighbors_assigned,
    same_but_neighbors, share_edge,
};
use crate::relax::relax_positions;

verus! {

/// A valid site set: non-empty, within coordinate range, and free of
/// duplicate coincident points.
pub open spec fn sites_ok(s: Seq<Point>) -> bool {
    &&& s.len() >= 1
    &&& forall|i: int| 0 <= i < s.len() ==> coord_ok(#[trigger] s[i])
    &&& forall|i: int, j: int| 0 <= i < j < s.len() ==> s[i] != s[j]
}

/// Runtime check for `sites_ok`.
fn check_sites(sites: &Vec<Point>) -> (b: bool)
    ensures
        b == sites_ok(sites@),
{
    let n = sites.len();
    if n == 0 {
        return false;
    }
    let mut i: usize = 0;
    while i < n
        invariant
            i <= n,
            n == sites@.len(),
            forall|i2: int| 0 <= i2 < i ==> coord_ok(#[trigger] sites@[i2]),
        decreases n - i,
    {
        let p = sites[i];
        if p.x < -COORD_LIMIT || p.x > COORD_LIMIT || p.y < -COORD_LIMIT || p.y > COORD_LIMIT {
            proof {
                assert(!coord_ok(sites@[i as int]));
            }
            return false;
        }
        i = i + 1;
    }
    let mut i: usize = 0;
    while i < n
        invariant
            i <= n,
            n == sites@.len(),
            forall|a: int, b: int| 0 <= a < i && a < b < n ==> sites@[a] != sites@[b],
        decreases n - i,
    {
        let mut j: usize = i + 1;
        while j < n
            invariant
                i < j <= n,
                i < n,
                n == sites@.len(),
                forall|b: int| i < b < j ==> sites@[i as int] != sites@[b],
            decreases n - j,
        {
            if sites[i] == sites[j] {
                return false;
            }
            j = j + 1;
        }
        i = i + 1;
    }
    true
}

/// Copy a vector of points.
fn copy_points(ps: &Vec<Point>) -> (r: Vec<Point>)
    ensures
        r@ == ps@,
{
    let n = ps.len();
    let mut r: Vec<Point> = Vec::new();
    let mut i: usize = 0;
    while i < n
        invariant
            i <= n,
            n == ps@.len(),
            r@ =~= ps@.subrange(0, i as int),
        decreases n - i,
    {
        r.push(ps[i]);
        i = i + 1;
    }
    proof {
        assert(r@ =~= ps@);
    }
    r
}

/// What the finished diagram promises of one cell, stated against the
/// returned cells' own (possibly relaxed) positions.
pub open spec fn cell_final_ok(c: Cell, i: int, cells: Seq<Cell>, region: BoundingRegion) -> bool {
    &&& c.site == i
    &&& forall|k: int|
        0 <= k < c.vertices@.len() ==> (#[trigger] c.vertices@[k]).wf() && in_region(
            c.vertices@[k],
            region,
        )
    &&& forall|k: int, j: int|
        0 <= k < c.vertices@.len() && 0 <= j < cells.len() ==> #[trigger] closer_eq(
            c.vertices@[k],
            c.position,
            cells[j].position,
        )
    &&& winding_ok(c.vertices@)
    &&& (c.vertices@.len() < 3 || distinct_vertices(c.vertices@))
    &&& (c.is_on_hull <==> exists|k: int|
        0 <= k < c.vertices@.len() && on_boundary(#[trigger] c.vertices@[k], region))
}

/// Every cell of the diagram is geometrically consistent: its polygon
/// lies in the region, every vertex is at least as close to its own
/// site as to any other site, the winding is counter-clockwise, and the
/// hull flag marks exactly the cells touching the region's boundary.
pub open spec fn diagram_ok(cells: Seq<Cell>, region: BoundingRegion) -> bool {
    forall|i: int| 0 <= i < cells.len() ==> cell_final_ok(#[trigger] cells[i], i, cells, region)
}

/// The per-build cell guarantees imply the diagram-level ones, because
/// each cell's recorded position is its site's position.
proof fn lemma_final_from_built(cells: Seq<Cell>, positions: Seq<Point>, region: BoundingRegion)
    requires
        cells.len() == positions.len(),
        forall|i: int|
            0 <= i < cells.len() ==> cell_geometry_ok(#[trigger] cells[i], i, positions, region),
    ensures
        diagram_ok(cells, region),
{
    assert forall|i: int| 0 <= i < cells.len() implies cell_final_ok(
        #[trigger] cells[i],
        i,
        cells,
        region,
    ) by {
        assert(cell_geometry_ok(cells[i], i, positions, region));
        assert forall|k: int, j: int|
            0 <= k < cells[i].vertices@.len() && 0 <= j < cells.len() implies #[trigger] closer_eq(
            cells[i].vertices@[k],
            cells[i].position,
            cells[j].position,
        ) by {
            assert(cell_geometry_ok(cells[j], j, positions, region));
            assert(closer_eq(cells[i].vertices@[k], positions[i], positions[j]));
        }
    }
}

/// Filling in neighbor lists preserves the cells' area sum.
proof fn lemma_area_sum_preserved(cells: Seq<Cell>, out: Seq<Cell>, upto: int)
    requires
        out.len() == cells.len(),
        forall|i: int| 0 <= i < out.len() ==> same_but_neighbors(#[trigger] out[i], cells[i]),
        0 <= upto <= cells.len(),
    ensures
        cells_area_sum(out, upto) == cells_area_sum(cells, upto),
    decreases upto,
{
    if upto > 0 {
        lemma_area_sum_preserved(cells, out, upto - 1);
        assert(same_but_neighbors(out[upto - 1], cells[upto - 1]));
        assert(out[upto - 1].vertices@ == cells[upto - 1].vertices@);
    }
}

/// Filling in neighbor lists preserves the diagram's geometry.
proof fn lemma_final_preserved(cells: Seq<Cell>, out: Seq<Cell>, region: BoundingRegion)
    requires
        out.len() == cells.len(),
        forall|i: int| 0 <= i < out.len() ==> same_but_neighbors(#[trigger] out[i], cells[i]),
        diagram_ok(cells, region),
    ensures
        diagram_ok(out, region),
{
    assert forall|i: int| 0 <= i < out.len() implies cell_final_ok(
        #[trigger] out[i],
        i,
        out,
        region,
    ) by {
        assert(same_but_neighbors(out[i], cells[i]));
        assert(cell_final_ok(cells[i], i, cells, region));
        assert(out[i].vertices@ == cells[i].vertices@);
        assert forall|k: int, j: int|
            0 <= k < out[i].vertices@.len() && 0 <= j < out.len() implies #[trigger] closer_eq(
            out[i].vertices@[k],
            out[i].position,
            out[j].position,
        ) by {
            assert(same_but_neighbors(out[j], cells[j]));
            assert(closer_eq(cells[i].vertices@[k], cells[i].position, cells[j].position));
        }
    }
}

/// Adjacency depends only on positions and cell polygons, so filling in
/// neighbor lists does not change it.
proof fn lemma_adjacent_preserved(cells: Seq<Cell>, out: Seq<Cell>)
    requires
        out.len() == cells.len(),
        forall|i: int| 0 <= i < out.len() ==> same_but_neighbors(#[trigger] out[i], cells[i]),
    ensures
        forall|i: int, j: int|
            0 <= i < out.len() && 0 <= j < out.len() ==> #[trigger] adjacent(out, i, j) == adjacent(
                cells,
                i,
                j,
            ),
{
    assert forall|i: int, j: int|
        0 <= i < out.len() && 0 <= j < out.len() implies #[trigger] adjacent(out, i, j) == adjacent(
        cells,
        i,
        j,
    ) by {
        let a = if i <= j { i } else { j };
        let b = if i <= j { j } else { i };
        assert(same_but_neighbors(out[a], cells[a]));
        assert(same_but_neighbors(out[b], cells[b]));
        assert(out[a].vertices@ == cells[a].vertices@);
        if share_edge(out[a], out[a].position, out[b].position) {
            let (k1, k2) = choose|k1: int, k2: int|
                #![trigger out[a].vertices@[k1], out[a].vertices@[k2]]
                0 <= k1 < out[a].vertices@.len() && 0 <= k2 < out[a].vertices@.len()
                    && !crate::geom::same_vertex(out[a].vertices@[k1], out[a].vertices@[k2])
                    && crate::geom::equidistant(out[a].vertices@[k1], out[a].position, out[b].position)
                    && crate::geom::equidistant(out[a].vertices@[k2], out[a].position, out[b].position);
            assert(cells[a].vertices@[k1] == out[a].vertices@[k1]);
            assert(cells[a].vertices@[k2] == out[a].vertices@[k2]);
            assert(share_edge(cells[a], cells[a].position, cells[b].position));
        }
        if share_edge(cells[a], cells[a].position, cells[b].position) {
            let (k1, k2) = choose|k1: int, k2: int|
                #![trigger cells[a].vertices@[k1], cells[a].vertices@[k2]]
                0 <= k1 < cells[a].vertices@.len() && 0 <= k2 < cells[a].vertices@.len()
                    && !crate::geom::same_vertex(cells[a].vertices@[k1], cells[a].vertices@[k2])
                    && crate::geom::equidistant(cells[a].vertices@[k1], cells[a].position, cells[b].position)
                    && crate::geom::equidistant(cells[a].vertices@[k2], cells[a].position, cells[b].position);
            assert(out[a].vertices@[k1] == cells[a].vertices@[k1]);
            assert(out[a].vertices@[k2] == cells[a].vertices@[k2]);
            assert(share_edge(out[a], out[a].position, out[b].position));
        }
    }
}

/// Multiplying a grid coordinate by a unit denominator leaves it
/// unchanged.
proof fn lemma_unit_den(a: i64, d: i128)
    requires
        d == 1,
    ensures
        a * d == a as int,
{
    assert(a * d == a as int) by (nonlinear_arith)
        requires
            d == 1i128,
    ;
}

/// The single cell that covers the whole region satisfies every
/// geometric clause of the diagram's contract, and its doubled area is
/// the region's.
proof fn lemma_corner_cell(region: BoundingRegion, c: Cell)
    requires
        region.wf(),
        c.vertices@ == region_corners(region),
    ensures
        forall|k: int|
            0 <= k < c.vertices@.len() ==> (#[trigger] c.vertices@[k]).wf() && in_region(
                c.vertices@[k],
                region,
            ),
        winding_ok(c.vertices@),
        distinct_vertices(c.vertices@),
        exists|k: int| 0 <= k < c.vertices@.len() && on_boundary(#[trigger] c.vertices@[k], region),
        doubled_area(c.vertices@) == (region_doubled_area(region), 1 as int),
{
    let cs = region_corners(region);
    let x1 = region.x1 as int;
    let x2 = region.x2 as int;
    let y1 = region.y1 as int;
    let y2 = region.y2 as int;
    let c0 = cs[0];
    let c1 = cs[1];
    let c2 = cs[2];
    let c3 = cs[3];
    assert(cs.len() == 4);
    assert forall|k: int| 0 <= k < cs.len() implies (#[trigger] cs[k]).d == 1 by {
        if k == 0 {
        } else if k == 1 {
        } else if k == 2 {
        } else {
            assert(cs[k] == c3);
        }
    }
    assert forall|k: int| 0 <= k < cs.len() implies (#[trigger] cs[k]).wf() && in_region(
        cs[k],
        region,
    ) by {
        let v = cs[k];
        lemma_unit_den(region.x1, v.d);
        lemma_unit_den(region.x2, v.d);
        lemma_unit_den(region.y1, v.d);
        lemma_unit_den(region.y2, v.d);
        if k == 0 {
            assert(v == c0);
        } else if k == 1 {
            assert(v == c1);
        } else if k == 2 {
            assert(v == c2);
        } else {
            assert(v == c3);
        }
    }
    // counter-clockwise winding: every cyclic triple turns left
    assert forall|k: int| 0 <= k < cs.len() implies #[trigger] orient_val(
        cs[k],
        cs[next_idx(k, cs.len() as int)],
        cs[next_idx(next_idx(k, cs.len() as int), cs.len() as int)],
    ) >= 0 by {
        let p = cs[k];
        let q = cs[next_idx(k, 4)];
        let r = cs[next_idx(next_idx(k, 4), 4)];
        assert(p.d == 1 && q.d == 1 && r.d == 1);
        assert(orient_val(p, q, r) == (q.xn - p.xn) * (r.yn - p.yn) - (r.xn - p.xn) * (q.yn
            - p.yn)) by (nonlinear_arith)
            requires
                p.d == 1i128,
                q.d == 1i128,
                r.d == 1i128,
        ;
        assert((x2 - x1) * (y2 - y1) >= 0) by (nonlinear_arith)
            requires
                x1 < x2,
                y1 < y2,
        ;
        if k == 0 {
            assert(q == c1 && r == c2);
            assert(orient_val(p, q, r) == (x2 - x1) * (y2 - y1)) by (nonlinear_arith)
                requires
                    orient_val(p, q, r) == (q.xn - p.xn) * (r.yn - p.yn) - (r.xn - p.xn) * (q.yn
                        - p.yn),
                    p.xn == x1 && p.yn == y1 && q.xn == x2 && q.yn == y1 && r.xn == x2 && r.yn
                        == y2,
            ;
        } else if k == 1 {
            assert(q == c2 && r == c3);
            assert(orient_val(p, q, r) == (x2 - x1) * (y2 - y1)) by (nonlinear_arith)
                requires
                    orient_val(p, q, r) == (q.xn - p.xn) * (r.yn - p.yn) - (r.xn - p.xn) * (q.yn
                        - p.yn),
                    p.xn == x2 && p.yn == y1 && q.xn == x2 && q.yn == y2 && r.xn == x1 && r.yn
                        == y2,
            ;
        } else if k == 2 {
            assert(q == c3 && r == c0);
            assert(orient_val(p, q, r) == (x2 - x1) * (y2 - y1)) by (nonlinear_arith)
                requires
                    orient_val(p, q, r) == (q.xn - p.xn) * (r.yn - p.yn) - (r.xn - p.xn) * (q.yn
                        - p.yn),
                    p.xn == x2 && p.yn == y2 && q.xn == x1 && q.yn == y2 && r.xn == x1 && r.yn
                        == y1,
            ;
        } else {
            assert(q == c0 && r == c1);
            assert(orient_val(p, q, r) == (x2 - x1) * (y2 - y1)) by (nonlinear_arith)
                requires
                    orient_val(p, q, r) == (q.xn - p.xn) * (r.yn - p.yn) - (r.xn - p.xn) * (q.yn
                        - p.yn),
                    p.xn == x1 && p.yn == y2 && q.xn == x1 && q.yn == y1 && r.xn == x2 && r.yn
                        == y1,
            ;
        }
    }
    // the four corners are pairwise distinct points
    assert forall|a: int, b: int|
        #![trigger cs[a], cs[b]]
        0 <= a < b < cs.len() implies !same_vertex(cs[a], cs[b]) by {
        let u = cs[a];
        let v = cs[b];
        assert(u.d == 1 && v.d == 1);
        assert(same_vertex(u, v) ==> u.xn as int == v.xn as int && u.yn as int == v.yn as int)
            by (nonlinear_arith)
            requires
                u.d == 1i128,
                v.d == 1i128,
        ;
    }
    // the lower-left corner lies on the boundary
    lemma_unit_den(region.x1, c0.d);
    assert(on_boundary(c0, region));
    assert(0 <= 0 < cs.len() && on_boundary(cs[0], region));
    // doubled area: unfold the shoelace fold over the four edges
    let e0 = edge_cross(c0, c1);
    let e1 = edge_cross(c1, c2);
    let e2 = edge_cross(c2, c3);
    let e3 = edge_cross(c3, c0);
    assert(e0 == (x1 * y1 - x2 * y1, 1 as int)) by (nonlinear_arith)
        requires
            e0 == (c0.xn * c1.yn - c1.xn * c0.yn, c0.d * c1.d),
            c0.xn == x1 && c0.yn == y1 && c1.xn == x2 && c1.yn == y1 && c0.d == 1 && c1.d == 1,
    ;
    assert(e1 == (x2 * y2 - x2 * y1, 1 as int)) by (nonlinear_arith)
        requires
            e1 == (c1.xn * c2.yn - c2.xn * c1.yn, c1.d * c2.d),
            c1.xn == x2 && c1.yn == y1 && c2.xn == x2 && c2.yn == y2 && c1.d == 1 && c2.d == 1,
    ;
    assert(e2 == (x2 * y2 - x1 * y2, 1 as int)) by (nonlinear_arith)
        requires
            e2 == (c2.xn * c3.yn - c3.xn * c2.yn, c2.d * c3.d),
            c2.xn == x2 && c2.yn == y2 && c3.xn == x1 && c3.yn == y2 && c2.d == 1 && c3.d == 1,
    ;
    assert(e3 == (x1 * y1 - x1 * y2, 1 as int)) by (nonlinear_arith)
        requires
            e3 == (c3.xn * c0.yn - c0.xn * c3.yn, c3.d * c0.d),
            c3.xn == x1 && c3.yn == y2 && c0.xn == x1 && c0.yn == y1 && c3.d == 1 && c0.d == 1,
    ;
    assert(doubled_area_sum(cs, 0) == (0 as int, 1 as int));
    assert(next_idx(0, 4) == 1 && next_idx(1, 4) == 2 && next_idx(2, 4) == 3 && next_idx(3, 4)
        == 0);
    assert(doubled_area_sum(cs, 1) == rat_pair_add((0 as int, 1 as int), e0));
    assert(doubled_area_sum(cs, 2) == rat_pair_add(doubled_area_sum(cs, 1), e1));
    assert(doubled_area_sum(cs, 3) == rat_pair_add(doubled_area_sum(cs, 2), e2));
    assert(doubled_area(cs) == rat_pair_add(doubled_area_sum(cs, 3), e3));
    assert(doubled_area(cs) == (e0.0 + e1.0 + e2.0 + e3.0, 1 as int)) by (nonlinear_arith)
        requires
            doubled_area_sum(cs, 1) == ((0 as int) * e0.1 + e0.0 * 1, 1 * e0.1),
            doubled_area_sum(cs, 2) == (doubled_area_sum(cs, 1).0 * e1.1 + e1.0 * doubled_area_sum(
                cs,
                1,
            ).1, doubled_area_sum(cs, 1).1 * e1.1),
            doubled_area_sum(cs, 3) == (doubled_area_sum(cs, 2).0 * e2.1 + e2.0 * doubled_area_sum(
                cs,
                2,
            ).1, doubled_area_sum(cs, 2).1 * e2.1),
            doubled_area(cs) == (doubled_area_sum(cs, 3).0 * e3.1 + e3.0 * doubled_area_sum(
                cs,
                3,
            ).1, doubled_area_sum(cs, 3).1 * e3.1),
            e0.1 == 1 && e1.1 == 1 && e2.1 == 1 && e3.1 == 1,
    ;
    assert(e0.0 + e1.0 + e2.0 + e3.0 == 2 * (x2 - x1) * (y2 - y1)) by (nonlinear_arith)
        requires
            e0.0 == x1 * y1 - x2 * y1,
            e1.0 == x2 * y2 - x2 * y1,
            e2.0 == x2 * y2 - x1 * y2,
            e3.0 == x1 * y1 - x1 * y2,
    ;
}

/// Compute the Voronoi diagram of `sites` inside `region`.
///
/// On success the result has one cell per site, in input order. Every
/// cell polygon lies inside the region with counter-clockwise winding
/// and pairwise-distinct vertices, each of its vertices is at least as
/// close to the cell's own site as to any other site (`diagram_ok`),
/// and the cells' signed areas sum exactly to the region's area
/// (`diagram_area_exact`). With no relaxation the reported positions
/// are exactly the input sites. Neighbor lists are filled in,
/// symmetric, exactly when `return_neighbors` is set, and empty
/// otherwise. An invalid region reports `Config`; an empty, duplicated,
/// or out-of-range site set reports `Input`; arithmetic outside `i128`
/// or a failed geometric validation reports `Geometry` — and for a
/// single site without relaxation success is owed, not merely
/// permitted.
#[verifier::rlimit(50)]
pub fn voronoi(
    sites: &Vec<Point>,
    region: &BoundingRegion,
    return_neighbors: bool,
    lloyd_relaxation_iterations: usize,
) -> (r: Result<Vec<Cell>, BuildError>)
    ensures
        !region.wf() <==> (r matches Err(e) && e == BuildError::Config),
        region.wf() && !sites_ok(sites@) <==> (r matches Err(e) && e == BuildError::Input),
        region.wf() && sites_ok(sites@) && sites@.len() == 1 && lloyd_relaxation_iterations == 0
            ==> r is Ok,
        r matches Ok(cells) ==> {
            &&& region.wf()
            &&& sites_ok(sites@)
            &&& cells@.len() == sites@.len()
            &&& diagram_ok(cells@, *region)
            &&& diagram_area_exact(cells@, *region)
            &&& (lloyd_relaxation_iterations == 0 ==> forall|i: int|
                0 <= i < cells@.len() ==> (#[trigger] cells@[i]).position == sites@[i])
            &&& (!return_neighbors ==> forall|i: int|
                0 <= i < cells@.len() ==> (#[trigger] cells@[i]).neighbors@.len() == 0)
            &&& (return_neighbors ==> neighbors_assigned(cells@, cells@))
            &&& (return_neighbors ==> forall|i: int, j: int|
                0 <= i < cells@.len() && 0 <= j < cells@.len() ==> (#[trigger] has_neighbor(
                    cells@[i].neighbors@,
                    j,
                ) <==> has_neighbor(cells@[j].neighbors@, i)))
            &&& (sites@.len() == 1 ==> cells@[0].vertices@ == region_corners(*region)
                && cells@[0].is_on_hull)
        },
{
    if !region.is_valid() {
        return Err(BuildError::Config);
    }
    if !check_sites(sites) {
        return Err(BuildError::Input);
    }
    if sites.len() == 1 && lloyd_relaxation_iterations == 0 {
        // The whole region is the one site's cell; build it directly, so
        // that success is owed in this case, not merely permitted.
        let verts = corner_polygon(region);
        let c = Cell {
            site: 0,
            position: sites[0],
            vertices: verts,
            neighbors: Vec::new(),
            is_on_hull: true,
        };
        let mut one: Vec<Cell> = Vec::new();
        proof {
            lemma_corner_cell(*region, c);
        }
        one.push(c);
        proof {
            assert(one@.len() == 1);
            assert(one@[0] == c);
            assert forall|i: int| 0 <= i < one@.len() implies cell_final_ok(
                #[trigger] one@[i],
                i,
                one@,
                *region,
            ) by {
                assert forall|k: int, j: int|
                    0 <= k < c.vertices@.len() && 0 <= j < one@.len() implies #[trigger] closer_eq(
                    c.vertices@[k],
                    c.position,
                    one@[j].position,
                ) by {
                    assert(one@[j].position == c.position);
                }
            }
            assert(cells_area_sum(one@, 0) == (0 as int, 1 as int));
            assert(cells_area_sum(one@, 1) == rat_pair_add(
                (0 as int, 1 as int),
                doubled_area(c.vertices@),
            ));
            assert(diagram_area_exact(one@, *region)) by (nonlinear_arith)
                requires
                    cells_area_sum(one@, one@.len() as int) == (
                        (0 as int) * 1 + region_doubled_area(*region) * 1,
                        1 * (1 as int),
                    ),
            ;
            assert(!c.neighbors@.contains(0usize));
            assert(neighbors_assigned(one@, one@));
        }
        return Ok(one);
    }
    let n = sites.len();
    let mut positions = copy_points(sites);
    let mut cells = match build_cells(&positions, region) {
        Ok(c) => c,
        Err(_) => {
            return Err(BuildError::Geometry);
        },
    };
    let mut it: usize = 0;
    while it < lloyd_relaxation_iterations
        invariant
            region.wf(),
            sites_ok(sites@),
            n == sites@.len(),
            n >= 1,
            positions@.len() == n,
            cells@.len() == n,
            forall|i: int|
                0 <= i < cells@.len() ==> cell_geometry_ok(#[trigger] cells@[i], i, positions@, *region),
            forall|i: int| 0 <= i < cells@.len() ==> (#[trigger] cells@[i]).neighbors@.len() == 0,
            n == 1 ==> cells@[0].vertices@ == region_corners(*region),
            diagram_area_exact(cells@, *region),
            lloyd_relaxation_iterations == 0 ==> positions@ == sites@,
        decreases lloyd_relaxation_iterations - it,
    {
        proof {
            assert forall|i: int, k: int|
                0 <= i < cells@.len() && 0 <= k < cells@[i].vertices@.len() implies (
            #[trigger] cells@[i].vertices@[k]).d >= 1 by {
                assert(cell_geometry_ok(cells@[i], i, positions@, *region));
                assert(cells@[i].vertices@[k].wf());
            }
        }
        positions = match relax_positions(&cells, region) {
            Ok(p) => p,
            Err(_) => {
                return Err(BuildError::Geometry);
            },
        };
        cells = match build_cells(&positions, region) {
            Ok(c) => c,
            Err(_) => {
                return Err(BuildError::Geometry);
            },
        };
        it = it + 1;
    }
    proof {
        lemma_final_from_built(cells@, positions@, *region);
        if n == 1 {
            assert(cells@[0].is_on_hull) by {
                let c0 = region_corners(*region)[0];
                assert(c0 == (Vertex { xn: region.x1 as i128, yn: region.y1 as i128, d: 1i128 }));
                assert(c0.xn as int == region.x1 as int);
                assert(region.x1 * c0.d == region.x1 as int) by (nonlinear_arith)
                    requires
                        c0.d == 1i128,
                ;
                assert(c0.xn == region.x1 * c0.d);
                assert(on_boundary(c0, *region));
                assert(cells@[0].vertices@[0] == c0);
            }
        }
        if lloyd_relaxation_iterations == 0 {
            assert forall|i: int| 0 <= i < cells@.len() implies (#[trigger] cells@[i]).position
                == sites@[i] by {
                assert(cell_geometry_ok(cells@[i], i, positions@, *region));
            }
        }
    }
    if return_neighbors {
        let ghost pre = cells@;
        let out = match add_neighbors(cells) {
            Ok(o) => o,
            Err(_) => {
                return Err(BuildError::Geometry);
            },
        };
        proof {
            lemma_final_preserved(pre, out@, *region);
            lemma_adjacent_preserved(pre, out@);
            lemma_area_sum_preserved(pre, out@, pre.len() as int);
            assert(diagram_area_exact(out@, *region));
            assert forall|i: int, j: int|
                0 <= i < out@.len() && 0 <= j < out@.len() implies (#[trigger] has_neighbor(
                out@[i].neighbors@,
                j,
            ) <==> j != i && adjacent(out@, i, j)) by {
                assert(has_neighbor(out@[i].neighbors@, j) <==> j != i && adjacent(pre, i, j));
                assert(adjacent(out@, i, j) == adjacent(pre, i, j));
            }
            assert(neighbors_assigned(out@, out@));
            assert forall|i: int, j: int|
                0 <= i < out@.len() && 0 <= j < out@.len() implies (#[trigger] has_neighbor(
                out@[i].neighbors@,
                j,
            ) <==> has_neighbor(out@[j].neighbors@, i)) by {
                lemma_adjacent_symmetric(out@, i, j);
            }
            if n == 1 {
                assert(same_but_neighbors(out@[0], pre[0]));
            }
            if lloyd_relaxation_iterations == 0 {
                assert forall|i: int| 0 <= i < out@.len() implies (#[trigger] out@[i]).position
                    == sites@[i] by {
                    assert(same_but_neighbors(out@[i], pre[i]));
                }
            }
        }
        Ok(out)
    } else {
        Ok(cells)
    }
}

} // verus!
