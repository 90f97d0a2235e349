//! Voronoi cells and the validated per-cell construction. A cell polygon
//! is produced by clipping the region's corner rectangle with the
//! bisector half-plane of every other site, and is then checked, with
//! exact arithmetic, against the spec predicates that the diagram's
//! contract states: containment in the region, the nearest-site property
//! of every vertex, and consistent counter-clockwise winding.

use vstd::prelude::*;
use crate::geom::{Point, Vertex, closer_eq, next_idx, orient_val, same_vertex};
use crate::region::{BoundingRegion, in_region, on_boundary, region_corners, corner_polygon};
use crate::line::{bisector, clip_polygon};
use crate::checks::{closer_eq_exec, in_region_exec, on_boundary_exec, orient_exec, same_vertex_exec};
use crate::area::{check_diagram_area, diagram_area_exact};

verus! {

/// Why a build failed.
/// - `Config`: the bounding region has no positive width or height.
/// - `Input`: the site set is empty, has a duplicate site, or has a
///   coordinate outside the supported grid range.
/// - `Geometry`: exact arithmetic left the range of `i128`, or a clipped
///   cell failed its geometric validation.
#[derive(Clone, Copy, PartialEq, Eq, Structural, Debug)]
pub enum BuildError {
    Config,
    Input,
    Geometry,
}

/// One Voronoi cell of a finished diagram.
#[derive(Debug)]
pub struct Cell {
    /// Index of the site this cell belongs to.
    pub site: usize,
    /// The site's position: the input position, or the relaxed one.
    pub position: Point,
    /// The clipped cell polygon, counter-clockwise.
    pub vertices: Vec<Vertex>,
    /// Indices of sites sharing a cell edge; empty unless requested.
    pub neighbors: Vec<usize>,
    /// Whether the cell touches the bounding region's boundary.
    pub is_on_hull: bool,
}

/// Consistent winding: every cyclically consecutive vertex triple turns
/// left or is collinear, so the polygon is convex and traversed
/// counter-clockwise.
pub open spec fn winding_ok(vs: Seq<Vertex>) -> bool {
    vs.len() < 3 || forall|k: int|
        0 <= k < vs.len() ==> #[trigger] orient_val(
            vs[k],
            vs[next_idx(k, vs.len() as int)],
            vs[next_idx(next_idx(k, vs.len() as int), vs.len() as int)],
        ) >= 0
}

/// No two vertices of the polygon denote the same rational point; with
/// convex counter-clockwise winding this makes the vertex cycle a simple
/// polygon (no revisited point, so no doubly-traversed boundary).
pub open spec fn distinct_vertices(vs: Seq<Vertex>) -> bool {
    forall|k1: int, k2: int|
        #![trigger vs[k1], vs[k2]]
        0 <= k1 < k2 < vs.len() ==> !same_vertex(vs[k1], vs[k2])
}

/// Everything the diagram's contract promises of one cell, relative to
/// the site positions the diagram was built from.
pub open spec fn cell_geometry_ok(
    c: Cell,
    i: int,
    positions: Seq<Point>,
    region: BoundingRegion,
) -> bool {
    &&& c.site == i
    &&& 0 <= i < positions.len()
    &&& c.position == positions[i]
    &&& forall|k: int|
        0 <= k < c.vertices@.len() ==> (#[trigger] c.vertices@[k]).wf() && in_region(
            c.vertices@[k],
            region,
        )
    &&& forall|k: int, j: int|
        0 <= k < c.vertices@.len() && 0 <= j < positions.len() ==> #[trigger] closer_eq(
            c.vertices@[k],
            positions[i],
            positions[j],
        )
    &&& winding_ok(c.vertices@)
    &&& (c.vertices@.len() < 3 || distinct_vertices(c.vertices@))
    &&& (c.is_on_hull <==> exists|k: int|
        0 <= k < c.vertices@.len() && on_boundary(#[trigger] c.vertices@[k], region))
}

/// Check that no two vertices of a polygon coincide.
fn check_distinct(vs: &Vec<Vertex>) -> (r: Option<bool>)
    ensures
        r matches Some(b) ==> b == (vs@.len() < 3 || distinct_vertices(vs@)),
{
    let n = vs.len();
    if n < 3 {
        return Some(true);
    }
    let mut k1: usize = 0;
    while k1 < n
        invariant
            k1 <= n,
            3 <= n,
            n == vs@.len(),
            forall|a: int, b: int|
                #![trigger vs@[a], vs@[b]]
                0 <= a < k1 && a < b < n ==> !same_vertex(vs@[a], vs@[b]),
        decreases n - k1,
    {
        let mut k2: usize = k1 + 1;
        while k2 < n
            invariant
                k1 < k2 <= n,
                k1 < n,
                3 <= n,
                n == vs@.len(),
                forall|b: int|
                    #![trigger vs@[b]]
                    k1 < b < k2 ==> !same_vertex(vs@[k1 as int], vs@[b]),
            decreases n - k2,
        {
            match same_vertex_exec(&vs[k1], &vs[k2]) {
                Some(true) => {
                    proof {
                        assert(same_vertex(vs@[k1 as int], vs@[k2 as int]));
                        assert(!distinct_vertices(vs@));
                    }
                    return Some(false);
                },
                Some(false) => {},
                None => {
                    return None;
                },
            }
            k2 = k2 + 1;
        }
        k1 = k1 + 1;
    }
    Some(true)
}

/// Check that every vertex lies in the region.
fn check_all_in_region(vs: &Vec<Vertex>, region: &BoundingRegion) -> (r: Option<bool>)
    ensures
        r matches Some(b) ==> (b <==> forall|k: int|
            0 <= k < vs@.len() ==> in_region(#[trigger] vs@[k], *region)),
{
    let n = vs.len();
    let mut k: usize = 0;
    while k < n
        invariant
            k <= n,
            n == vs@.len(),
            forall|j: int| 0 <= j < k ==> in_region(#[trigger] vs@[j], *region),
        decreases n - k,
    {
        match in_region_exec(&vs[k], region) {
            Some(true) => {},
            Some(false) => {
                return Some(false);
            },
            None => {
                return None;
            },
        }
        k = k + 1;
    }
    Some(true)
}

/// Check that every vertex is at least as close to `positions[i]` as to
/// every other site position.
fn check_all_closer(vs: &Vec<Vertex>, positions: &Vec<Point>, i: usize) -> (r: Option<bool>)
    requires
        i < positions@.len(),
    ensures
        r matches Some(b) ==> (b <==> forall|k: int, j: int|
            0 <= k < vs@.len() && 0 <= j < positions@.len() ==> #[trigger] closer_eq(
                vs@[k],
                positions@[i as int],
                positions@[j],
            )),
{
    let n = vs.len();
    let m = positions.len();
    let mut k: usize = 0;
    while k < n
        invariant
            k <= n,
            n == vs@.len(),
            m == positions@.len(),
            i < m,
            forall|k2: int, j: int|
                0 <= k2 < k && 0 <= j < m ==> #[trigger] closer_eq(
                    vs@[k2],
                    positions@[i as int],
                    positions@[j],
                ),
        decreases n - k,
    {
        let mut j: usize = 0;
        while j < m
            invariant
                j <= m,
                k < n,
                n == vs@.len(),
                m == positions@.len(),
                i < m,
                forall|j2: int|
                    0 <= j2 < j ==> #[trigger] closer_eq(
                        vs@[k as int],
                        positions@[i as int],
                        positions@[j2],
                    ),
            decreases m - j,
        {
            match closer_eq_exec(&vs[k], &positions[i], &positions[j]) {
                Some(true) => {},
                Some(false) => {
                    return Some(false);
                },
                None => {
                    return None;
                },
            }
            j = j + 1;
        }
        k = k + 1;
    }
    Some(true)
}

/// Check counter-clockwise winding of every cyclic vertex triple.
fn check_winding(vs: &Vec<Vertex>) -> (r: Option<bool>)
    ensures
        r matches Some(b) ==> b == winding_ok(vs@),
{
    let n = vs.len();
    if n < 3 {
        return Some(true);
    }
    let mut k: usize = 0;
    while k < n
        invariant
            k <= n,
            3 <= n,
            n == vs@.len(),
            forall|k2: int|
                0 <= k2 < k ==> #[trigger] orient_val(
                    vs@[k2],
                    vs@[next_idx(k2, vs@.len() as int)],
                    vs@[next_idx(next_idx(k2, vs@.len() as int), vs@.len() as int)],
                ) >= 0,
        decreases n - k,
    {
        let k1 = if k + 1 == n { 0 } else { k + 1 };
        let k2 = if k1 + 1 == n { 0 } else { k1 + 1 };
        match orient_exec(&vs[k], &vs[k1], &vs[k2]) {
            Some(e) => {
                if e < 0 {
                    proof {
                        let ni = vs@.len() as int;
                        assert(k1 as int == next_idx(k as int, ni));
                        assert(k2 as int == next_idx(next_idx(k as int, ni), ni));
                        assert(orient_val(
                            vs@[k as int],
                            vs@[next_idx(k as int, ni)],
                            vs@[next_idx(next_idx(k as int, ni), ni)],
                        ) < 0);
                        assert(!winding_ok(vs@));
                    }
                    return Some(false);
                }
            },
            None => {
                return None;
            },
        }
        k = k + 1;
    }
    Some(true)
}

/// Whether some vertex lies on the region's boundary: the hull flag.
fn compute_hull_flag(vs: &Vec<Vertex>, region: &BoundingRegion) -> (r: Option<bool>)
    ensures
        r matches Some(b) ==> (b <==> exists|k: int|
            0 <= k < vs@.len() && on_boundary(#[trigger] vs@[k], *region)),
{
    let n = vs.len();
    let mut k: usize = 0;
    while k < n
        invariant
            k <= n,
            n == vs@.len(),
            forall|j: int| 0 <= j < k ==> !on_boundary(#[trigger] vs@[j], *region),
        decreases n - k,
    {
        match on_boundary_exec(&vs[k], region) {
            Some(true) => {
                return Some(true);
            },
            Some(false) => {},
            None => {
                return None;
            },
        }
        k = k + 1;
    }
    Some(false)
}

/// Clip the region rectangle with the bisector of every other site.
/// With a single site nothing is clipped and the cell is the rectangle.
fn build_cell_polygon(positions: &Vec<Point>, i: usize, region: &BoundingRegion) -> (r: Option<
    Vec<Vertex>,
>)
    requires
        region.wf(),
        i < positions@.len(),
    ensures
        r matches Some(vs) ==> {
            &&& forall|k: int| 0 <= k < vs@.len() ==> (#[trigger] vs@[k]).wf()
            &&& (positions@.len() == 1 ==> vs@ == region_corners(*region))
        },
{
    let mut poly = corner_polygon(region);
    proof {
        assert(forall|k: int| 0 <= k < poly@.len() ==> (#[trigger] poly@[k]).wf());
    }
    let n = positions.len();
    let mut j: usize = 0;
    while j < n
        invariant
            j <= n,
            n == positions@.len(),
            i < n,
            forall|k: int| 0 <= k < poly@.len() ==> (#[trigger] poly@[k]).wf(),
            n == 1 ==> poly@ == region_corners(*region),
        decreases n - j,
    {
        if j != i {
            let l = match bisector(positions[i], positions[j]) {
                Some(l) => l,
                None => {
                    return None;
                },
            };
            poly = match clip_polygon(&poly, &l) {
                Some(p) => p,
                None => {
                    return None;
                },
            };
        }
        j = j + 1;
    }
    Some(poly)
}

/// Build and validate every cell of the diagram for the given site
/// positions. On success each cell satisfies `cell_geometry_ok` and has
/// no neighbor entries yet; any numerical failure or failed validation
/// reports `BuildError::Geometry`.
#[verifier::rlimit(30)]
pub fn build_cells(positions: &Vec<Point>, region: &BoundingRegion) -> (r: Result<
    Vec<Cell>,
    BuildError,
>)
    requires
        region.wf(),
        positions@.len() >= 1,
    ensures
        r matches Ok(cells) ==> {
            &&& cells@.len() == positions@.len()
            &&& forall|i: int|
                0 <= i < cells@.len() ==> cell_geometry_ok(
                    #[trigger] cells@[i],
                    i,
                    positions@,
                    *region,
                )
            &&& forall|i: int| 0 <= i < cells@.len() ==> (#[trigger] cells@[i]).neighbors@.len() == 0
            &&& (positions@.len() == 1 ==> cells@[0].vertices@ == region_corners(*region))
            &&& diagram_area_exact(cells@, *region)
        },
        r matches Err(e) ==> e == BuildError::Geometry,
{
    let n = positions.len();
    let mut cells: Vec<Cell> = Vec::new();
    let mut i: usize = 0;
    while i < n
        invariant
            i <= n,
            n == positions@.len(),
            region.wf(),
            cells@.len() == i,
            forall|i2: int|
                0 <= i2 < i ==> cell_geometry_ok(#[trigger] cells@[i2], i2, positions@, *region),
            forall|i2: int| 0 <= i2 < i ==> (#[trigger] cells@[i2]).neighbors@.len() == 0,
            n == 1 && i == 1 ==> cells@[0].vertices@ == region_corners(*region),
        decreases n - i,
    {
        let vs = match build_cell_polygon(positions, i, region) {
            Some(vs) => vs,
            None => {
                return Err(BuildError::Geometry);
            },
        };
        match check_all_in_region(&vs, region) {
            Some(true) => {},
            _ => {
                return Err(BuildError::Geometry);
            },
        }
        match check_all_closer(&vs, positions, i) {
            Some(true) => {},
            _ => {
                return Err(BuildError::Geometry);
            },
        }
        match check_winding(&vs) {
            Some(true) => {},
            _ => {
                return Err(BuildError::Geometry);
            },
        }
        match check_distinct(&vs) {
            Some(true) => {},
            _ => {
                return Err(BuildError::Geometry);
            },
        }
        let hull = match compute_hull_flag(&vs, region) {
            Some(b) => b,
            None => {
                return Err(BuildError::Geometry);
            },
        };
        let c = Cell {
            site: i,
            position: positions[i],
            vertices: vs,
            neighbors: Vec::new(),
            is_on_hull: hull,
        };
        proof {
            assert(cell_geometry_ok(c, i as int, positions@, *region));
        }
        cells.push(c);
        i = i + 1;
    }
    proof {
        assert forall|i2: int, k: int|
            0 <= i2 < cells@.len() && 0 <= k < cells@[i2].vertices@.len() implies (
        #[trigger] cells@[i2].vertices@[k]).d >= 1 by {
            assert(cell_geometry_ok(cells@[i2], i2, positions@, *region));
            assert(cells@[i2].vertices@[k].wf());
        }
    }
    match check_diagram_area(&cells, region) {
        Some(true) => Ok(cells),
        _ => Err(BuildError::Geometry),
    }
}

} // verus!
