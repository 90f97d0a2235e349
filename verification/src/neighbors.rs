//! Neighbor detection. Two sites are neighbors when their cells share a
//! Voronoi edge, i.e. when the cell of the lower-indexed site has two
//! distinct vertices on the perpendicular bisector of the two sites.
//! The decision is made once per unordered pair, so the relation is
//! symmetric by construction.

use vstd::prelude::*;
use crate::geom::{Point, Vertex, same_vertex, equidistant};
use crate::cell::{Cell, BuildError};
use crate::checks::{same_vertex_exec, equidistant_exec};

verus! {

/// Site `j` appears in the neighbor list `ns`.
pub open spec fn has_neighbor(ns: Seq<usize>, j: int) -> bool {
    ns.contains(j as usize)
}

/// The cell `c` (of the site at `p`) has two distinct vertices on the
/// perpendicular bisector of `p` and `q`: a shared edge of positive
/// length.
pub open spec fn share_edge(c: Cell, p: Point, q: Point) -> bool {
    exists|k1: int, k2: int|
        #![trigger c.vertices@[k1], c.vertices@[k2]]
        0 <= k1 < c.vertices@.len() && 0 <= k2 < c.vertices@.len() && !same_vertex(
            c.vertices@[k1],
            c.vertices@[k2],
        ) && equidistant(c.vertices@[k1], p, q) && equidistant(c.vertices@[k2], p, q)
}

/// Sites `i` and `j` are neighbors: the shared-edge test on the
/// unordered pair, evaluated on the lower-indexed cell. Symmetric in
/// `i` and `j` by definition.
pub open spec fn adjacent(cells: Seq<Cell>, i: int, j: int) -> bool {
    let a = if i <= j { i } else { j };
    let b = if i <= j { j } else { i };
    share_edge(cells[a], cells[a].position, cells[b].position)
}

/// The neighbor relation is symmetric in its two site indices.
pub proof fn lemma_adjacent_symmetric(cells: Seq<Cell>, i: int, j: int)
    ensures
        adjacent(cells, i, j) == adjacent(cells, j, i),
{
}

/// Decide `share_edge(c, p, q)` by scanning all vertex pairs.
fn share_edge_exec(c: &Cell, p: &Point, q: &Point) -> (r: Option<bool>)
    ensures
        r matches Some(b) ==> b == share_edge(*c, *p, *q),
{
    let n = c.vertices.len();
    let mut k1: usize = 0;
    while k1 < n
        invariant
            k1 <= n,
            n == c.vertices@.len(),
            forall|a: int, b: int|
                #![trigger c.vertices@[a], c.vertices@[b]]
                0 <= a < k1 && 0 <= b < n ==> !(!same_vertex(c.vertices@[a], c.vertices@[b])
                    && equidistant(c.vertices@[a], *p, *q) && equidistant(c.vertices@[b], *p, *q)),
        decreases n - k1,
    {
        let e1 = match equidistant_exec(&c.vertices[k1], p, q) {
            Some(b) => b,
            None => {
                return None;
            },
        };
        if e1 {
            let mut k2: usize = 0;
            while k2 < n
                invariant
                    k2 <= n,
                    k1 < n,
                    n == c.vertices@.len(),
                    equidistant(c.vertices@[k1 as int], *p, *q),
                    forall|b: int|
                        #![trigger c.vertices@[b]]
                        0 <= b < k2 ==> !(!same_vertex(c.vertices@[k1 as int], c.vertices@[b])
                            && equidistant(c.vertices@[b], *p, *q)),
                decreases n - k2,
            {
                let e2 = match equidistant_exec(&c.vertices[k2], p, q) {
                    Some(b) => b,
                    None => {
                        return None;
                    },
                };
                if e2 {
                    let sv = match same_vertex_exec(&c.vertices[k1], &c.vertices[k2]) {
                        Some(b) => b,
                        None => {
                            return None;
                        },
                    };
                    if !sv {
                        return Some(true);
                    }
                }
                k2 = k2 + 1;
            }
        } else {
            proof {
                assert forall|b: int|
                    0 <= b < n implies !(!same_vertex(c.vertices@[k1 as int], #[trigger] c.vertices@[b])
                    && equidistant(c.vertices@[k1 as int], *p, *q) && equidistant(
                    c.vertices@[b],
                    *p,
                    *q,
                )) by {}
            }
        }
        k1 = k1 + 1;
    }
    Some(false)
}

/// The neighbor list of site `i`: every other site whose cell shares an
/// edge with cell `i`, in increasing index order.
fn neighbor_row(cells: &Vec<Cell>, i: usize) -> (r: Result<Vec<usize>, BuildError>)
    requires
        i < cells@.len(),
    ensures
        r matches Ok(row) ==> {
            &&& forall|j: int|
                0 <= j < cells@.len() ==> (#[trigger] has_neighbor(row@, j) <==> j != i
                    && adjacent(cells@, i as int, j))
            &&& forall|k: int| 0 <= k < row@.len() ==> (#[trigger] row@[k]) < cells@.len()
        },
        r matches Err(e) ==> e == BuildError::Geometry,
        cells@.len() <= 1 ==> r is Ok,
{
    let n = cells.len();
    let mut row: Vec<usize> = Vec::new();
    let mut j: usize = 0;
    while j < n
        invariant
            j <= n,
            n == cells@.len(),
            i < n,
            forall|j2: int|
                0 <= j2 < j ==> (#[trigger] has_neighbor(row@, j2) <==> j2 != i && adjacent(
                    cells@,
                    i as int,
                    j2,
                )),
            forall|k: int| 0 <= k < row@.len() ==> (#[trigger] row@[k]) < j,
        decreases n - j,
    {
        let ghost old_row = row@;
        let mut pushed: bool = false;
        if j != i {
            let a = if i <= j { i } else { j };
            let b = if i <= j { j } else { i };
            let t = match share_edge_exec(&cells[a], &cells[a].position, &cells[b].position) {
                Some(t) => t,
                None => {
                    return Err(BuildError::Geometry);
                },
            };
            proof {
                assert(t == adjacent(cells@, i as int, j as int));
            }
            if t {
                row.push(j);
                pushed = true;
            }
        }
        proof {
            let take = j != i && adjacent(cells@, i as int, j as int);
            assert(pushed <==> take);
            if pushed {
                assert(row@ == old_row.push(j));
                assert forall|x: usize| #[trigger] row@.contains(x) implies old_row.contains(x) || x
                    == j by {
                    let idx = choose|idx: int| 0 <= idx < row@.len() && row@[idx] == x;
                    if idx < old_row.len() {
                        assert(old_row[idx] == x);
                    }
                }
                assert forall|x: usize| old_row.contains(x) || x == j implies #[trigger] row@.contains(
                    x,
                ) by {
                    if old_row.contains(x) {
                        let idx = choose|idx: int| 0 <= idx < old_row.len() && old_row[idx] == x;
                        assert(row@[idx] == x);
                    } else {
                        assert(row@[old_row.len() as int] == j);
                    }
                }
            } else {
                assert(row@ == old_row);
            }
            assert forall|j2: int| 0 <= j2 < j + 1 implies (#[trigger] has_neighbor(row@, j2)
                <==> j2 != i && adjacent(cells@, i as int, j2)) by {
                let adj = adjacent(cells@, i as int, j2);
                let oc = has_neighbor(old_row, j2);
                let rc = has_neighbor(row@, j2);
                if j2 == j {
                    assert(j2 as usize == j);
                    if take {
                        assert(row@[old_row.len() as int] == j);
                        assert(row@.contains(j2 as usize));
                    } else {
                        if row@.contains(j2 as usize) {
                            let idx = choose|idx: int| 0 <= idx < row@.len() && row@[idx] == j2 as usize;
                            assert(old_row[idx] < j);
                            assert(false);
                        }
                    }
                } else {
                    if row@.contains(j2 as usize) {
                        if !old_row.contains(j2 as usize) {
                            assert(pushed && j2 as usize == j);
                            assert(false);
                        }
                    }
                    if old_row.contains(j2 as usize) {
                        if pushed {
                            let idx = choose|idx: int|
                                0 <= idx < old_row.len() && old_row[idx] == j2 as usize;
                            assert(row@[idx] == j2 as usize);
                        }
                        assert(row@.contains(j2 as usize));
                    }
                }
            }
        }
        j = j + 1;
    }
    Ok(row)
}

/// Per-cell preservation of everything except the neighbor list.
pub open spec fn same_but_neighbors(a: Cell, b: Cell) -> bool {
    &&& a.site == b.site
    &&& a.position == b.position
    &&& a.vertices@ == b.vertices@
    &&& a.is_on_hull == b.is_on_hull
}

/// Neighbor lists hold exactly the adjacent sites.
pub open spec fn neighbors_assigned(cells: Seq<Cell>, out: Seq<Cell>) -> bool {
    forall|i: int, j: int|
        0 <= i < out.len() && 0 <= j < out.len() ==> (#[trigger] has_neighbor(
            out[i].neighbors@,
            j,
        ) <==> j != i && adjacent(cells, i, j))
}

/// Law: the computed neighbor relation is symmetric — site `j` appears
/// in cell `i`'s neighbor list exactly when site `i` appears in cell
/// `j`'s.
pub proof fn lemma_neighbor_symmetry(cells: Seq<Cell>, out: Seq<Cell>, i: int, j: int)
    requires
        neighbors_assigned(cells, out),
        0 <= i < out.len(),
        0 <= j < out.len(),
    ensures
        has_neighbor(out[i].neighbors@, j) <==> has_neighbor(out[j].neighbors@, i),
{
    lemma_adjacent_symmetric(cells, i, j);
}

/// Rebuild the cell list with neighbor lists filled in; positions,
/// vertex polygons, site indices and hull flags are unchanged.
pub fn add_neighbors(cells: Vec<Cell>) -> (r: Result<Vec<Cell>, BuildError>)
    ensures
        r matches Ok(out) ==> {
            &&& out@.len() == cells@.len()
            &&& forall|i: int|
                0 <= i < out@.len() ==> same_but_neighbors(#[trigger] out@[i], cells@[i])
            &&& neighbors_assigned(cells@, out@)
        },
        r matches Err(e) ==> e == BuildError::Geometry,
        cells@.len() <= 1 ==> r is Ok,
{
    let n = cells.len();
    let mut out: Vec<Cell> = Vec::new();
    let mut i: usize = 0;
    while i < n
        invariant
            i <= n,
            n == cells@.len(),
            out@.len() == i,
            forall|i2: int| 0 <= i2 < i ==> same_but_neighbors(#[trigger] out@[i2], cells@[i2]),
            forall|i2: int, j: int|
                0 <= i2 < i && 0 <= j < n ==> (#[trigger] has_neighbor(out@[i2].neighbors@, j)
                    <==> j != i2 && adjacent(cells@, i2, j)),
        decreases n - i,
    {
        let row = match neighbor_row(&cells, i) {
            Ok(row) => row,
            Err(e) => {
                return Err(e);
            },
        };
        let c = &cells[i];
        let mut verts: Vec<Vertex> = Vec::new();
        let mut k: usize = 0;
        let vn = c.vertices.len();
        while k < vn
            invariant
                k <= vn,
                vn == c.vertices@.len(),
                verts@ =~= c.vertices@.subrange(0, k as int),
            decreases vn - k,
        {
            verts.push(c.vertices[k]);
            k = k + 1;
        }
        proof {
            assert(verts@ =~= c.vertices@);
        }
        let ghost verts_view = verts@;
        let ghost row_view = row@;
        let nc = Cell {
            site: c.site,
            position: c.position,
            vertices: verts,
            neighbors: row,
            is_on_hull: c.is_on_hull,
        };
        proof {
            assert(nc.vertices@ == verts_view);
            assert(nc.neighbors@ == row_view);
            assert(same_but_neighbors(nc, cells@[i as int]));
        }
        out.push(nc);
        proof {
            assert(out@[i as int] == nc);
            assert forall|j: int| 0 <= j < n implies (#[trigger] has_neighbor(
                out@[i as int].neighbors@,
                j,
            ) <==> j != i as int && adjacent(cells@, i as int, j)) by {
                let adj = adjacent(cells@, i as int, j);
                let rc = has_neighbor(row_view, j);
                assert(out@[i as int].neighbors@ == row_view);
            }
        }
        i = i + 1;
    }
    proof {
        assert(neighbors_assigned(cells@, out@));
    }
    Ok(out)
}

} // verus!
