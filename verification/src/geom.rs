//! Geometric primitives: grid points, exact rational vertices, and the
//! spec-level predicates (distance comparison, orientation, containment)
//! that the rest of the engine is specified against.

use vstd::prelude::*;

verus! {

/// Largest coordinate magnitude the exact-arithmetic engine accepts.
/// Bisector and intersection computations on coordinates within this
/// bound stay comfortably inside `i128`.
pub const COORD_LIMIT: i64 = 65536;

/// A site position on the integer coordinate grid.
#[derive(Clone, Copy, PartialEq, Eq, Structural, Debug)]
pub struct Point {
    pub x: i64,
    pub y: i64,
}

/// An exact rational point `(xn / d, yn / d)` with positive denominator.
/// Voronoi vertices are intersections of bisector and boundary lines, so
/// they are rational even when all sites lie on the integer grid.
#[derive(Clone, Copy, PartialEq, Eq, Structural, Debug)]
pub struct Vertex {
    pub xn: i128,
    pub yn: i128,
    pub d: i128,
}

impl Vertex {
    /// A vertex is well formed when its denominator is positive.
    pub open spec fn wf(self) -> bool {
        self.d >= 1
    }

    /// The vertex at a grid point.
    pub fn from_point(p: Point) -> (v: Vertex)
        ensures
            v == (Vertex { xn: p.x as i128, yn: p.y as i128, d: 1i128 }),
            v.wf(),
    {
        Vertex { xn: p.x as i128, yn: p.y as i128, d: 1i128 }
    }
}

/// The point's coordinates are on the supported grid range.
pub open spec fn coord_ok(p: Point) -> bool {
    &&& -COORD_LIMIT <= p.x <= COORD_LIMIT
    &&& -COORD_LIMIT <= p.y <= COORD_LIMIT
}

/// Two rational points denote the same location: `u.xn/u.d == v.xn/v.d`
/// and likewise for `y`, stated by cross-multiplication.
pub open spec fn same_vertex(u: Vertex, v: Vertex) -> bool {
    &&& u.xn * v.d == v.xn * u.d
    &&& u.yn * v.d == v.yn * u.d
}

/// Squared distance from rational point `v` to grid point `p`, scaled by
/// `v.d * v.d`. The scale is the same for every grid point, so comparing
/// these values at one vertex compares true squared distances.
pub open spec fn scaled_sq_dist(v: Vertex, p: Point) -> int {
    (v.xn - p.x * v.d) * (v.xn - p.x * v.d) + (v.yn - p.y * v.d) * (v.yn - p.y * v.d)
}

/// `v` is at least as close to `p` as to `q`.
pub open spec fn closer_eq(v: Vertex, p: Point, q: Point) -> bool {
    scaled_sq_dist(v, p) <= scaled_sq_dist(v, q)
}

/// `v` is exactly equidistant from `p` and `q`, i.e. it lies on their
/// perpendicular bisector.
pub open spec fn equidistant(v: Vertex, p: Point, q: Point) -> bool {
    scaled_sq_dist(v, p) == scaled_sq_dist(v, q)
}

/// Cyclic successor index: `k + 1`, wrapped to `0` at `n`.
pub open spec fn next_idx(k: int, n: int) -> int {
    if k + 1 < n {
        k + 1
    } else {
        k + 1 - n
    }
}

/// Orientation of the triple `(p, q, r)`: the sign of this value is the
/// sign of the cross product `(q - p) x (r - p)` (positive for a left
/// turn), since the common denominator `p.d * q.d * r.d * p.d` is positive.
pub open spec fn orient_val(p: Vertex, q: Vertex, r: Vertex) -> int {
    (q.xn * p.d - p.xn * q.d) * (r.yn * p.d - p.yn * r.d)
        - (r.xn * p.d - p.xn * r.d) * (q.yn * p.d - p.yn * q.d)
}

} // verus!
