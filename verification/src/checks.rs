//! Checked evaluators for the spec-level geometric predicates. Each one
//! either returns exactly the value of its spec counterpart or reports
//! `None` when the exact computation would leave `i128`.

use vstd::prelude::*;
use crate::geom::{
    Point, Vertex, coord_ok, scaled_sq_dist, closer_eq, equidistant, same_vertex, orient_val,
    COORD_LIMIT,
};
use crate::region::{BoundingRegion, in_region, on_boundary, region_in_grid};

verus! {

/// Largest vertex numerator under which the evaluators are total (2^61).
pub const VERTEX_NUM_LIMIT: i128 = 2305843009213693952;

/// Largest vertex denominator under which the evaluators are total
/// (2^45).
pub const VERTEX_DEN_LIMIT: i128 = 35184372088832;

/// Magnitude bounds under which the checked evaluators never leave
/// `i128`: every intermediate product then fits.
pub open spec fn bounded_vertex(v: Vertex) -> bool {
    &&& 1 <= v.d <= VERTEX_DEN_LIMIT
    &&& -VERTEX_NUM_LIMIT <= v.xn <= VERTEX_NUM_LIMIT
    &&& -VERTEX_NUM_LIMIT <= v.yn <= VERTEX_NUM_LIMIT
}

/// A grid coordinate times a bounded denominator stays within the
/// numerator bound.
proof fn lemma_coord_times_den(a: i64, d: i128)
    requires
        -COORD_LIMIT <= a <= COORD_LIMIT,
        1 <= d <= VERTEX_DEN_LIMIT,
    ensures
        -VERTEX_NUM_LIMIT <= a * d <= VERTEX_NUM_LIMIT,
{
    assert(-VERTEX_NUM_LIMIT <= a * d <= VERTEX_NUM_LIMIT) by (nonlinear_arith)
        requires
            -COORD_LIMIT <= a <= COORD_LIMIT,
            1 <= d <= VERTEX_DEN_LIMIT,
    ;
}

/// The square of a value up to 2^62 stays within `i128`.
proof fn lemma_square_fits(u: int)
    requires
        -4611686018427387904 <= u <= 4611686018427387904,
    ensures
        0 <= u * u <= 21267647932558653966460912964485513216,
{
    assert(0 <= u * u <= 21267647932558653966460912964485513216) by (nonlinear_arith)
        requires
            -4611686018427387904 <= u <= 4611686018427387904,
    ;
}

/// Exact value of `scaled_sq_dist(v, p)`; total on bounded inputs.
pub fn scaled_sq_dist_exec(v: &Vertex, p: &Point) -> (r: Option<i128>)
    ensures
        r matches Some(e) ==> e == scaled_sq_dist(*v, *p),
        bounded_vertex(*v) && coord_ok(*p) ==> r is Some,
{
    let ghost ok = bounded_vertex(*v) && coord_ok(*p);
    proof {
        if ok {
            lemma_coord_times_den(p.x, v.d);
            lemma_coord_times_den(p.y, v.d);
        }
    }
    let tx = match (p.x as i128).checked_mul(v.d) {
        Some(t) => t,
        None => {
            proof {
                if ok {
                    assert(false);
                }
            }
            return None;
        },
    };
    let ux = match v.xn.checked_sub(tx) {
        Some(t) => t,
        None => {
            proof {
                if ok {
                    assert(false);
                }
            }
            return None;
        },
    };
    proof {
        if ok {
            lemma_square_fits(ux as int);
        }
    }
    let sx = match ux.checked_mul(ux) {
        Some(t) => t,
        None => {
            proof {
                if ok {
                    assert(false);
                }
            }
            return None;
        },
    };
    let ty = match (p.y as i128).checked_mul(v.d) {
        Some(t) => t,
        None => {
            proof {
                if ok {
                    assert(false);
                }
            }
            return None;
        },
    };
    let uy = match v.yn.checked_sub(ty) {
        Some(t) => t,
        None => {
            proof {
                if ok {
                    assert(false);
                }
            }
            return None;
        },
    };
    proof {
        if ok {
            lemma_square_fits(uy as int);
        }
    }
    let sy = match uy.checked_mul(uy) {
        Some(t) => t,
        None => {
            proof {
                if ok {
                    assert(false);
                }
            }
            return None;
        },
    };
    let res = sx.checked_add(sy);
    proof {
        if ok {
            assert(res is Some);
        }
    }
    res
}

/// Decide `closer_eq(v, p, q)`; total on bounded inputs.
pub fn closer_eq_exec(v: &Vertex, p: &Point, q: &Point) -> (r: Option<bool>)
    ensures
        r matches Some(b) ==> b == closer_eq(*v, *p, *q),
        bounded_vertex(*v) && coord_ok(*p) && coord_ok(*q) ==> r is Some,
{
    let dp = match scaled_sq_dist_exec(v, p) {
        Some(e) => e,
        None => {
            return None;
        },
    };
    let dq = match scaled_sq_dist_exec(v, q) {
        Some(e) => e,
        None => {
            return None;
        },
    };
    Some(dp <= dq)
}

/// Decide `equidistant(v, p, q)`; total on bounded inputs.
pub fn equidistant_exec(v: &Vertex, p: &Point, q: &Point) -> (r: Option<bool>)
    ensures
        r matches Some(b) ==> b == equidistant(*v, *p, *q),
        bounded_vertex(*v) && coord_ok(*p) && coord_ok(*q) ==> r is Some,
{
    let dp = match scaled_sq_dist_exec(v, p) {
        Some(e) => e,
        None => {
            return None;
        },
    };
    let dq = match scaled_sq_dist_exec(v, q) {
        Some(e) => e,
        None => {
            return None;
        },
    };
    Some(dp == dq)
}

/// Decide `same_vertex(u, v)`.
pub fn same_vertex_exec(u: &Vertex, v: &Vertex) -> (r: Option<bool>)
    ensures
        r matches Some(b) ==> b == same_vertex(*u, *v),
{
    let t1 = match u.xn.checked_mul(v.d) {
        Some(t) => t,
        None => {
            return None;
        },
    };
    let t2 = match v.xn.checked_mul(u.d) {
        Some(t) => t,
        None => {
            return None;
        },
    };
    let t3 = match u.yn.checked_mul(v.d) {
        Some(t) => t,
        None => {
            return None;
        },
    };
    let t4 = match v.yn.checked_mul(u.d) {
        Some(t) => t,
        None => {
            return None;
        },
    };
    Some(t1 == t2 && t3 == t4)
}

/// Decide `in_region(v, r)`; total on bounded inputs.
pub fn in_region_exec(v: &Vertex, r: &BoundingRegion) -> (res: Option<bool>)
    ensures
        res matches Some(b) ==> b == in_region(*v, *r),
        bounded_vertex(*v) && region_in_grid(*r) ==> res is Some,
{
    let ghost ok = bounded_vertex(*v) && region_in_grid(*r);
    proof {
        if ok {
            lemma_coord_times_den(r.x1, v.d);
            lemma_coord_times_den(r.x2, v.d);
            lemma_coord_times_den(r.y1, v.d);
            lemma_coord_times_den(r.y2, v.d);
        }
    }
    let tx1 = match (r.x1 as i128).checked_mul(v.d) {
        Some(t) => t,
        None => {
            proof {
                if ok {
                    assert(false);
                }
            }
            return None;
        },
    };
    let tx2 = match (r.x2 as i128).checked_mul(v.d) {
        Some(t) => t,
        None => {
            proof {
                if ok {
                    assert(false);
                }
            }
            return None;
        },
    };
    let ty1 = match (r.y1 as i128).checked_mul(v.d) {
        Some(t) => t,
        None => {
            proof {
                if ok {
                    assert(false);
                }
            }
            return None;
        },
    };
    let ty2 = match (r.y2 as i128).checked_mul(v.d) {
        Some(t) => t,
        None => {
            proof {
                if ok {
                    assert(false);
                }
            }
            return None;
        },
    };
    Some(tx1 <= v.xn && v.xn <= tx2 && ty1 <= v.yn && v.yn <= ty2)
}

/// Decide `on_boundary(v, r)`.
pub fn on_boundary_exec(v: &Vertex, r: &BoundingRegion) -> (res: Option<bool>)
    ensures
        res matches Some(b) ==> b == on_boundary(*v, *r),
{
    let tx1 = match (r.x1 as i128).checked_mul(v.d) {
        Some(t) => t,
        None => {
            return None;
        },
    };
    let tx2 = match (r.x2 as i128).checked_mul(v.d) {
        Some(t) => t,
        None => {
            return None;
        },
    };
    let ty1 = match (r.y1 as i128).checked_mul(v.d) {
        Some(t) => t,
        None => {
            return None;
        },
    };
    let ty2 = match (r.y2 as i128).checked_mul(v.d) {
        Some(t) => t,
        None => {
            return None;
        },
    };
    Some(v.xn == tx1 || v.xn == tx2 || v.yn == ty1 || v.yn == ty2)
}

/// `v` lies inside or on the boundary of the convex counter-clockwise
/// polygon `vs`: it is on the left of (or on) every directed edge.
pub open spec fn convex_contains(vs: Seq<Vertex>, v: Vertex) -> bool {
    &&& vs.len() >= 3
    &&& forall|k: int|
        0 <= k < vs.len() ==> #[trigger] orient_val(
            vs[k],
            vs[crate::geom::next_idx(k, vs.len() as int)],
            v,
        ) >= 0
}

/// Decide `convex_contains(vs, v)`: point-in-polygon containment for a
/// convex counter-clockwise polygon.
pub fn convex_contains_exec(vs: &Vec<Vertex>, v: &Vertex) -> (r: Option<bool>)
    ensures
        r matches Some(b) ==> b == convex_contains(vs@, *v),
{
    let n = vs.len();
    if n < 3 {
        return Some(false);
    }
    let mut k: usize = 0;
    while k < n
        invariant
            k <= n,
            3 <= n,
            n == vs@.len(),
            forall|k2: int|
                0 <= k2 < k ==> #[trigger] orient_val(
                    vs@[k2],
                    vs@[crate::geom::next_idx(k2, vs@.len() as int)],
                    *v,
                ) >= 0,
        decreases n - k,
    {
        let kn = if k + 1 == n { 0 } else { k + 1 };
        proof {
            assert(kn as int == crate::geom::next_idx(k as int, vs@.len() as int));
        }
        match orient_exec(&vs[k], &vs[kn], v) {
            Some(e) => {
                if e < 0 {
                    proof {
                        assert(orient_val(
                            vs@[k as int],
                            vs@[crate::geom::next_idx(k as int, vs@.len() as int)],
                            *v,
                        ) < 0);
                    }
                    return Some(false);
                }
            },
            None => {
                return None;
            },
        }
        k = k + 1;
    }
    Some(true)
}

/// Exact value of `orient_val(p, q, r)`.
pub fn orient_exec(p: &Vertex, q: &Vertex, r: &Vertex) -> (res: Option<i128>)
    ensures
        res matches Some(e) ==> e == orient_val(*p, *q, *r),
{
    let a1 = match q.xn.checked_mul(p.d) {
        Some(t) => t,
        None => {
            return None;
        },
    };
    let a2 = match p.xn.checked_mul(q.d) {
        Some(t) => t,
        None => {
            return None;
        },
    };
    let f1 = match a1.checked_sub(a2) {
        Some(t) => t,
        None => {
            return None;
        },
    };
    let b1 = match r.yn.checked_mul(p.d) {
        Some(t) => t,
        None => {
            return None;
        },
    };
    let b2 = match p.yn.checked_mul(r.d) {
        Some(t) => t,
        None => {
            return None;
        },
    };
    let f2 = match b1.checked_sub(b2) {
        Some(t) => t,
        None => {
            return None;
        },
    };
    let c1 = match r.xn.checked_mul(p.d) {
        Some(t) => t,
        None => {
            return None;
        },
    };
    let c2 = match p.xn.checked_mul(r.d) {
        Some(t) => t,
        None => {
            return None;
        },
    };
    let f3 = match c1.checked_sub(c2) {
        Some(t) => t,
        None => {
            return None;
        },
    };
    let d1 = match q.yn.checked_mul(p.d) {
        Some(t) => t,
        None => {
            return None;
        },
    };
    let d2 = match p.yn.checked_mul(q.d) {
        Some(t) => t,
        None => {
            return None;
        },
    };
    let f4 = match d1.checked_sub(d2) {
        Some(t) => t,
        None => {
            return None;
        },
    };
    let m1 = match f1.checked_mul(f2) {
        Some(t) => t,
        None => {
            return None;
        },
    };
    let m2 = match f3.checked_mul(f4) {
        Some(t) => t,
        None => {
            return None;
        },
    };
    m1.checked_sub(m2)
}

} // verus!
