//! Lloyd relaxation: each site moves to the area-weighted centroid of
//! its clipped cell, rounded to the nearest grid point and clamped to
//! the bounding region, and the diagram is rebuilt from scratch. A cell
//! of zero area keeps its site where it was.

use vstd::prelude::*;
use crate::geom::{Point, Vertex};
use crate::region::BoundingRegion;
use crate::cell::{Cell, BuildError};
use crate::num::reduce_triple;

verus! {

/// A scalar rational with positive denominator, reduced to an equal
/// value.
fn rat_reduce(n: i128, d: i128) -> (r: (i128, i128))
    requires
        d >= 1,
    ensures
        r.1 >= 1,
        r.0 * d == n * r.1,
{
    let (a, _, c) = reduce_triple(n, 0, d);
    (a, c)
}

/// Exact rational addition with checked arithmetic: the result's value
/// is pinned by cross-multiplication against the exact sum.
fn rat_add(a: (i128, i128), b: (i128, i128)) -> (r: Option<(i128, i128)>)
    requires
        a.1 >= 1,
        b.1 >= 1,
    ensures
        r matches Some(v) ==> {
            &&& v.1 >= 1
            &&& v.0 * (a.1 * b.1) == (a.0 * b.1 + b.0 * a.1) * v.1
        },
{
    let n1 = match a.0.checked_mul(b.1) {
        Some(t) => t,
        None => {
            return None;
        },
    };
    let n2 = match b.0.checked_mul(a.1) {
        Some(t) => t,
        None => {
            return None;
        },
    };
    let n = match n1.checked_add(n2) {
        Some(t) => t,
        None => {
            return None;
        },
    };
    let d = match a.1.checked_mul(b.1) {
        Some(t) => t,
        None => {
            return None;
        },
    };
    proof {
        assert(a.1 * b.1 >= 1) by (nonlinear_arith)
            requires
                a.1 >= 1,
                b.1 >= 1,
        ;
    }
    Some(rat_reduce(n, d))
}

/// Exact rational multiplication with checked arithmetic: the result's
/// value is pinned by cross-multiplication against the exact product.
fn rat_mul(a: (i128, i128), b: (i128, i128)) -> (r: Option<(i128, i128)>)
    requires
        a.1 >= 1,
        b.1 >= 1,
    ensures
        r matches Some(v) ==> {
            &&& v.1 >= 1
            &&& v.0 * (a.1 * b.1) == (a.0 * b.0) * v.1
        },
{
    let n = match a.0.checked_mul(b.0) {
        Some(t) => t,
        None => {
            return None;
        },
    };
    let d = match a.1.checked_mul(b.1) {
        Some(t) => t,
        None => {
            return None;
        },
    };
    proof {
        assert(a.1 * b.1 >= 1) by (nonlinear_arith)
            requires
                a.1 >= 1,
                b.1 >= 1,
        ;
    }
    Some(rat_reduce(n, d))
}

/// Round `num / den` to the nearest integer (ties away from zero).
fn round_div(num: i128, den: i128) -> (r: Option<i128>)
    requires
        den >= 1,
{
    let q = match num.checked_div(den) {
        Some(t) => t,
        None => {
            return None;
        },
    };
    let rem = match num.checked_rem(den) {
        Some(t) => t,
        None => {
            return None;
        },
    };
    let rem2 = match rem.checked_mul(2) {
        Some(t) => t,
        None => {
            return None;
        },
    };
    if num >= 0 {
        if rem2 >= den {
            q.checked_add(1)
        } else {
            Some(q)
        }
    } else {
        let neg = match (0i128).checked_sub(rem2) {
            Some(t) => t,
            None => {
                return None;
            },
        };
        if neg >= den {
            q.checked_sub(1)
        } else {
            Some(q)
        }
    }
}

/// Clamp an `i128` value into the closed interval `[lo, hi]` of grid
/// coordinates.
fn clamp_i64(v: i128, lo: i64, hi: i64) -> (r: i64)
    requires
        lo <= hi,
    ensures
        lo <= r <= hi,
        lo as int <= v <= hi as int ==> r == v,
{
    if v < lo as i128 {
        lo
    } else if v > hi as i128 {
        hi
    } else {
        v as i64
    }
}

/// The centroid of a cell polygon, rounded to the grid and clamped to
/// the region; the fallback position is kept when the polygon's area is
/// zero. On success the result lies in the region or is the fallback.
fn cell_centroid(vs: &Vec<Vertex>, fallback: Point, region: &BoundingRegion) -> (r: Result<
    Point,
    BuildError,
>)
    requires
        region.wf(),
        forall|k: int| 0 <= k < vs@.len() ==> (#[trigger] vs@[k]).d >= 1,
    ensures
        r matches Ok(p) ==> (region.x1 <= p.x <= region.x2 && region.y1 <= p.y <= region.y2) || p
            == fallback,
        vs@.len() < 3 ==> r == Ok::<Point, BuildError>(fallback),
        r matches Err(e) ==> e == BuildError::Geometry,
{
    let n = vs.len();
    if n < 3 {
        return Ok(fallback);
    }
    let mut area2: (i128, i128) = (0, 1);
    let mut cx6: (i128, i128) = (0, 1);
    let mut cy6: (i128, i128) = (0, 1);
    let mut k: usize = 0;
    while k < n
        invariant
            k <= n,
            3 <= n,
            n == vs@.len(),
            area2.1 >= 1,
            cx6.1 >= 1,
            cy6.1 >= 1,
            forall|k2: int| 0 <= k2 < vs@.len() ==> (#[trigger] vs@[k2]).d >= 1,
        decreases n - k,
    {
        let kn = if k + 1 == n { 0 } else { k + 1 };
        let cur = vs[k];
        let nxt = vs[kn];
        let c1 = match cur.xn.checked_mul(nxt.yn) {
            Some(t) => t,
            None => {
                return Err(BuildError::Geometry);
            },
        };
        let c2 = match nxt.xn.checked_mul(cur.yn) {
            Some(t) => t,
            None => {
                return Err(BuildError::Geometry);
            },
        };
        let cn = match c1.checked_sub(c2) {
            Some(t) => t,
            None => {
                return Err(BuildError::Geometry);
            },
        };
        let cd = match cur.d.checked_mul(nxt.d) {
            Some(t) => t,
            None => {
                return Err(BuildError::Geometry);
            },
        };
        proof {
            assert(cur.d * nxt.d >= 1) by (nonlinear_arith)
                requires
                    cur.d >= 1,
                    nxt.d >= 1,
            ;
        }
        let cross = rat_reduce(cn, cd);
        // Sum of the two x coordinates, as a rational over cd.
        let sx1 = match cur.xn.checked_mul(nxt.d) {
            Some(t) => t,
            None => {
                return Err(BuildError::Geometry);
            },
        };
        let sx2 = match nxt.xn.checked_mul(cur.d) {
            Some(t) => t,
            None => {
                return Err(BuildError::Geometry);
            },
        };
        let sxn = match sx1.checked_add(sx2) {
            Some(t) => t,
            None => {
                return Err(BuildError::Geometry);
            },
        };
        let sy1 = match cur.yn.checked_mul(nxt.d) {
            Some(t) => t,
            None => {
                return Err(BuildError::Geometry);
            },
        };
        let sy2 = match nxt.yn.checked_mul(cur.d) {
            Some(t) => t,
            None => {
                return Err(BuildError::Geometry);
            },
        };
        let syn = match sy1.checked_add(sy2) {
            Some(t) => t,
            None => {
                return Err(BuildError::Geometry);
            },
        };
        let sx = rat_reduce(sxn, cd);
        let sy = rat_reduce(syn, cd);
        let tx = match rat_mul(sx, cross) {
            Some(t) => t,
            None => {
                return Err(BuildError::Geometry);
            },
        };
        let ty = match rat_mul(sy, cross) {
            Some(t) => t,
            None => {
                return Err(BuildError::Geometry);
            },
        };
        area2 = match rat_add(area2, cross) {
            Some(t) => t,
            None => {
                return Err(BuildError::Geometry);
            },
        };
        cx6 = match rat_add(cx6, tx) {
            Some(t) => t,
            None => {
                return Err(BuildError::Geometry);
            },
        };
        cy6 = match rat_add(cy6, ty) {
            Some(t) => t,
            None => {
                return Err(BuildError::Geometry);
            },
        };
        k = k + 1;
    }
    if area2.0 == 0 {
        return Ok(fallback);
    }
    // centroid = cx6 / (3 * area2), same for y.
    let a3 = match area2.0.checked_mul(3) {
        Some(t) => t,
        None => {
            return Err(BuildError::Geometry);
        },
    };
    let xn = match cx6.0.checked_mul(area2.1) {
        Some(t) => t,
        None => {
            return Err(BuildError::Geometry);
        },
    };
    let xd = match cx6.1.checked_mul(a3) {
        Some(t) => t,
        None => {
            return Err(BuildError::Geometry);
        },
    };
    let yn = match cy6.0.checked_mul(area2.1) {
        Some(t) => t,
        None => {
            return Err(BuildError::Geometry);
        },
    };
    let yd = match cy6.1.checked_mul(a3) {
        Some(t) => t,
        None => {
            return Err(BuildError::Geometry);
        },
    };
    let (xn, xd) = if xd < 0 {
        let nn = match (0i128).checked_sub(xn) {
            Some(t) => t,
            None => {
                return Err(BuildError::Geometry);
            },
        };
        let nd = match (0i128).checked_sub(xd) {
            Some(t) => t,
            None => {
                return Err(BuildError::Geometry);
            },
        };
        (nn, nd)
    } else {
        (xn, xd)
    };
    let (yn, yd) = if yd < 0 {
        let nn = match (0i128).checked_sub(yn) {
            Some(t) => t,
            None => {
                return Err(BuildError::Geometry);
            },
        };
        let nd = match (0i128).checked_sub(yd) {
            Some(t) => t,
            None => {
                return Err(BuildError::Geometry);
            },
        };
        (nn, nd)
    } else {
        (yn, yd)
    };
    if xd < 1 || yd < 1 {
        return Err(BuildError::Geometry);
    }
    let rx = match round_div(xn, xd) {
        Some(t) => t,
        None => {
            return Err(BuildError::Geometry);
        },
    };
    let ry = match round_div(yn, yd) {
        Some(t) => t,
        None => {
            return Err(BuildError::Geometry);
        },
    };
    let px = clamp_i64(rx, region.x1, region.x2);
    let py = clamp_i64(ry, region.y1, region.y2);
    Ok(Point { x: px, y: py })
}

/// One relaxation step: the new position of every site.
pub fn relax_positions(cells: &Vec<Cell>, region: &BoundingRegion) -> (r: Result<
    Vec<Point>,
    BuildError,
>)
    requires
        region.wf(),
        forall|i: int, k: int|
            0 <= i < cells@.len() && 0 <= k < cells@[i].vertices@.len() ==> (#[trigger] cells@[i].vertices@[k]).d
                >= 1,
    ensures
        r matches Ok(ps) ==> {
            &&& ps@.len() == cells@.len()
            &&& forall|i: int|
                0 <= i < ps@.len() ==> (region.x1 <= (#[trigger] ps@[i]).x <= region.x2 && region.y1
                    <= ps@[i].y <= region.y2) || ps@[i] == cells@[i].position
            &&& forall|i: int|
                0 <= i < ps@.len() && cells@[i].vertices@.len() < 3 ==> (#[trigger] ps@[i])
                    == cells@[i].position
        },
        r matches Err(e) ==> e == BuildError::Geometry,
{
    let n = cells.len();
    let mut ps: Vec<Point> = Vec::new();
    let mut i: usize = 0;
    while i < n
        invariant
            i <= n,
            n == cells@.len(),
            ps@.len() == i,
            region.wf(),
            forall|i2: int, k: int|
                0 <= i2 < cells@.len() && 0 <= k < cells@[i2].vertices@.len() ==> (
                #[trigger] cells@[i2].vertices@[k]).d >= 1,
            forall|i2: int|
                0 <= i2 < i ==> (region.x1 <= (#[trigger] ps@[i2]).x <= region.x2 && region.y1
                    <= ps@[i2].y <= region.y2) || ps@[i2] == cells@[i2].position,
            forall|i2: int|
                0 <= i2 < i && cells@[i2].vertices@.len() < 3 ==> (#[trigger] ps@[i2])
                    == cells@[i2].position,
        decreases n - i,
    {
        let c = &cells[i];
        let p = match cell_centroid(&c.vertices, c.position, region) {
            Ok(p) => p,
            Err(e) => {
                return Err(e);
            },
        };
        ps.push(p);
        i = i + 1;
    }
    Ok(ps)
}

} // verus!
