//! Clipping lines. A `Line { a, b, c }` stands for the closed half-plane
//! `a*x + b*y <= c`; its boundary is the line `a*x + b*y == c`. Cells are
//! produced by successively clipping the region's corner polygon with the
//! perpendicular bisector half-planes of the other sites.
//!
//! All arithmetic is checked; `None` anywhere means the computation left
//! the range of `i128` and the build reports a numerical failure.

use vstd::prelude::*;
use crate::geom::{Point, Vertex};
use crate::num::{gcd_i128, reduce_triple, abs_i128};

verus! {

/// The closed half-plane `a*x + b*y <= c`.
#[derive(Clone, Copy, PartialEq, Eq, Structural, Debug)]
pub struct Line {
    pub a: i128,
    pub b: i128,
    pub c: i128,
}

/// Value of `l` at the rational vertex `v`, scaled by the positive
/// denominator `v.d`: the sign of `line_eval` is the side of the line.
pub open spec fn line_eval(l: Line, v: Vertex) -> int {
    l.a * v.xn + l.b * v.yn - l.c * v.d
}

/// Evaluate `l` at `v` with checked arithmetic.
pub fn eval_line(l: &Line, v: &Vertex) -> (r: Option<i128>)
    ensures
        r matches Some(e) ==> e == line_eval(*l, *v),
{
    let t1 = match l.a.checked_mul(v.xn) {
        Some(t) => t,
        None => {
            return None;
        },
    };
    let t2 = match l.b.checked_mul(v.yn) {
        Some(t) => t,
        None => {
            return None;
        },
    };
    let t3 = match l.c.checked_mul(v.d) {
        Some(t) => t,
        None => {
            return None;
        },
    };
    let s = match t1.checked_add(t2) {
        Some(t) => t,
        None => {
            return None;
        },
    };
    s.checked_sub(t3)
}

/// The half-plane of points at least as close to `p` as to `q`:
/// `2*(q.x - p.x)*x + 2*(q.y - p.y)*y <= |q|^2 - |p|^2`.
pub fn bisector(p: Point, q: Point) -> (r: Option<Line>)
    ensures
        r matches Some(l) ==> {
            &&& l.a == 2 * (q.x - p.x)
            &&& l.b == 2 * (q.y - p.y)
            &&& l.c == q.x * q.x + q.y * q.y - p.x * p.x - p.y * p.y
        },
{
    let px = p.x as i128;
    let py = p.y as i128;
    let qx = q.x as i128;
    let qy = q.y as i128;
    let a = (qx - px) * 2;
    let b = (qy - py) * 2;
    let sq = match qx.checked_mul(qx) {
        Some(t) => t,
        None => {
            return None;
        },
    };
    let sq2 = match qy.checked_mul(qy) {
        Some(t) => t,
        None => {
            return None;
        },
    };
    let sp = match px.checked_mul(px) {
        Some(t) => t,
        None => {
            return None;
        },
    };
    let sp2 = match py.checked_mul(py) {
        Some(t) => t,
        None => {
            return None;
        },
    };
    let c1 = match sq.checked_add(sq2) {
        Some(t) => t,
        None => {
            return None;
        },
    };
    let c2 = match sp.checked_add(sp2) {
        Some(t) => t,
        None => {
            return None;
        },
    };
    let c = match c1.checked_sub(c2) {
        Some(t) => t,
        None => {
            return None;
        },
    };
    Some(Line { a, b, c })
}

/// Reduce a line's coefficients by their gcd where exactly possible;
/// the result, scaled back up by the returned positive factor, is the
/// original line, so it describes the same half-plane. The divisions
/// are re-checked by multiplication, so nothing rests on properties of
/// the gcd.
fn reduce_line(a: i128, b: i128, c: i128) -> (r: ((i128, i128, i128), i128))
    ensures
        r.1 >= 1,
        r.0.0 * r.1 == a,
        r.0.1 * r.1 == b,
        r.0.2 * r.1 == c,
{
    let aa = match abs_i128(a) {
        Some(v) => v,
        None => {
            return ((a, b, c), 1);
        },
    };
    let ab = match abs_i128(b) {
        Some(v) => v,
        None => {
            return ((a, b, c), 1);
        },
    };
    let ac = match abs_i128(c) {
        Some(v) => v,
        None => {
            return ((a, b, c), 1);
        },
    };
    let g = gcd_i128(ac, gcd_i128(aa, ab));
    if g <= 1 {
        return ((a, b, c), 1);
    }
    let qa = match a.checked_div(g) {
        Some(v) => v,
        None => {
            return ((a, b, c), 1);
        },
    };
    let qb = match b.checked_div(g) {
        Some(v) => v,
        None => {
            return ((a, b, c), 1);
        },
    };
    let qc = match c.checked_div(g) {
        Some(v) => v,
        None => {
            return ((a, b, c), 1);
        },
    };
    let ca = match qa.checked_mul(g) {
        Some(v) => v,
        None => {
            return ((a, b, c), 1);
        },
    };
    let cb = match qb.checked_mul(g) {
        Some(v) => v,
        None => {
            return ((a, b, c), 1);
        },
    };
    let cc = match qc.checked_mul(g) {
        Some(v) => v,
        None => {
            return ((a, b, c), 1);
        },
    };
    if ca == a && cb == b && cc == c {
        ((qa, qb, qc), g)
    } else {
        ((a, b, c), 1)
    }
}

/// Intersection of the boundary of `l` with the supporting line of the
/// edge from `p` to `q`, as a reduced rational vertex. `None` when the
/// lines are parallel or the arithmetic leaves `i128`.
pub fn intersect_edge(l: &Line, p: &Vertex, q: &Vertex) -> (r: Option<Vertex>)
    requires
        p.wf(),
        q.wf(),
    ensures
        r matches Some(v) ==> v.wf(),
{
    // Supporting line of the edge, scaled by p.d * q.d: ea*x + eb*y == ec.
    let t1 = match q.yn.checked_mul(p.d) {
        Some(t) => t,
        None => {
            return None;
        },
    };
    let t2 = match p.yn.checked_mul(q.d) {
        Some(t) => t,
        None => {
            return None;
        },
    };
    let ea0 = match t1.checked_sub(t2) {
        Some(t) => t,
        None => {
            return None;
        },
    };
    let t3 = match p.xn.checked_mul(q.d) {
        Some(t) => t,
        None => {
            return None;
        },
    };
    let t4 = match q.xn.checked_mul(p.d) {
        Some(t) => t,
        None => {
            return None;
        },
    };
    let eb0 = match t3.checked_sub(t4) {
        Some(t) => t,
        None => {
            return None;
        },
    };
    let t5 = match p.xn.checked_mul(q.yn) {
        Some(t) => t,
        None => {
            return None;
        },
    };
    let t6 = match q.xn.checked_mul(p.yn) {
        Some(t) => t,
        None => {
            return None;
        },
    };
    let ec0 = match t5.checked_sub(t6) {
        Some(t) => t,
        None => {
            return None;
        },
    };
    let ((ea, eb, ec), _scale) = reduce_line(ea0, eb0, ec0);
    // Cramer's rule on (l.a, l.b, l.c) and (ea, eb, ec).
    let d1 = match l.a.checked_mul(eb) {
        Some(t) => t,
        None => {
            return None;
        },
    };
    let d2 = match ea.checked_mul(l.b) {
        Some(t) => t,
        None => {
            return None;
        },
    };
    let det = match d1.checked_sub(d2) {
        Some(t) => t,
        None => {
            return None;
        },
    };
    if det == 0 {
        return None;
    }
    let x1 = match l.c.checked_mul(eb) {
        Some(t) => t,
        None => {
            return None;
        },
    };
    let x2 = match ec.checked_mul(l.b) {
        Some(t) => t,
        None => {
            return None;
        },
    };
    let xn0 = match x1.checked_sub(x2) {
        Some(t) => t,
        None => {
            return None;
        },
    };
    let y1 = match l.a.checked_mul(ec) {
        Some(t) => t,
        None => {
            return None;
        },
    };
    let y2 = match ea.checked_mul(l.c) {
        Some(t) => t,
        None => {
            return None;
        },
    };
    let yn0 = match y1.checked_sub(y2) {
        Some(t) => t,
        None => {
            return None;
        },
    };
    let (xn1, yn1, d0) = if det < 0 {
        let nx = match (0i128).checked_sub(xn0) {
            Some(t) => t,
            None => {
                return None;
            },
        };
        let ny = match (0i128).checked_sub(yn0) {
            Some(t) => t,
            None => {
                return None;
            },
        };
        let nd = match (0i128).checked_sub(det) {
            Some(t) => t,
            None => {
                return None;
            },
        };
        (nx, ny, nd)
    } else {
        (xn0, yn0, det)
    };
    let (xn, yn, d) = reduce_triple(xn1, yn1, d0);
    Some(Vertex { xn, yn, d })
}

/// Clip a polygon with the half-plane `l` (Sutherland–Hodgman step):
/// vertices with `line_eval <= 0` are kept, and an exact intersection
/// vertex is inserted on every edge that strictly crosses the boundary.
pub fn clip_polygon(poly: &Vec<Vertex>, l: &Line) -> (r: Option<Vec<Vertex>>)
    requires
        forall|i: int| 0 <= i < poly@.len() ==> (#[trigger] poly@[i]).wf(),
    ensures
        r matches Some(out) ==> forall|i: int| 0 <= i < out@.len() ==> (#[trigger] out@[i]).wf(),
{
    let n = poly.len();
    let mut out: Vec<Vertex> = Vec::new();
    if n == 0 {
        return Some(out);
    }
    let mut evals: Vec<i128> = Vec::new();
    let mut k: usize = 0;
    while k < n
        invariant
            evals@.len() == k,
            k <= n,
            n == poly@.len(),
        decreases n - k,
    {
        let e = match eval_line(l, &poly[k]) {
            Some(e) => e,
            None => {
                return None;
            },
        };
        evals.push(e);
        k = k + 1;
    }
    let mut k: usize = 0;
    while k < n
        invariant
            k <= n,
            n == poly@.len(),
            evals@.len() == n,
            forall|i: int| 0 <= i < poly@.len() ==> (#[trigger] poly@[i]).wf(),
            forall|i: int| 0 <= i < out@.len() ==> (#[trigger] out@[i]).wf(),
        decreases n - k,
    {
        let kn = if k + 1 == n { 0 } else { k + 1 };
        let cur = poly[k];
        let nxt = poly[kn];
        let ec = evals[k];
        let en = evals[kn];
        if ec <= 0 {
            out.push(cur);
        }
        if (ec < 0 && en > 0) || (ec > 0 && en < 0) {
            let w = match intersect_edge(l, &cur, &nxt) {
                Some(w) => w,
                None => {
                    return None;
                },
            };
            out.push(w);
        }
        k = k + 1;
    }
    Some(out)
}

} // verus!
