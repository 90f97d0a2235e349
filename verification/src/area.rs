//! Exact polygon area. The doubled signed area of a cell polygon is a
//! rational number computed by the shoelace sum over the exact vertex
//! coordinates; the executable function is proved to return a value
//! equal to the spec-level sum.

use vstd::prelude::*;
use crate::geom::Vertex;
use crate::geom::next_idx;
use crate::num::{abs_i128, gcd_i128};
use crate::cell::Cell;
use crate::region::BoundingRegion;

verus! {

/// An exact ratio of two integers with positive denominator.
#[derive(Clone, Copy, PartialEq, Eq, Structural, Debug)]
pub struct Ratio {
    pub num: i128,
    pub den: i128,
}

/// The two ratios denote the same rational value.
pub open spec fn ratio_eq(a: Ratio, b: Ratio) -> bool {
    a.num * b.den == b.num * a.den
}

/// Spec-level rational addition on numerator/denominator pairs.
pub open spec fn rat_pair_add(a: (int, int), b: (int, int)) -> (int, int) {
    (a.0 * b.1 + b.0 * a.1, a.1 * b.1)
}

/// The shoelace term of the edge from `u` to `v`, as a rational pair.
pub open spec fn edge_cross(u: Vertex, v: Vertex) -> (int, int) {
    (u.xn * v.yn - v.xn * u.yn, u.d * v.d)
}

/// Partial shoelace sum over the first `upto` edges of the polygon.
pub open spec fn doubled_area_sum(vs: Seq<Vertex>, upto: int) -> (int, int)
    decreases upto,
{
    if upto <= 0 {
        (0 as int, 1 as int)
    } else {
        rat_pair_add(
            doubled_area_sum(vs, upto - 1),
            edge_cross(vs[upto - 1], vs[next_idx(upto - 1, vs.len() as int)]),
        )
    }
}

/// The doubled signed area of the polygon: positive for
/// counter-clockwise winding.
pub open spec fn doubled_area(vs: Seq<Vertex>) -> (int, int) {
    doubled_area_sum(vs, vs.len() as int)
}

/// Rational sum of the doubled areas of the first `upto` cells.
pub open spec fn cells_area_sum(cells: Seq<Cell>, upto: int) -> (int, int)
    decreases upto,
{
    if upto <= 0 {
        (0 as int, 1 as int)
    } else {
        rat_pair_add(cells_area_sum(cells, upto - 1), doubled_area(cells[upto - 1].vertices@))
    }
}

/// The doubled area of the bounding rectangle.
pub open spec fn region_doubled_area(r: BoundingRegion) -> int {
    2 * (r.x2 - r.x1) * (r.y2 - r.y1)
}

/// The clipped cells exactly tile the region: the rational sum of their
/// signed doubled areas equals the region's doubled area.
pub open spec fn diagram_area_exact(cells: Seq<Cell>, r: BoundingRegion) -> bool {
    let s = cells_area_sum(cells, cells.len() as int);
    s.0 == region_doubled_area(r) * s.1
}

/// The denominator of every partial shoelace sum is positive.
proof fn lemma_area_den_pos(vs: Seq<Vertex>, upto: int)
    requires
        forall|k: int| 0 <= k < vs.len() ==> (#[trigger] vs[k]).d >= 1,
        0 <= upto <= vs.len(),
    ensures
        doubled_area_sum(vs, upto).1 >= 1,
    decreases upto,
{
    if upto > 0 {
        lemma_area_den_pos(vs, upto - 1);
        let prev = doubled_area_sum(vs, upto - 1);
        let u = vs[upto - 1];
        let v = vs[next_idx(upto - 1, vs.len() as int)];
        assert(prev.1 * (u.d * v.d) >= 1) by (nonlinear_arith)
            requires
                prev.1 >= 1,
                u.d >= 1,
                v.d >= 1,
        ;
    }
}

/// Adding the same term to two value-equal ratios gives value-equal
/// ratios.
proof fn lemma_rat_add_congruence(a: (int, int), b: (int, int), t: (int, int))
    requires
        a.0 * b.1 == b.0 * a.1,
    ensures
        rat_pair_add(a, t).0 * rat_pair_add(b, t).1 == rat_pair_add(b, t).0 * rat_pair_add(a, t).1,
{
    assert((a.0 * t.1 + t.0 * a.1) * (b.1 * t.1) == a.0 * t.1 * (b.1 * t.1) + t.0 * a.1 * (b.1
        * t.1)) by (nonlinear_arith);
    assert((b.0 * t.1 + t.0 * b.1) * (a.1 * t.1) == b.0 * t.1 * (a.1 * t.1) + t.0 * b.1 * (a.1
        * t.1)) by (nonlinear_arith);
    assert(a.0 * t.1 * (b.1 * t.1) == (a.0 * b.1) * (t.1 * t.1)) by (nonlinear_arith);
    assert(b.0 * t.1 * (a.1 * t.1) == (b.0 * a.1) * (t.1 * t.1)) by (nonlinear_arith);
    assert(t.0 * a.1 * (b.1 * t.1) == t.0 * b.1 * (a.1 * t.1)) by (nonlinear_arith);
}

/// Adding two value-equal terms to the same ratio gives value-equal
/// ratios.
proof fn lemma_rat_add_congruence_right(a: (int, int), t: (int, int), u: (int, int))
    requires
        t.0 * u.1 == u.0 * t.1,
    ensures
        rat_pair_add(a, t).0 * rat_pair_add(a, u).1 == rat_pair_add(a, u).0 * rat_pair_add(a, t).1,
{
    assert((a.0 * t.1 + t.0 * a.1) * (a.1 * u.1) == a.0 * t.1 * (a.1 * u.1) + t.0 * a.1 * (a.1
        * u.1)) by (nonlinear_arith);
    assert((a.0 * u.1 + u.0 * a.1) * (a.1 * t.1) == a.0 * u.1 * (a.1 * t.1) + u.0 * a.1 * (a.1
        * t.1)) by (nonlinear_arith);
    assert(a.0 * t.1 * (a.1 * u.1) == a.0 * u.1 * (a.1 * t.1)) by (nonlinear_arith);
    assert(t.0 * a.1 * (a.1 * u.1) == (t.0 * u.1) * (a.1 * a.1)) by (nonlinear_arith);
    assert(u.0 * a.1 * (a.1 * t.1) == (u.0 * t.1) * (a.1 * a.1)) by (nonlinear_arith);
}

/// The denominator of every partial cell-area sum is positive.
proof fn lemma_cells_area_den_pos(cells: Seq<Cell>, upto: int)
    requires
        forall|i: int, k: int|
            0 <= i < cells.len() && 0 <= k < cells[i].vertices@.len() ==> (
            #[trigger] cells[i].vertices@[k]).d >= 1,
        0 <= upto <= cells.len(),
    ensures
        cells_area_sum(cells, upto).1 >= 1,
    decreases upto,
{
    if upto > 0 {
        lemma_cells_area_den_pos(cells, upto - 1);
        let vs = cells[upto - 1].vertices@;
        assert forall|k: int| 0 <= k < vs.len() implies (#[trigger] vs[k]).d >= 1 by {
            assert(cells[upto - 1].vertices@[k].d >= 1);
        }
        lemma_area_den_pos(vs, vs.len() as int);
        let prev = cells_area_sum(cells, upto - 1);
        let term = doubled_area(vs);
        assert(prev.1 * term.1 >= 1) by (nonlinear_arith)
            requires
                prev.1 >= 1,
                term.1 >= 1,
        ;
    }
}

/// Value equality of ratios is transitive through a denominator-positive
/// middle term.
proof fn lemma_rat_eq_trans(a: (int, int), b: (int, int), c: (int, int))
    requires
        a.0 * b.1 == b.0 * a.1,
        b.0 * c.1 == c.0 * b.1,
        b.1 >= 1,
    ensures
        a.0 * c.1 == c.0 * a.1,
{
    assert(a.0 * c.1 == c.0 * a.1) by (nonlinear_arith)
        requires
            a.0 * b.1 == b.0 * a.1,
            b.0 * c.1 == c.0 * b.1,
            b.1 >= 1,
    ;
}

/// Reduce a ratio by a common divisor, preserving its value exactly;
/// the divisions are re-checked by multiplication, so the contract does
/// not rest on properties of the gcd.
fn reduce_ratio(n: i128, d: i128) -> (r: (i128, i128))
    requires
        d >= 1,
    ensures
        r.1 >= 1,
        r.0 * d == n * r.1,
{
    let an = match abs_i128(n) {
        Some(v) => v,
        None => {
            return (n, d);
        },
    };
    let g = gcd_i128(an, d);
    if g <= 1 {
        return (n, d);
    }
    let qn = match n.checked_div(g) {
        Some(v) => v,
        None => {
            return (n, d);
        },
    };
    let qd = match d.checked_div(g) {
        Some(v) => v,
        None => {
            return (n, d);
        },
    };
    let cn = match qn.checked_mul(g) {
        Some(v) => v,
        None => {
            return (n, d);
        },
    };
    let cd = match qd.checked_mul(g) {
        Some(v) => v,
        None => {
            return (n, d);
        },
    };
    if cn == n && cd == d && qd >= 1 {
        proof {
            assert(qn * d == n * qd) by (nonlinear_arith)
                requires
                    qn * g == n,
                    qd * g == d,
            ;
        }
        (qn, qd)
    } else {
        (n, d)
    }
}

/// The doubled signed area of a polygon of exact rational vertices, as
/// an exact ratio; `None` when the computation leaves `i128`.
pub fn polygon_doubled_area(vs: &Vec<Vertex>) -> (r: Option<Ratio>)
    requires
        forall|k: int| 0 <= k < vs@.len() ==> (#[trigger] vs@[k]).d >= 1,
    ensures
        r matches Some(a) ==> {
            &&& a.den >= 1
            &&& a.num * doubled_area(vs@).1 == doubled_area(vs@).0 * a.den
        },
{
    let n = vs.len();
    let mut acc: (i128, i128) = (0, 1);
    let mut k: usize = 0;
    while k < n
        invariant
            k <= n,
            n == vs@.len(),
            acc.1 >= 1,
            forall|k2: int| 0 <= k2 < vs@.len() ==> (#[trigger] vs@[k2]).d >= 1,
            acc.0 * doubled_area_sum(vs@, k as int).1 == doubled_area_sum(vs@, k as int).0 * acc.1,
        decreases n - k,
    {
        let kn = if k + 1 == n { 0 } else { k + 1 };
        let u = vs[k];
        let v = vs[kn];
        let c1 = match u.xn.checked_mul(v.yn) {
            Some(t) => t,
            None => {
                return None;
            },
        };
        let c2 = match v.xn.checked_mul(u.yn) {
            Some(t) => t,
            None => {
                return None;
            },
        };
        let cn = match c1.checked_sub(c2) {
            Some(t) => t,
            None => {
                return None;
            },
        };
        let cd = match u.d.checked_mul(v.d) {
            Some(t) => t,
            None => {
                return None;
            },
        };
        proof {
            assert(u.d * v.d >= 1) by (nonlinear_arith)
                requires
                    u.d >= 1,
                    v.d >= 1,
            ;
        }
        let r1 = match acc.0.checked_mul(cd) {
            Some(t) => t,
            None => {
                return None;
            },
        };
        let r2 = match cn.checked_mul(acc.1) {
            Some(t) => t,
            None => {
                return None;
            },
        };
        let rn = match r1.checked_add(r2) {
            Some(t) => t,
            None => {
                return None;
            },
        };
        let rd = match acc.1.checked_mul(cd) {
            Some(t) => t,
            None => {
                return None;
            },
        };
        proof {
            assert(acc.1 * cd >= 1) by (nonlinear_arith)
                requires
                    acc.1 >= 1,
                    cd >= 1,
            ;
            let prev = doubled_area_sum(vs@, k as int);
            let cross = edge_cross(vs@[k as int], vs@[next_idx(k as int, vs@.len() as int)]);
            assert(kn as int == next_idx(k as int, vs@.len() as int));
            assert(cross == (cn as int, cd as int));
            lemma_area_den_pos(vs@, k as int);
            lemma_rat_add_congruence((acc.0 as int, acc.1 as int), prev, cross);
            assert(doubled_area_sum(vs@, k as int + 1) == rat_pair_add(prev, cross));
            assert((rn as int, rd as int) == rat_pair_add((acc.0 as int, acc.1 as int), cross));
        }
        let reduced = reduce_ratio(rn, rd);
        proof {
            let mid = (rn as int, rd as int);
            let target = doubled_area_sum(vs@, k as int + 1);
            assert(reduced.0 * mid.1 == mid.0 * reduced.1);
            lemma_area_den_pos(vs@, k as int + 1);
            lemma_rat_eq_trans((reduced.0 as int, reduced.1 as int), mid, target);
        }
        acc = reduced;
        k = k + 1;
    }
    Some(Ratio { num: acc.0, den: acc.1 })
}

/// The doubled area of the region, exactly; `None` when it leaves
/// `i128`.
fn region_doubled_area_exec(r: &BoundingRegion) -> (res: Option<i128>)
    ensures
        res matches Some(v) ==> v == region_doubled_area(*r),
{
    let w = (r.x2 as i128) - (r.x1 as i128);
    let h = (r.y2 as i128) - (r.y1 as i128);
    let p = match w.checked_mul(h) {
        Some(t) => t,
        None => {
            return None;
        },
    };
    let res = p.checked_mul(2);
    proof {
        if res is Some {
            assert((w * h) * 2 == 2 * w * h) by (nonlinear_arith);
        }
    }
    res
}

/// Decide whether the cells' doubled areas sum exactly to the region's
/// doubled area; `None` when the exact computation leaves `i128`.
pub fn check_diagram_area(cells: &Vec<Cell>, region: &BoundingRegion) -> (r: Option<bool>)
    requires
        forall|i: int, k: int|
            0 <= i < cells@.len() && 0 <= k < cells@[i].vertices@.len() ==> (
            #[trigger] cells@[i].vertices@[k]).d >= 1,
    ensures
        r matches Some(b) ==> b == diagram_area_exact(cells@, *region),
{
    let n = cells.len();
    let mut acc = Ratio { num: 0, den: 1 };
    let mut i: usize = 0;
    while i < n
        invariant
            i <= n,
            n == cells@.len(),
            acc.den >= 1,
            forall|i2: int, k: int|
                0 <= i2 < cells@.len() && 0 <= k < cells@[i2].vertices@.len() ==> (
                #[trigger] cells@[i2].vertices@[k]).d >= 1,
            acc.num * cells_area_sum(cells@, i as int).1 == cells_area_sum(cells@, i as int).0
                * acc.den,
        decreases n - i,
    {
        proof {
            assert forall|k: int|
                0 <= k < cells@[i as int].vertices@.len() implies (
            #[trigger] cells@[i as int].vertices@[k]).d >= 1 by {}
        }
        let a = match polygon_doubled_area(&cells[i].vertices) {
            Some(a) => a,
            None => {
                return None;
            },
        };
        let old_acc = acc;
        acc = match ratio_add(&old_acc, &a) {
            Some(s) => s,
            None => {
                return None;
            },
        };
        proof {
            let accp = (old_acc.num as int, old_acc.den as int);
            let ap = (a.num as int, a.den as int);
            let naccp = (acc.num as int, acc.den as int);
            let mid = rat_pair_add(accp, ap);
            let sprev = cells_area_sum(cells@, i as int);
            let sterm = doubled_area(cells@[i as int].vertices@);
            let snew = cells_area_sum(cells@, i as int + 1);
            assert(snew == rat_pair_add(sprev, sterm));
            lemma_area_den_pos(
                cells@[i as int].vertices@,
                cells@[i as int].vertices@.len() as int,
            );
            lemma_cells_area_den_pos(cells@, i as int);
            lemma_cells_area_den_pos(cells@, i as int + 1);
            lemma_rat_add_congruence(accp, sprev, ap);
            lemma_rat_add_congruence_right(sprev, ap, sterm);
            assert(mid.1 >= 1) by (nonlinear_arith)
                requires
                    accp.1 >= 1,
                    ap.1 >= 1,
                    mid.1 == accp.1 * ap.1,
            ;
            assert(rat_pair_add(sprev, ap).1 >= 1) by (nonlinear_arith)
                requires
                    sprev.1 >= 1,
                    ap.1 >= 1,
                    rat_pair_add(sprev, ap).1 == sprev.1 * ap.1,
            ;
            lemma_rat_eq_trans(naccp, mid, rat_pair_add(sprev, ap));
            lemma_rat_eq_trans(naccp, rat_pair_add(sprev, ap), snew);
        }
        i = i + 1;
    }
    let rda = match region_doubled_area_exec(region) {
        Some(v) => v,
        None => {
            return None;
        },
    };
    let t1 = match rda.checked_mul(acc.den) {
        Some(v) => v,
        None => {
            return None;
        },
    };
    let b = acc.num == t1;
    proof {
        let s = cells_area_sum(cells@, n as int);
        let accp = (acc.num as int, acc.den as int);
        let rp = (rda as int, 1 as int);
        lemma_cells_area_den_pos(cells@, n as int);
        if b {
            lemma_rat_eq_trans(s, accp, rp);
        }
        if s.0 == (rda as int) * s.1 {
            lemma_rat_eq_trans(accp, s, rp);
        }
    }
    Some(b)
}

/// Decide `ratio_eq(a, b)`; `None` when the cross products leave `i128`.
pub fn ratio_value_eq(a: &Ratio, b: &Ratio) -> (r: Option<bool>)
    ensures
        r matches Some(e) ==> e == ratio_eq(*a, *b),
{
    let t1 = match a.num.checked_mul(b.den) {
        Some(t) => t,
        None => {
            return None;
        },
    };
    let t2 = match b.num.checked_mul(a.den) {
        Some(t) => t,
        None => {
            return None;
        },
    };
    Some(t1 == t2)
}

/// Exact rational addition of two ratios, reduced; the result's value
/// is pinned by cross-multiplication against the exact sum.
pub fn ratio_add(a: &Ratio, b: &Ratio) -> (r: Option<Ratio>)
    requires
        a.den >= 1,
        b.den >= 1,
    ensures
        r matches Some(s) ==> {
            &&& s.den >= 1
            &&& s.num * (a.den * b.den) == (a.num * b.den + b.num * a.den) * s.den
        },
{
    let n1 = match a.num.checked_mul(b.den) {
        Some(t) => t,
        None => {
            return None;
        },
    };
    let n2 = match b.num.checked_mul(a.den) {
        Some(t) => t,
        None => {
            return None;
        },
    };
    let nsum = match n1.checked_add(n2) {
        Some(t) => t,
        None => {
            return None;
        },
    };
    let dprod = match a.den.checked_mul(b.den) {
        Some(t) => t,
        None => {
            return None;
        },
    };
    proof {
        assert(a.den * b.den >= 1) by (nonlinear_arith)
            requires
                a.den >= 1,
                b.den >= 1,
        ;
    }
    let red = reduce_ratio(nsum, dprod);
    Some(Ratio { num: red.0, den: red.1 })
}

} // verus!
