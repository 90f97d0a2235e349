//! Small exact-arithmetic helpers on `i128`: absolute value, greatest
//! common divisor, and best-effort reduction of rational triples. All
//! overflow-prone steps use checked operations; a reduction that cannot
//! be performed safely falls back to the unreduced value, which is still
//! exact, only larger.

use vstd::prelude::*;

verus! {

/// Absolute value; `None` only for `i128::MIN`, whose negation overflows.
pub fn abs_i128(x: i128) -> (r: Option<i128>)
    ensures
        r is Some ==> r->0 == (if x >= 0 { x as int } else { -(x as int) }),
        x != i128::MIN ==> r is Some,
{
    if x >= 0 {
        Some(x)
    } else {
        (0i128).checked_sub(x)
    }
}

/// Greatest common divisor by Euclid's algorithm. The contract states
/// only positivity; callers re-check divisibility at runtime before
/// dividing, so nothing further is relied on.
pub fn gcd_i128(a0: i128, b0: i128) -> (g: i128)
    requires
        a0 >= 0,
        b0 >= 0,
    ensures
        g >= 0,
        a0 >= 1 || b0 >= 1 ==> g >= 1,
{
    let mut a: i128 = b0;
    let mut b: i128 = a0;
    loop
        invariant
            a >= 0,
            b >= 0,
            a0 >= 1 || b0 >= 1 ==> a >= 1 || b >= 1,
        decreases b,
    {
        if b == 0 {
            return a;
        }
        let r = match a.checked_rem(b) {
            Some(r) => r,
            None => {
                return 1;
            },
        };
        a = b;
        b = r;
    }
}

/// Reduce the rational triple `(xn, yn, d)` by the gcd of its members
/// where that is exactly possible; otherwise return it unchanged. The
/// denominator stays positive, and the point `(xn/d, yn/d)` is the
/// same: the divisions are re-checked by multiplication, so nothing
/// rests on properties of the gcd.
pub fn reduce_triple(xn: i128, yn: i128, d: i128) -> (r: (i128, i128, i128))
    requires
        d >= 1,
    ensures
        r.2 >= 1,
        r.0 * d == xn * r.2,
        r.1 * d == yn * r.2,
{
    let ax = match abs_i128(xn) {
        Some(v) => v,
        None => {
            return (xn, yn, d);
        },
    };
    let ay = match abs_i128(yn) {
        Some(v) => v,
        None => {
            return (xn, yn, d);
        },
    };
    let g = gcd_i128(ay, gcd_i128(ax, d));
    if g <= 1 {
        return (xn, yn, d);
    }
    let qx = match xn.checked_div(g) {
        Some(v) => v,
        None => {
            return (xn, yn, d);
        },
    };
    let qy = match yn.checked_div(g) {
        Some(v) => v,
        None => {
            return (xn, yn, d);
        },
    };
    let qd = match d.checked_div(g) {
        Some(v) => v,
        None => {
            return (xn, yn, d);
        },
    };
    let cx = match qx.checked_mul(g) {
        Some(v) => v,
        None => {
            return (xn, yn, d);
        },
    };
    let cy = match qy.checked_mul(g) {
        Some(v) => v,
        None => {
            return (xn, yn, d);
        },
    };
    let cd = match qd.checked_mul(g) {
        Some(v) => v,
        None => {
            return (xn, yn, d);
        },
    };
    if cx == xn && cy == yn && cd == d && qd >= 1 {
        proof {
            assert(qx * d == xn * qd && qy * d == yn * qd) by (nonlinear_arith)
                requires
                    qx * g == xn,
                    qy * g == yn,
                    qd * g == d,
            ;
        }
        (qx, qy, qd)
    } else {
        (xn, yn, d)
    }
}

} // verus!
