use vstd::prelude::*;
use vstd::arithmetic::div_mod::{lemma_div_is_ordered, lemma_div_multiples_vanish};
use crate::coord::Coord;
use crate::spiral::Curve;

verus! {

/// One coordinate of the quadratic Bezier curve with control values `a`, `b`, `c`
/// at the parameter `k / n`, rounded down:
/// `floor(((n - k)^2 a + 2 (n - k) k b + k^2 c) / n^2)`.
pub open spec fn bezier_at(a: int, b: int, c: int, k: int, n: int) -> int {
    ((n - k) * (n - k) * a + 2 * (n - k) * k * b + k * k * c) / (n * n)
}

/// The point of `curve` at the parameter `k / n`, each coordinate rounded down.
pub open spec fn curve_point(curve: Curve, k: int, n: int) -> (int, int) {
    (
        bezier_at(curve.p0.x as int, curve.p1.x as int, curve.p2.x as int, k, n),
        bezier_at(curve.p0.y as int, curve.p1.y as int, curve.p2.y as int, k, n),
    )
}

/// The curve starts at its first control value and ends at its last.
pub proof fn lemma_bezier_endpoints(a: int, b: int, c: int, n: int)
    requires
        n >= 1,
    ensures
        bezier_at(a, b, c, 0, n) == a,
        bezier_at(a, b, c, n, n) == c,
{
    let d = n * n;
    assert(d > 0) by (nonlinear_arith)
        requires
            n >= 1,
            d == n * n,
    ;
    assert((n - 0) * (n - 0) * a + 2 * (n - 0) * 0 * b + 0 * 0 * c == d * a) by (nonlinear_arith)
        requires
            d == n * n,
    ;
    assert((n - n) * (n - n) * a + 2 * (n - n) * n * b + n * n * c == d * c) by (nonlinear_arith)
        requires
            d == n * n,
    ;
    lemma_div_multiples_vanish(a, d);
    lemma_div_multiples_vanish(c, d);
}

/// A weighted value `w * v` with `w >= 0` lies between `w` times the bounds of `v`.
proof fn lemma_weighted_bounds(w: int, v: int)
    requires
        0 <= w,
        i64::MIN <= v <= i64::MAX,
    ensures
        w * i64::MIN <= w * v <= w * i64::MAX,
{
    assert(w * i64::MIN <= w * v <= w * i64::MAX) by (nonlinear_arith)
        requires
            0 <= w,
            i64::MIN <= v <= i64::MAX,
    ;
}

/// One coordinate of the curve at `k / n`, computed without overflow.
fn bezier_coord(a: i64, b: i64, c: i64, k: u32, n: u32) -> (r: i64)
    requires
        1 <= n,
        k <= n,
    ensures
        r == bezier_at(a as int, b as int, c as int, k as int, n as int),
{
    let nn = n as i128;
    let kk = k as i128;
    let rest = nn - kk;
    proof {
        let (ni, ki) = (nn as int, kk as int);
        assert(0 <= ki * ki <= ni * ni && 0 <= rest * rest <= ni * ni && 0 <= 2 * rest * ki <= ni * ni
            && ni * ni == rest * rest + 2 * rest * ki + ki * ki
            && 1 <= ni * ni <= 18446744065119617025) by (nonlinear_arith)
            requires
                0 <= ki <= ni,
                1 <= ni <= 4294967295,
                rest == ni - ki,
        ;
    }
    let w0 = rest * rest;
    let w1 = 2 * rest * kk;
    let w2 = kk * kk;
    let d = nn * nn;
    proof {
        lemma_weighted_bounds(w0 as int, a as int);
        lemma_weighted_bounds(w1 as int, b as int);
        lemma_weighted_bounds(w2 as int, c as int);
    }
    let t0 = w0 * (a as i128);
    let t1 = w1 * (b as i128);
    let t2 = w2 * (c as i128);
    let sum = t0 + t1 + t2;
    proof {
        let (di, si) = (d as int, sum as int);
        assert(di == w0 + w1 + w2);
        assert(di * i64::MIN <= si <= di * i64::MAX);
        lemma_div_is_ordered(di * i64::MIN, si, di);
        lemma_div_is_ordered(si, di * i64::MAX, di);
        lemma_div_multiples_vanish(i64::MIN as int, di);
        lemma_div_multiples_vanish(i64::MAX as int, di);
    }
    match sum.checked_div_euclid(d) {
        Some(q) => q as i64,
        None => 0,
    }
}

/// Samples `curve` at the `n + 1` parameters `k / n` for `k = 0..=n`, in that order.
pub fn sample(curve: &Curve, n: u32) -> (r: Vec<Coord>)
    requires
        n >= 1,
    ensures
        r.len() == n + 1,
        forall|k: int|
            0 <= k <= n ==> #[trigger] r[k].x == curve_point(*curve, k, n as int).0 && r[k].y
                == curve_point(*curve, k, n as int).1,
{
    let mut points: Vec<Coord> = Vec::new();
    let mut k: u32 = 0;
    loop
        invariant_except_break
            points.len() == k,
        invariant
            n >= 1,
            k <= n,
            forall|j: int|
                0 <= j < points.len() ==> #[trigger] points[j].x == curve_point(*curve, j, n as int).0
                    && points[j].y == curve_point(*curve, j, n as int).1,
        ensures
            points.len() == n + 1,
        decreases n - k,
    {
        let x = bezier_coord(curve.p0.x, curve.p1.x, curve.p2.x, k, n);
        let y = bezier_coord(curve.p0.y, curve.p1.y, curve.p2.y, k, n);
        points.push(Coord::new(x, y));
        if k == n {
            break;
        }
        k = k + 1;
    }
    points
}

/// A sampling has `n + 1` points; the first is the first control point and the last
/// is the last control point.
pub proof fn lemma_sample_endpoints(curve: Curve, n: int)
    requires
        n >= 1,
    ensures
        curve_point(curve, 0, n) == (curve.p0.x as int, curve.p0.y as int),
        curve_point(curve, n, n) == (curve.p2.x as int, curve.p2.y as int),
{
    lemma_bezier_endpoints(curve.p0.x as int, curve.p1.x as int, curve.p2.x as int, n);
    lemma_bezier_endpoints(curve.p0.y as int, curve.p1.y as int, curve.p2.y as int, n);
}

} // verus!
