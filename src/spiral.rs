use vstd::prelude::*;
use crate::coord::Coord;

verus! {

/// One placed square of the spiral: its corner with the least coordinates and its side.
#[derive(Clone, Copy, Debug, PartialEq, Eq, Structural)]
pub struct Square {
    pub origin: Coord,
    pub side: i64,
}

/// Control points of the quadratic curve drawn across one square.
#[derive(Clone, Copy, Debug, PartialEq, Eq, Structural)]
pub struct Curve {
    pub p0: Coord,
    pub p1: Coord,
    pub p2: Coord,
}

/// The Fibonacci numbers: 0, 1, 1, 2, 3, 5, 8, ...
pub open spec fn fib(k: nat) -> nat
    decreases k,
{
    if k == 0 {
        0
    } else if k == 1 {
        1
    } else {
        fib((k - 2) as nat) + fib((k - 1) as nat)
    }
}

/// Side of square `i` of a spiral that starts at size `s`.
pub open spec fn side_at(s: int, i: nat) -> int {
    s * fib(i + 1)
}

/// Side of the square before square `i` (zero before the first one).
pub open spec fn prev_side_at(s: int, i: nat) -> int {
    s * fib(i)
}

/// Displacement from the origin of a square to the origin of the next one,
/// for the orientation `phase` (0 to 3), the previous side `p` and the current side `c`.
pub open spec fn step_of(phase: int, p: int, c: int) -> (int, int) {
    if phase == 0 {
        (c, 0)
    } else if phase == 1 {
        (-p, c)
    } else if phase == 2 {
        (-c - p, -p)
    } else {
        (0, -c - p)
    }
}

/// Origin of square `i` of a spiral that starts at size `s`: the displacements of all
/// squares before it, summed from `(0, 0)`, each chosen by its index modulo 4.
pub open spec fn origin_at(s: int, i: nat) -> (int, int)
    decreases i,
{
    if i == 0 {
        (0, 0)
    } else {
        let j = (i - 1) as nat;
        let o = origin_at(s, j);
        let d = step_of((j % 4) as int, prev_side_at(s, j), side_at(s, j));
        (o.0 + d.0, o.1 + d.1)
    }
}

/// Corner `k` (taken modulo 4) of the square with origin `(x, y)` and side `c`,
/// going bottom-left, top-left, top-right, bottom-right.
pub open spec fn corner(k: int, x: int, y: int, c: int) -> (int, int) {
    let m = k % 4;
    if m == 0 {
        (x, y + c)
    } else if m == 1 {
        (x, y)
    } else if m == 2 {
        (x + c, y)
    } else {
        (x + c, y + c)
    }
}

pub open spec fn coord_is(p: Coord, v: (int, int)) -> bool {
    p.x == v.0 && p.y == v.1
}

/// The quarter arc of a square in orientation `phase` runs through three consecutive
/// corners, starting at corner `phase`.
pub open spec fn curve_is(cv: Curve, phase: int, x: int, y: int, c: int) -> bool {
    &&& coord_is(cv.p0, corner(phase, x, y, c))
    &&& coord_is(cv.p1, corner(phase + 1, x, y, c))
    &&& coord_is(cv.p2, corner(phase + 2, x, y, c))
}

/// Square `i` of a spiral that starts at size `s`.
pub open spec fn square_is(sq: Square, s: int, i: nat) -> bool {
    &&& coord_is(sq.origin, origin_at(s, i))
    &&& sq.side == side_at(s, i)
}

/// Curve of square `i` of a spiral that starts at size `s`.
pub open spec fn spiral_curve_is(cv: Curve, s: int, i: nat) -> bool {
    curve_is(cv, (i % 4) as int, origin_at(s, i).0, origin_at(s, i).1, side_at(s, i))
}

/// Whether `n` squares of a spiral that starts at size `s` can be laid out in `i64`.
pub open spec fn spiral_fits(s: int, n: nat) -> bool {
    0 <= s && s * fib(n + 3) <= i64::MAX
}

pub proof fn lemma_fib_monotone(a: nat, b: nat)
    requires
        a <= b,
    ensures
        fib(a) <= fib(b),
    decreases b,
{
    if a < b {
        lemma_fib_monotone(a, (b - 1) as nat);
        if b >= 2 {
            assert(fib(b) == fib((b - 2) as nat) + fib((b - 1) as nat));
        }
    }
}

proof fn lemma_scaled_le(s: int, a: nat, b: nat)
    requires
        0 <= s,
        a <= b,
    ensures
        0 <= s * fib(a) <= s * fib(b),
{
    lemma_fib_monotone(a, b);
    let fa = fib(a) as int;
    let fb = fib(b) as int;
    assert(0 <= s * fa <= s * fb) by (nonlinear_arith)
        requires
            0 <= s,
            0 <= fa <= fb,
    ;
}

proof fn lemma_scaled_sum(s: int, k: nat)
    ensures
        s * fib(k) + s * fib(k + 1) == s * fib(k + 2),
{
    assert(fib(k + 2) == fib(k) + fib(k + 1));
    let a = fib(k) as int;
    let b = fib(k + 1) as int;
    assert(s * a + s * b == s * (a + b)) by (nonlinear_arith);
}

/// Every coordinate of the origin of square `i` lies within `s * fib(i + 3)` of zero.
proof fn lemma_origin_bound(s: int, i: nat)
    requires
        0 <= s,
    ensures
        -(s * fib(i + 3)) <= origin_at(s, i).0 <= s * fib(i + 3),
        -(s * fib(i + 3)) <= origin_at(s, i).1 <= s * fib(i + 3),
    decreases i,
{
    if i == 0 {
        lemma_scaled_le(s, 0, 3);
    } else {
        let j = (i - 1) as nat;
        lemma_origin_bound(s, j);
        lemma_scaled_le(s, j, j + 1);
        lemma_scaled_le(s, j + 1, j + 2);
        lemma_scaled_sum(s, j);
        lemma_scaled_sum(s, j + 1);
        lemma_scaled_sum(s, j + 2);
    }
}

/// The sides of a spiral that starts at size `s` begin `s, s, 2s, 3s, 5s, 8s`.
pub proof fn lemma_first_sides(s: int)
    ensures
        side_at(s, 0) == s,
        side_at(s, 1) == s,
        side_at(s, 2) == 2 * s,
        side_at(s, 3) == 3 * s,
        side_at(s, 4) == 5 * s,
        side_at(s, 5) == 8 * s,
{
    reveal_with_fuel(fib, 7);
    let (f1, f2, f3, f4, f5, f6) = (fib(1) as int, fib(2) as int, fib(3) as int, fib(4) as int, fib(5) as int, fib(6) as int);
    assert(f1 == 1 && f2 == 1 && f3 == 2 && f4 == 3 && f5 == 5 && f6 == 8);
    assert(s * f1 == s && s * f2 == s && s * f3 == 2 * s && s * f4 == 3 * s && s * f5 == 5 * s
        && s * f6 == 8 * s) by (nonlinear_arith)
        requires
            f1 == 1 && f2 == 1 && f3 == 2 && f4 == 3 && f5 == 5 && f6 == 8,
    ;
}

/// The orientation repeats every four squares: square `i + 4` is moved on by the
/// displacement of the same phase as square `i`, applied to its own sides, and its
/// arc runs through the same corners of its own square as the arc of square `i` does.
pub proof fn lemma_orientation_period(s: int, i: nat)
    ensures
        ((i + 4) % 4) as int == (i % 4) as int,
        origin_at(s, i + 5) == ({
            let o = origin_at(s, i + 4);
            let d = step_of((i % 4) as int, prev_side_at(s, i + 4), side_at(s, i + 4));
            (o.0 + d.0, o.1 + d.1)
        }),
        forall|cv: Curve|
            #[trigger] spiral_curve_is(cv, s, i + 4) <==> curve_is(
                cv,
                (i % 4) as int,
                origin_at(s, i + 4).0,
                origin_at(s, i + 4).1,
                side_at(s, i + 4),
            ),
{
}

/// Places square `i` at `pos` with previous side `prev` and side `curr`: returns the
/// displacement to the next square and the control points of its arc.
fn place(i: usize, pos: Coord, prev: i64, curr: i64) -> (r: (Coord, Curve))
    requires
        0 <= prev,
        0 <= curr,
        fits_all(pos, prev, curr),
    ensures
        coord_is(r.0, step_of((i % 4) as int, prev as int, curr as int)),
        curve_is(r.1, (i % 4) as int, pos.x as int, pos.y as int, curr as int),
{
    let phase = i % 4;
    if phase == 0 {
        (
            Coord::new(curr, 0),
            Curve {
                p0: Coord::new(pos.x, pos.y + curr),
                p1: Coord::new(pos.x, pos.y),
                p2: Coord::new(pos.x + curr, pos.y),
            },
        )
    } else if phase == 1 {
        (
            Coord::new(-prev, curr),
            Curve {
                p0: Coord::new(pos.x, pos.y),
                p1: Coord::new(pos.x + curr, pos.y),
                p2: Coord::new(pos.x + curr, pos.y + curr),
            },
        )
    } else if phase == 2 {
        (
            Coord::new(-curr - prev, -prev),
            Curve {
                p0: Coord::new(pos.x + curr, pos.y),
                p1: Coord::new(pos.x + curr, pos.y + curr),
                p2: Coord::new(pos.x, pos.y + curr),
            },
        )
    } else {
        (
            Coord::new(0, -curr - prev),
            Curve {
                p0: Coord::new(pos.x + curr, pos.y + curr),
                p1: Coord::new(pos.x, pos.y + curr),
                p2: Coord::new(pos.x, pos.y),
            },
        )
    }
}

/// The values that `place` computes fit in `i64`.
pub open spec fn fits_all(pos: Coord, prev: i64, curr: i64) -> bool {
    &&& pos.x + curr <= i64::MAX
    &&& pos.y + curr <= i64::MAX
    &&& -curr - prev >= i64::MIN
}

/// Lays out the first `n` squares of the Fibonacci spiral that starts with side
/// `starting_size` at `(0, 0)`, with the arc of each square; both results are
/// index-aligned.
pub fn build_spiral(starting_size: i64, n: usize) -> (r: (Vec<Square>, Vec<Curve>))
    requires
        spiral_fits(starting_size as int, n as nat),
    ensures
        r.0.len() == n,
        r.1.len() == n,
        forall|j: int| 0 <= j < n ==> square_is(#[trigger] r.0[j], starting_size as int, j as nat),
        forall|j: int|
            0 <= j < n ==> spiral_curve_is(#[trigger] r.1[j], starting_size as int, j as nat),
{
    let ghost s = starting_size as int;
    let mut squares: Vec<Square> = Vec::new();
    let mut curves: Vec<Curve> = Vec::new();
    let mut prev: i64 = 0;
    let mut curr: i64 = starting_size;
    let mut pos = Coord::new(0, 0);
    let mut i: usize = 0;
    proof {
        assert(fib(0) == 0);
        assert(fib(1) == 1);
        assert(s * 0 == 0 && s * 1 == s);
    }
    while i < n
        invariant
            spiral_fits(s, n as nat),
            0 <= i <= n,
            prev == prev_side_at(s, i as nat),
            curr == side_at(s, i as nat),
            coord_is(pos, origin_at(s, i as nat)),
            squares.len() == i,
            curves.len() == i,
            forall|j: int| 0 <= j < i ==> square_is(#[trigger] squares[j], s, j as nat),
            forall|j: int| 0 <= j < i ==> spiral_curve_is(#[trigger] curves[j], s, j as nat),
        decreases n - i,
    {
        proof {
            let k = i as nat;
            lemma_origin_bound(s, k);
            lemma_origin_bound(s, k + 1);
            lemma_scaled_le(s, k, k + 1);
            lemma_scaled_le(s, k + 1, k + 2);
            lemma_scaled_le(s, k + 2, k + 3);
            lemma_scaled_le(s, k + 3, k + 4);
            lemma_scaled_le(s, k + 4, n as nat + 3);
            lemma_scaled_sum(s, k);
            lemma_scaled_sum(s, k + 1);
            lemma_scaled_sum(s, k + 2);
        }
        squares.push(Square { origin: pos, side: curr });
        let (dpos, curve) = place(i, pos, prev, curr);
        curves.push(curve);
        pos.add_assign(dpos);
        let next = prev + curr;
        prev = curr;
        curr = next;
        proof {
            lemma_scaled_sum(s, i as nat);
        }
        i = i + 1;
    }
    (squares, curves)
}

} // verus!
