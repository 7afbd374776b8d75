use fibonacci_spiral::coord::Coord;
use fibonacci_spiral::sampler::sample;
use fibonacci_spiral::spiral::{build_spiral, Curve};

#[test]
fn sides_follow_fibonacci() {
    let s = 7;
    let (squares, curves) = build_spiral(s, 6);
    let sides: Vec<i64> = squares.iter().map(|q| q.side).collect();
    assert_eq!(sides, vec![s, s, 2 * s, 3 * s, 5 * s, 8 * s]);
    assert_eq!(curves.len(), 6);
}

#[test]
fn four_squares_from_unit_size() {
    let (squares, curves) = build_spiral(1, 4);
    let sides: Vec<i64> = squares.iter().map(|q| q.side).collect();
    assert_eq!(sides, vec![1, 1, 2, 3]);
    let origins: Vec<(i64, i64)> = squares.iter().map(|q| (q.origin.x, q.origin.y)).collect();
    assert_eq!(origins, vec![(0, 0), (1, 0), (0, 1), (-3, 0)]);
    assert_eq!(
        curves[0],
        Curve { p0: Coord::new(0, 1), p1: Coord::new(0, 0), p2: Coord::new(1, 0) }
    );
    assert_eq!(
        curves[1],
        Curve { p0: Coord::new(1, 0), p1: Coord::new(2, 0), p2: Coord::new(2, 1) }
    );
    assert_eq!(
        curves[2],
        Curve { p0: Coord::new(2, 1), p1: Coord::new(2, 3), p2: Coord::new(0, 3) }
    );
    assert_eq!(
        curves[3],
        Curve { p0: Coord::new(0, 3), p1: Coord::new(-3, 3), p2: Coord::new(-3, 0) }
    );
}

#[test]
fn zero_squares_is_empty() {
    let (squares, curves) = build_spiral(5, 0);
    assert!(squares.is_empty());
    assert!(curves.is_empty());
}

#[test]
fn orientation_repeats_every_four_squares() {
    let (squares, _) = build_spiral(1, 9);
    // square 4 moves right by its side, as square 0 does
    assert_eq!(squares[5].origin.x - squares[4].origin.x, squares[4].side);
    assert_eq!(squares[5].origin.y, squares[4].origin.y);
    assert_eq!(squares[1].origin.x - squares[0].origin.x, squares[0].side);
    // square 5 moves left by the side before it and down by its own, as square 1 does
    assert_eq!(squares[6].origin.x - squares[5].origin.x, -squares[4].side);
    assert_eq!(squares[6].origin.y - squares[5].origin.y, squares[5].side);
}

#[test]
fn sample_has_n_plus_one_points_from_start_to_end() {
    let curve = Curve { p0: Coord::new(0, 100), p1: Coord::new(0, 0), p2: Coord::new(100, 0) };
    let points = sample(&curve, 100);
    assert_eq!(points.len(), 101);
    assert_eq!(points[0], curve.p0);
    assert_eq!(points[100], curve.p2);
}

#[test]
fn sample_midpoint_is_exact() {
    // B(1/2) = P0/4 + P1/2 + P2/4
    let curve = Curve { p0: Coord::new(0, 400), p1: Coord::new(0, 0), p2: Coord::new(400, 0) };
    let points = sample(&curve, 2);
    assert_eq!(points, vec![Coord::new(0, 400), Coord::new(100, 100), Coord::new(400, 0)]);
}

#[test]
fn sample_rounds_down() {
    let curve = Curve { p0: Coord::new(0, 0), p1: Coord::new(1, -1), p2: Coord::new(0, 0) };
    let points = sample(&curve, 2);
    // the middle point is (1/2, -1/2), rounded down
    assert_eq!(points[1], Coord::new(0, -1));
}
