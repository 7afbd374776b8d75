use fibonacci_spiral::coord::Coord;

#[test]
fn test_new() {
    assert_eq!(Coord::new(12, 15), Coord { x: 12, y: 15 });
    assert_eq!(Coord::new(2, 3), Coord { x: 2, y: 3 });
}

#[test]
fn test_add() {
    assert_eq!(Coord::new(1, 2).add(Coord::new(3, 4)), Coord::new(4, 6));
    assert_eq!(Coord::new(1, -1).add(Coord::new(2, 4)), Coord::new(3, 3));
}

#[test]
fn test_sub() {
    assert_eq!(Coord::new(1, 2).sub(Coord::new(3, 4)), Coord::new(-2, -2));
    assert_eq!(Coord::new(1, -1).sub(Coord::new(2, 4)), Coord::new(-1, -5));
}

#[test]
fn test_mul() {
    assert_eq!(Coord::new(5, 2).mul(3), Coord::new(15, 6));
    assert_eq!(Coord::new(3, 4).mul(4), Coord::new(12, 16));
}

#[test]
fn test_into() {
    assert_eq!(Coord::new(4, 2), (4, 2).into());
    assert_eq!(Coord::new(7, -2), [7, -2].into());
    assert_eq!(Coord::new(7, -2).add(Coord::from([1, 5])), Coord::new(8, 3));
}

#[test]
fn assign_operations_update_in_place() {
    let mut c = Coord::new(1, 2);
    c.add_assign(Coord::new(3, 4));
    assert_eq!(c, Coord::new(4, 6));
    c.sub_assign(Coord::new(1, 1));
    assert_eq!(c, Coord::new(3, 5));
    c.mul_assign(-2);
    assert_eq!(c, Coord::new(-6, -10));
}

#[test]
fn sub_undoes_add() {
    let a = Coord::new(-7, 13);
    let b = Coord::new(1_000_000, -42);
    assert_eq!(a.add(b).sub(b), a);
}
