use vstd::prelude::*;

verus! {

/// A point or displacement in the plane, in integer units.
#[derive(Clone, Copy, Debug, PartialEq, Eq, Structural)]
pub struct Coord {
    pub x: i64,
    pub y: i64,
}

/// Whether `v` is a value that an `i64` can hold.
pub open spec fn fits_i64(v: int) -> bool {
    i64::MIN <= v <= i64::MAX
}

impl Coord {
    pub fn new(x: i64, y: i64) -> (r: Self)
        ensures
            r.x == x,
            r.y == y,
    {
        Coord { x, y }
    }

    /// Component-wise sum.
    pub fn add(self, other: Coord) -> (r: Self)
        requires
            fits_i64(self.x + other.x),
            fits_i64(self.y + other.y),
        ensures
            r.x == self.x + other.x,
            r.y == self.y + other.y,
    {
        Coord::new(self.x + other.x, self.y + other.y)
    }

    pub fn add_assign(&mut self, other: Coord)
        requires
            fits_i64(old(self).x + other.x),
            fits_i64(old(self).y + other.y),
        ensures
            final(self).x == old(self).x + other.x,
            final(self).y == old(self).y + other.y,
    {
        *self = self.add(other);
    }

    /// Component-wise difference.
    pub fn sub(self, other: Coord) -> (r: Self)
        requires
            fits_i64(self.x - other.x),
            fits_i64(self.y - other.y),
        ensures
            r.x == self.x - other.x,
            r.y == self.y - other.y,
    {
        Coord::new(self.x - other.x, self.y - other.y)
    }

    pub fn sub_assign(&mut self, other: Coord)
        requires
            fits_i64(old(self).x - other.x),
            fits_i64(old(self).y - other.y),
        ensures
            final(self).x == old(self).x - other.x,
            final(self).y == old(self).y - other.y,
    {
        *self = self.sub(other);
    }

    /// Both components multiplied by the scalar `k`.
    pub fn mul(self, k: i64) -> (r: Self)
        requires
            fits_i64(self.x * k),
            fits_i64(self.y * k),
        ensures
            r.x == self.x * k,
            r.y == self.y * k,
    {
        Coord::new(self.x * k, self.y * k)
    }

    pub fn mul_assign(&mut self, k: i64)
        requires
            fits_i64(old(self).x * k),
            fits_i64(old(self).y * k),
        ensures
            final(self).x == old(self).x * k,
            final(self).y == old(self).y * k,
    {
        *self = self.mul(k);
    }
}

/// Subtracting what was added gives back the first operand.
pub proof fn lemma_add_sub_inverse(a: Coord, b: Coord)
    requires
        fits_i64(a.x + b.x),
        fits_i64(a.y + b.y),
    ensures
        fits_i64((a.x + b.x) - b.x),
        fits_i64((a.y + b.y) - b.y),
        (a.x + b.x) - b.x == a.x,
        (a.y + b.y) - b.y == a.y,
{
}

impl From<(i64, i64)> for Coord {
    fn from(t: (i64, i64)) -> (r: Self) {
        Coord::new(t.0, t.1)
    }
}

impl vstd::std_specs::convert::FromSpecImpl<(i64, i64)> for Coord {
    open spec fn obeys_from_spec() -> bool {
        true
    }

    open spec fn from_spec(t: (i64, i64)) -> Coord {
        Coord { x: t.0, y: t.1 }
    }
}

impl From<[i64; 2]> for Coord {
    fn from(a: [i64; 2]) -> (r: Self) {
        Coord::new(a[0], a[1])
    }
}

impl vstd::std_specs::convert::FromSpecImpl<[i64; 2]> for Coord {
    open spec fn obeys_from_spec() -> bool {
        true
    }

    open spec fn from_spec(a: [i64; 2]) -> Coord {
        Coord { x: a@[0], y: a@[1] }
    }
}

} // verus!
