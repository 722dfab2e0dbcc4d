//! 2D integer vectors, used both as world-tile positions and as displacements.

use vstd::prelude::*;

verus! {

/// An ordered pair of signed integers; all arithmetic is exact integer math.
#[derive(Clone, Copy, Debug, PartialEq, Eq, Structural)]
pub struct Coord(pub i32, pub i32);

impl Coord {
    pub fn dot(self, rhs: Self) -> (r: i32)
        requires
            i32::MIN <= self.0 * rhs.0 <= i32::MAX,
            i32::MIN <= self.1 * rhs.1 <= i32::MAX,
            i32::MIN <= self.0 * rhs.0 + self.1 * rhs.1 <= i32::MAX,
        ensures
            r == self.0 * rhs.0 + self.1 * rhs.1,
    {
        self.0 * rhs.0 + self.1 * rhs.1
    }

    pub fn length_squared(self) -> (r: i32)
        requires
            self.0 * self.0 + self.1 * self.1 <= i32::MAX,
        ensures
            r == self.0 * self.0 + self.1 * self.1,
    {
        proof {
            assert(self.0 * self.0 >= 0 && self.1 * self.1 >= 0) by (nonlinear_arith);
        }
        self.0 * self.0 + self.1 * self.1
    }

    pub fn mul_components(self, rhs: Self) -> (r: Self)
        requires
            i32::MIN <= self.0 * rhs.0 <= i32::MAX,
            i32::MIN <= self.1 * rhs.1 <= i32::MAX,
        ensures
            r.0 == self.0 * rhs.0,
            r.1 == self.1 * rhs.1,
    {
        Coord(self.0 * rhs.0, self.1 * rhs.1)
    }
}

pub fn coord_add(a: Coord, b: Coord) -> (r: Coord)
    requires
        i32::MIN <= a.0 + b.0 <= i32::MAX,
        i32::MIN <= a.1 + b.1 <= i32::MAX,
    ensures
        r.0 == a.0 + b.0,
        r.1 == a.1 + b.1,
{
    Coord(a.0 + b.0, a.1 + b.1)
}

pub fn coord_subtract(a: Coord, b: Coord) -> (r: Coord)
    requires
        i32::MIN <= a.0 - b.0 <= i32::MAX,
        i32::MIN <= a.1 - b.1 <= i32::MAX,
    ensures
        r.0 == a.0 - b.0,
        r.1 == a.1 - b.1,
{
    Coord(a.0 - b.0, a.1 - b.1)
}

pub fn coord_negate(a: Coord) -> (r: Coord)
    requires
        a.0 != i32::MIN,
        a.1 != i32::MIN,
    ensures
        r.0 == -a.0,
        r.1 == -a.1,
{
    Coord(-a.0, -a.1)
}

pub fn coord_scale(a: Coord, s: i32) -> (r: Coord)
    requires
        i32::MIN <= a.0 * s <= i32::MAX,
        i32::MIN <= a.1 * s <= i32::MAX,
    ensures
        r.0 == a.0 * s,
        r.1 == a.1 * s,
{
    Coord(a.0 * s, a.1 * s)
}

pub fn coord_dot(a: Coord, b: Coord) -> (r: i32)
    requires
        i32::MIN <= a.0 * b.0 <= i32::MAX,
        i32::MIN <= a.1 * b.1 <= i32::MAX,
        i32::MIN <= a.0 * b.0 + a.1 * b.1 <= i32::MAX,
    ensures
        r == a.0 * b.0 + a.1 * b.1,
{
    a.dot(b)
}

pub fn coord_length_squared(a: Coord) -> (r: i32)
    requires
        a.0 * a.0 + a.1 * a.1 <= i32::MAX,
    ensures
        r == a.0 * a.0 + a.1 * a.1,
{
    a.length_squared()
}

pub fn coord_mul_components(a: Coord, b: Coord) -> (r: Coord)
    requires
        i32::MIN <= a.0 * b.0 <= i32::MAX,
        i32::MIN <= a.1 * b.1 <= i32::MAX,
    ensures
        r.0 == a.0 * b.0,
        r.1 == a.1 * b.1,
{
    a.mul_components(b)
}

} // verus!
