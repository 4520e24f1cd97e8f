//! Integer vectors.
use vstd::prelude::*;

verus! {

/// A point or a vector of the lattice, in whole units.
#[derive(Clone, Copy, Debug, PartialEq, Eq, Structural)]
pub struct Point3 {
    pub x: i64,
    pub y: i64,
    pub z: i64,
}

impl View for Point3 {
    type V = (int, int, int);

    open spec fn view(&self) -> (int, int, int) {
        (self.x as int, self.y as int, self.z as int)
    }
}

/// The viewer's position in world units. Its coordinates are 32 bits wide, so
/// that every position derived from it fits a [`Point3`].
#[derive(Clone, Copy, Debug, PartialEq, Eq, Structural)]
pub struct ViewPoint {
    pub x: i32,
    pub y: i32,
    pub z: i32,
}

/// Componentwise difference `u - v`.
pub open spec fn vec_sub(u: (int, int, int), v: (int, int, int)) -> (int, int, int) {
    (u.0 - v.0, u.1 - v.1, u.2 - v.2)
}

/// The cross product `u x v`.
pub open spec fn vec_cross(u: (int, int, int), v: (int, int, int)) -> (int, int, int) {
    (u.1 * v.2 - u.2 * v.1, u.2 * v.0 - u.0 * v.2, u.0 * v.1 - u.1 * v.0)
}

/// Every coordinate of `v` fits 64 bits.
pub open spec fn fits(v: (int, int, int)) -> bool {
    &&& i64::MIN <= v.0 <= i64::MAX
    &&& i64::MIN <= v.1 <= i64::MAX
    &&& i64::MIN <= v.2 <= i64::MAX
}

/// `a * b - c * d`, which 128 bits always hold.
pub fn product_difference(a: i64, b: i64, c: i64, d: i64) -> (r: i128)
    ensures
        r == a * b - c * d,
{
    assert(-0x8000_0000_0000_0000 * 0x7FFF_FFFF_FFFF_FFFF <= a * b <= 0x8000_0000_0000_0000
        * 0x8000_0000_0000_0000) by (nonlinear_arith)
        requires
            -0x8000_0000_0000_0000 <= a <= 0x7FFF_FFFF_FFFF_FFFF,
            -0x8000_0000_0000_0000 <= b <= 0x7FFF_FFFF_FFFF_FFFF,
    ;
    assert(-0x8000_0000_0000_0000 * 0x7FFF_FFFF_FFFF_FFFF <= c * d <= 0x8000_0000_0000_0000
        * 0x8000_0000_0000_0000) by (nonlinear_arith)
        requires
            -0x8000_0000_0000_0000 <= c <= 0x7FFF_FFFF_FFFF_FFFF,
            -0x8000_0000_0000_0000 <= d <= 0x7FFF_FFFF_FFFF_FFFF,
    ;
    (a as i128) * (b as i128) - (c as i128) * (d as i128)
}

impl Point3 {
    /// No coordinate exceeds `limit` in absolute value.
    pub open spec fn within(self, limit: int) -> bool {
        &&& -limit <= self.x <= limit
        &&& -limit <= self.y <= limit
        &&& -limit <= self.z <= limit
    }

    /// `self - other`, where that fits.
    pub fn minus(self, other: Point3) -> (d: Point3)
        requires
            fits(vec_sub(self@, other@)),
        ensures
            d@ == vec_sub(self@, other@),
    {
        Point3 { x: self.x - other.x, y: self.y - other.y, z: self.z - other.z }
    }

    /// `self x other`, where that fits.
    pub fn cross(self, other: Point3) -> (c: Point3)
        requires
            fits(vec_cross(self@, other@)),
        ensures
            c@ == vec_cross(self@, other@),
    {
        let x = product_difference(self.y, other.z, self.z, other.y);
        let y = product_difference(self.z, other.x, self.x, other.z);
        let z = product_difference(self.x, other.y, self.y, other.x);
        Point3 { x: x as i64, y: y as i64, z: z as i64 }
    }
}

} // verus!
