#![allow(non_camel_case_types)]

use vstd::prelude::*;

verus! {

/// A two-dimensional vector.
#[derive(Clone, Copy, Debug, Default, PartialEq, Eq, Structural)]
pub struct vec2<T> {
    pub x: T,
    pub y: T,
}

/// Integer vector: block coordinates in the well.
pub type vec2i = vec2<i32>;

/// Unsigned vector.
pub type vec2u = vec2<usize>;

impl<T> vec2<T> {
    pub fn new(x: T, y: T) -> (v: vec2<T>)
        ensures
            v.x == x,
            v.y == y,
    {
        vec2 { x, y }
    }
}

/// Integer division rounding toward zero, as `/` does on signed machine integers.
pub open spec fn trunc_div(a: int, b: int) -> int {
    if a >= 0 {
        a / b
    } else {
        -((-a) / b)
    }
}

/// True when both coordinates of `v` lie in the range of `i32`.
pub open spec fn fits_i32(x: int, y: int) -> bool {
    i32::MIN <= x <= i32::MAX && i32::MIN <= y <= i32::MAX
}

impl vec2<i32> {
    /// The unit vector pointing up (y grows downward).
    pub fn up() -> (r: vec2i)
        ensures r.x == 0 && r.y == -1,
    {
        vec2 { x: 0, y: -1 }
    }

    /// The unit vector pointing right.
    pub fn right() -> (r: vec2i)
        ensures r.x == 1 && r.y == 0,
    {
        vec2 { x: 1, y: 0 }
    }

    /// The unit vector pointing down.
    pub fn down() -> (r: vec2i)
        ensures r.x == 0 && r.y == 1,
    {
        vec2 { x: 0, y: 1 }
    }

    /// The unit vector pointing left.
    pub fn left() -> (r: vec2i)
        ensures r.x == -1 && r.y == 0,
    {
        vec2 { x: -1, y: 0 }
    }

    /// The zero vector.
    pub fn zero() -> (r: vec2i)
        ensures r.x == 0 && r.y == 0,
    {
        vec2 { x: 0, y: 0 }
    }

    /// Rotates a quarter turn clockwise (with y pointing down): `(x, y)` becomes `(-y, x)`.
    pub fn rot90r(&self) -> (r: vec2i)
        requires
            self.y != i32::MIN,
        ensures
            r.x == -self.y,
            r.y == self.x,
    {
        vec2 { x: -self.y, y: self.x }
    }

    /// Rotates a quarter turn counter-clockwise: `(x, y)` becomes `(y, -x)`.
    pub fn rot90l(&self) -> (r: vec2i)
        requires
            self.x != i32::MIN,
        ensures
            r.x == self.y,
            r.y == -self.x,
    {
        vec2 { x: self.y, y: -self.x }
    }

    /// Component-wise sum.
    pub fn add(self, rhs: vec2i) -> (r: vec2i)
        requires
            fits_i32(self.x + rhs.x, self.y + rhs.y),
        ensures
            r.x == self.x + rhs.x,
            r.y == self.y + rhs.y,
    {
        vec2 { x: self.x + rhs.x, y: self.y + rhs.y }
    }

    /// Component-wise difference.
    pub fn sub(self, rhs: vec2i) -> (r: vec2i)
        requires
            fits_i32(self.x - rhs.x, self.y - rhs.y),
        ensures
            r.x == self.x - rhs.x,
            r.y == self.y - rhs.y,
    {
        vec2 { x: self.x - rhs.x, y: self.y - rhs.y }
    }

    /// Negation of both components.
    pub fn neg(self) -> (r: vec2i)
        requires
            self.x != i32::MIN,
            self.y != i32::MIN,
        ensures
            r.x == -self.x,
            r.y == -self.y,
    {
        vec2 { x: -self.x, y: -self.y }
    }

    /// Both components multiplied by `k`.
    pub fn mul(self, k: i32) -> (r: vec2i)
        requires
            fits_i32(self.x * k, self.y * k),
        ensures
            r.x == self.x * k,
            r.y == self.y * k,
    {
        vec2 { x: self.x * k, y: self.y * k }
    }

    /// Both components divided by a positive `k`, rounding toward zero.
    pub fn div(self, k: i32) -> (r: vec2i)
        requires
            k > 0,
        ensures
            r.x == trunc_div(self.x as int, k as int),
            r.y == trunc_div(self.y as int, k as int),
    {
        vec2 { x: self.x / k, y: self.y / k }
    }

    /// Converts a pair of indices to a vector, as `as i32` does.
    pub fn from_usize_pair(p: (usize, usize)) -> (r: vec2i)
        requires
            p.0 <= i32::MAX,
            p.1 <= i32::MAX,
        ensures
            r.x == p.0,
            r.y == p.1,
    {
        vec2 { x: p.0 as i32, y: p.1 as i32 }
    }
}

impl<T> vec2<T> {
    /// Builds a vector from a pair.
    pub fn from_pair(p: (T, T)) -> (r: vec2<T>)
        ensures
            r.x == p.0,
            r.y == p.1,
    {
        vec2 { x: p.0, y: p.1 }
    }
}

} // verus!
