//! Two-dimensional integer coordinates.

use vstd::prelude::*;

verus! {

/// A pair of coordinates: column `0`, row `1`.
#[derive(Clone, Copy, Debug, PartialEq, Eq, Structural)]
pub struct Vector2<T>(pub T, pub T);

/// Reading order on positions: rows first, then columns within a row.
pub open spec fn pos_lt(a: Vector2<i32>, b: Vector2<i32>) -> bool {
    a.1 < b.1 || (a.1 == b.1 && a.0 < b.0)
}

impl Vector2<i32> {
    /// Component-wise sum.
    pub fn add(&self, a: Vector2<i32>) -> (r: Vector2<i32>)
        requires
            i32::MIN <= self.0 + a.0 <= i32::MAX,
            i32::MIN <= self.1 + a.1 <= i32::MAX,
        ensures
            r.0 == self.0 + a.0,
            r.1 == self.1 + a.1,
    {
        Vector2(self.0 + a.0, self.1 + a.1)
    }

    /// Widens the coordinates to `i64`.
    pub fn from(a: Vector2<i32>) -> (r: Vector2<i64>)
        ensures
            r.0 == a.0 as i64,
            r.1 == a.1 as i64,
    {
        Vector2(a.0 as i64, a.1 as i64)
    }

    pub fn x(&self) -> (r: i32)
        ensures
            r == self.0,
    {
        self.0
    }

    pub fn y(&self) -> (r: i32)
        ensures
            r == self.1,
    {
        self.1
    }

    /// Whether `self` comes strictly before `other` in reading order.
    pub fn before(&self, other: &Vector2<i32>) -> (r: bool)
        ensures
            r == pos_lt(*self, *other),
    {
        self.1 < other.1 || (self.1 == other.1 && self.0 < other.0)
    }
}

impl Vector2<i64> {
    /// Component-wise sum.
    pub fn add(&self, a: Vector2<i64>) -> (r: Vector2<i64>)
        requires
            i64::MIN <= self.0 + a.0 <= i64::MAX,
            i64::MIN <= self.1 + a.1 <= i64::MAX,
        ensures
            r.0 == self.0 + a.0,
            r.1 == self.1 + a.1,
    {
        Vector2(self.0 + a.0, self.1 + a.1)
    }

    pub fn x(&self) -> (r: i64)
        ensures
            r == self.0,
    {
        self.0
    }

    pub fn y(&self) -> (r: i64)
        ensures
            r == self.1,
    {
        self.1
    }
}

} // verus!
