//! Exact decimal numbers with six fractional digits.
//!
//! Every quantity of the library (times, rates, counts, colour channels) is a
//! [`Fixed`]: an integer count of millionths. Sums and comparisons are exact,
//! so a schedule computed twice from the same inputs is the same schedule.

use vstd::prelude::*;

verus! {

/// Number of units in one whole: a [`Fixed`] of `n` units stands for `n / SCALE`.
pub const SCALE: i64 = 1_000_000;

/// A decimal number with six fractional digits, held as a count of millionths.
#[derive(Clone, Copy, Debug, PartialEq, Eq, Structural)]
pub struct Fixed {
    pub micros: i64,
}

impl View for Fixed {
    type V = int;

    open spec fn view(&self) -> int {
        self.micros as int
    }
}

impl Fixed {
    /// The number that is `micros` millionths.
    pub fn from_micros(micros: i64) -> (r: Fixed)
        ensures
            r@ == micros,
    {
        Fixed { micros }
    }

    /// The whole number `whole`.
    pub fn from_int(whole: i32) -> (r: Fixed)
        ensures
            r@ == whole * SCALE,
    {
        let w: i64 = whole as i64;
        Fixed { micros: w * SCALE }
    }

    /// Zero.
    pub fn zero() -> (r: Fixed)
        ensures
            r@ == 0,
    {
        Fixed { micros: 0 }
    }

    /// One.
    pub fn one() -> (r: Fixed)
        ensures
            r@ == SCALE,
    {
        Fixed { micros: SCALE }
    }

    /// The count of millionths.
    pub fn micros(&self) -> (m: i64)
        ensures
            m == self@,
    {
        self.micros
    }
}

/// Three numbers: a point or a direction in space.
#[derive(Clone, Copy, Debug, PartialEq, Eq, Structural)]
pub struct Vector3 {
    pub x: Fixed,
    pub y: Fixed,
    pub z: Fixed,
}

impl Vector3 {
    /// The vector of the three components given.
    pub fn new(x: Fixed, y: Fixed, z: Fixed) -> (r: Vector3)
        ensures
            r == (Vector3 { x, y, z }),
    {
        Vector3 { x, y, z }
    }

    /// The vector whose three components are all zero.
    pub fn zero() -> (r: Vector3)
        ensures
            r.x@ == 0,
            r.y@ == 0,
            r.z@ == 0,
    {
        Vector3 { x: Fixed { micros: 0 }, y: Fixed { micros: 0 }, z: Fixed { micros: 0 } }
    }
}

/// Four numbers: a colour with alpha, or a size padded with zeros.
#[derive(Clone, Copy, Debug, PartialEq, Eq, Structural)]
pub struct Vector4 {
    pub x: Fixed,
    pub y: Fixed,
    pub z: Fixed,
    pub w: Fixed,
}

impl Vector4 {
    /// The vector of the four components given.
    pub fn new(x: Fixed, y: Fixed, z: Fixed, w: Fixed) -> (r: Vector4)
        ensures
            r == (Vector4 { x, y, z, w }),
    {
        Vector4 { x, y, z, w }
    }

    /// The vector whose four components are all `v`.
    pub fn splat(v: Fixed) -> (r: Vector4)
        ensures
            r == (Vector4 { x: v, y: v, z: v, w: v }),
    {
        Vector4 { x: v, y: v, z: v, w: v }
    }
}

} // verus!
