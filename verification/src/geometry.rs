//! Points, vectors, half-extents and the axis-aligned overlap test.

use vstd::prelude::*;
use crate::fixed::{magnitude, magnitude_i64, saturate, saturate_i128, sqrt_floor, sqrt_floor_u128};

verus! {

/// A point or a vector of the plane, in sub-units.
#[derive(Clone, Copy, Debug, PartialEq, Eq, Structural)]
pub struct Vec2 {
    pub x: i64,
    pub y: i64,
}

/// The half-width and half-height of an axis-aligned box, in sub-units.
#[derive(Clone, Copy, Debug, PartialEq, Eq, Structural)]
pub struct Extent {
    pub half_width: u32,
    pub half_height: u32,
}

/// The squared Euclidean length of `v`.
pub open spec fn length_squared(v: Vec2) -> int {
    v.x * v.x + v.y * v.y
}

/// The component-wise difference `a - b`, saturating.
pub open spec fn difference(a: Vec2, b: Vec2) -> Vec2 {
    Vec2 { x: saturate(a.x - b.x), y: saturate(a.y - b.y) }
}

/// Two boxes overlap when, on each axis, their centres are closer than the
/// sum of their half-extents on that axis.
pub open spec fn boxes_overlap(a_pos: Vec2, a_size: Extent, b_pos: Vec2, b_size: Extent) -> bool {
    &&& magnitude(a_pos.x - b_pos.x) < a_size.half_width + b_size.half_width
    &&& magnitude(a_pos.y - b_pos.y) < a_size.half_height + b_size.half_height
}

impl Vec2 {
    /// The zero vector.
    pub fn zero() -> (v: Vec2)
        ensures
            v == (Vec2 { x: 0, y: 0 }),
    {
        Vec2 { x: 0, y: 0 }
    }

    /// Builds a vector from its components.
    pub fn new(x: i64, y: i64) -> (v: Vec2)
        ensures
            v == (Vec2 { x, y }),
    {
        Vec2 { x, y }
    }

    /// The vector from `other` to `self`, each component saturating.
    pub fn minus(self, other: Vec2) -> (d: Vec2)
        ensures
            d == difference(self, other),
    {
        Vec2 {
            x: saturate_i128(self.x as i128 - other.x as i128),
            y: saturate_i128(self.y as i128 - other.y as i128),
        }
    }

    /// The squared length, which always fits.
    pub fn length_squared(self) -> (n: u128)
        ensures
            n == length_squared(self),
    {
        let ax: u128 = magnitude_i64(self.x) as u128;
        let ay: u128 = magnitude_i64(self.y) as u128;
        assert(ax * ax == self.x * self.x) by (nonlinear_arith)
            requires
                ax == magnitude(self.x as int),
        ;
        assert(ay * ay == self.y * self.y) by (nonlinear_arith)
            requires
                ay == magnitude(self.y as int),
        ;
        assert(ax * ax <= 0x4000_0000_0000_0000_0000_0000_0000_0000) by (nonlinear_arith)
            requires
                0 <= ax <= 0x8000_0000_0000_0000,
        ;
        assert(ay * ay <= 0x4000_0000_0000_0000_0000_0000_0000_0000) by (nonlinear_arith)
            requires
                0 <= ay <= 0x8000_0000_0000_0000,
        ;
        ax * ax + ay * ay
    }

    /// The Euclidean length, rounded down.
    pub fn length(self) -> (n: u64)
        ensures
            n == sqrt_floor(length_squared(self)),
    {
        sqrt_floor_u128(self.length_squared())
    }
}

impl Extent {
    /// Builds an extent from its two half-lengths.
    pub fn new(half_width: u32, half_height: u32) -> (e: Extent)
        ensures
            e == (Extent { half_width, half_height }),
    {
        Extent { half_width, half_height }
    }
}

/// Tests two boxes, each given by its centre and half-extents, for overlap.
pub fn overlaps(a_pos: Vec2, a_size: Extent, b_pos: Vec2, b_size: Extent) -> (hit: bool)
    ensures
        hit == boxes_overlap(a_pos, a_size, b_pos, b_size),
{
    let dx: i128 = a_pos.x as i128 - b_pos.x as i128;
    let dy: i128 = a_pos.y as i128 - b_pos.y as i128;
    let adx: i128 = if dx >= 0 { dx } else { -dx };
    let ady: i128 = if dy >= 0 { dy } else { -dy };
    adx < a_size.half_width as i128 + b_size.half_width as i128
        && ady < a_size.half_height as i128 + b_size.half_height as i128
}

/// An overlap does not depend on the order in which the two boxes are given.
pub proof fn lemma_overlap_symmetric(a_pos: Vec2, a_size: Extent, b_pos: Vec2, b_size: Extent)
    ensures
        boxes_overlap(a_pos, a_size, b_pos, b_size) == boxes_overlap(b_pos, b_size, a_pos, a_size),
{
}

} // verus!
