//! The play-field: its size and the scale derived from it.

use vstd::prelude::*;
use crate::fixed::{lemma_sqrt_floor_is_root, sqrt_floor, sqrt_floor_u128};
use crate::geometry::Extent;

verus! {

/// The diagonal-weighted scale of the reference window, in play-field units.
pub const REFERENCE_SCALE: u64 = 720;

/// The play-field, centred on the vertical axis: it spans
/// `-half_width ..= half_width` horizontally, and `half_height` above and
/// below the camera.
#[derive(Clone, Copy, Debug, PartialEq, Eq, Structural)]
pub struct WorldSize {
    pub half_width: u32,
    pub half_height: u32,
}

/// The diagonal-weighted scale of a field: the square root of the mean of
/// the squares of its full width and full height, rounded down.
pub open spec fn diagonal_of(half_width: int, half_height: int) -> int {
    sqrt_floor(2 * (half_width * half_width + half_height * half_height))
}

/// The diagonal-weighted scale lies between zero and twice the larger
/// half-extent, so it stays below `2^33`.
pub proof fn lemma_diagonal_bound(half_width: int, half_height: int)
    requires
        0 <= half_width <= u32::MAX,
        0 <= half_height <= u32::MAX,
    ensures
        0 <= diagonal_of(half_width, half_height) <= 2 * u32::MAX,
{
    let n = 2 * (half_width * half_width + half_height * half_height);
    let m = u32::MAX as int;
    assert(0 <= half_width * half_width <= m * m) by (nonlinear_arith)
        requires
            0 <= half_width <= m,
    ;
    assert(0 <= half_height * half_height <= m * m) by (nonlinear_arith)
        requires
            0 <= half_height <= m,
    ;
    lemma_sqrt_floor_is_root(n);
    let r = sqrt_floor(n);
    if r > 2 * m {
        assert(r * r > 4 * (m * m)) by (nonlinear_arith)
            requires
                r >= 2 * m + 1,
                m >= 0,
        ;
    }
}

impl WorldSize {
    /// The full width of the field.
    pub open spec fn width(self) -> int {
        2 * self.half_width
    }

    /// The full height of the field.
    pub open spec fn height(self) -> int {
        2 * self.half_height
    }

    /// The diagonal-weighted scale of the field.
    pub open spec fn diagonal(self) -> int {
        diagonal_of(self.half_width as int, self.half_height as int)
    }

    /// The half-extent of the player token: 0.015 of the scale on each axis.
    pub open spec fn player_extent(self) -> Extent {
        let h = (self.diagonal() * 15 / 1000) as u32;
        Extent { half_width: h, half_height: h }
    }

    /// The half-extent of a food item: 1/80 of the scale on each axis.
    pub open spec fn food_extent(self) -> Extent {
        let h = (self.diagonal() / 80) as u32;
        Extent { half_width: h, half_height: h }
    }

    /// Half the thickness shared by a wall pair and its gate: 1/80 of the scale.
    pub open spec fn wall_half_thickness(self) -> u32 {
        (self.diagonal() / 80) as u32
    }

    /// A field given by its half-extents.
    pub fn new(half_width: u32, half_height: u32) -> (w: WorldSize)
        ensures
            w == (WorldSize { half_width, half_height }),
    {
        WorldSize { half_width, half_height }
    }

    /// A field given by the full size of the window that shows it. Each
    /// half-extent is half the window's, rounded down and held to `u32::MAX`.
    pub fn from_window(width: u64, height: u64) -> (w: WorldSize)
        ensures
            w.half_width == if width / 2 > u32::MAX { u32::MAX as int } else { (width / 2) as int },
            w.half_height == if height / 2 > u32::MAX { u32::MAX as int } else { (height / 2) as int },
    {
        let hw: u64 = width / 2;
        let hh: u64 = height / 2;
        WorldSize {
            half_width: if hw > u32::MAX as u64 { u32::MAX } else { hw as u32 },
            half_height: if hh > u32::MAX as u64 { u32::MAX } else { hh as u32 },
        }
    }

    /// Computes the diagonal-weighted scale.
    pub fn scale(&self) -> (d: u64)
        ensures
            d == self.diagonal(),
            d <= 2 * u32::MAX,
    {
        let hw: u128 = self.half_width as u128;
        let hh: u128 = self.half_height as u128;
        assert(hw * hw <= 0xFFFF_FFFF * 0xFFFF_FFFF) by (nonlinear_arith)
            requires
                0 <= hw <= 0xFFFF_FFFF,
        ;
        assert(hh * hh <= 0xFFFF_FFFF * 0xFFFF_FFFF) by (nonlinear_arith)
            requires
                0 <= hh <= 0xFFFF_FFFF,
        ;
        proof {
            lemma_diagonal_bound(self.half_width as int, self.half_height as int);
        }
        sqrt_floor_u128(2 * (hw * hw + hh * hh))
    }

    /// Computes the half-extent of the player token.
    pub fn player_size(&self) -> (e: Extent)
        ensures
            e == self.player_extent(),
    {
        let d: u64 = self.scale();
        let h: u32 = (d * 15 / 1000) as u32;
        Extent { half_width: h, half_height: h }
    }

    /// Computes the half-extent of a food item.
    pub fn food_size(&self) -> (e: Extent)
        ensures
            e == self.food_extent(),
    {
        let d: u64 = self.scale();
        let h: u32 = (d / 80) as u32;
        Extent { half_width: h, half_height: h }
    }

    /// Computes half the thickness of walls and gates.
    pub fn wall_thickness(&self) -> (t: u32)
        ensures
            t == self.wall_half_thickness(),
    {
        let d: u64 = self.scale();
        (d / 80) as u32
    }
}

} // verus!
