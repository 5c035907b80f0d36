//! The camera: it rises at a rate that grows with the score and with the
//! size of the field, and entities that it has left behind are removed.

use vstd::prelude::*;
use crate::arena::{culled, Arena};
use crate::fixed::{saturate, saturate_i128};
use crate::world::WorldSize;

verus! {

/// The speed of the camera at score zero on a field of the reference scale,
/// in play-field units per second.
pub const CAMERA_SPEED: u64 = 128;

/// The divisor of the rise: the reference scale in sub-units, times the
/// thousand by which the score factor is scaled.
pub const RISE_DIVISOR: u128 = 720_000_000_000;

/// The distance the camera rises in `dt_us` microseconds: the base speed,
/// times `1 + 0.025 * score`, times the ratio of the field's scale to the
/// reference scale, rounded down.
pub open spec fn camera_rise(dt_us: u32, score: u32, diagonal: int) -> int {
    dt_us * 128 * (1000 + 25 * score) * diagonal / 720_000_000_000
}

/// The camera's height after it has risen for `dt_us` microseconds.
pub open spec fn scrolled(camera_y: i64, dt_us: u32, score: u32, world: WorldSize) -> i64 {
    saturate(camera_y + camera_rise(dt_us, score, world.diagonal()))
}

/// The height of the bottom edge of the view.
pub open spec fn view_bottom(camera_y: i64, world: WorldSize) -> int {
    camera_y - world.half_height
}

/// The height of the top edge of the view.
pub open spec fn view_top(camera_y: i64, world: WorldSize) -> int {
    camera_y + world.half_height
}

/// The camera never moves down.
pub proof fn lemma_rise_not_negative(dt_us: u32, score: u32, diagonal: int)
    requires
        0 <= diagonal,
    ensures
        0 <= camera_rise(dt_us, score, diagonal),
{
    let a = dt_us * 128;
    let b = 1000 + 25 * score;
    assert(0 <= a * b) by (nonlinear_arith)
        requires
            0 <= a,
            0 <= b,
    ;
    assert(0 <= a * b * diagonal) by (nonlinear_arith)
        requires
            0 <= a * b,
            0 <= diagonal,
    ;
    assert(0 <= (a * b * diagonal) / 720_000_000_000) by (nonlinear_arith)
        requires
            0 <= a * b * diagonal,
    ;
}

/// Computes the camera's height after `dt_us` microseconds.
pub fn scroll_camera(camera_y: i64, dt_us: u32, score: u32, world: &WorldSize) -> (y: i64)
    ensures
        y == scrolled(camera_y, dt_us, score, *world),
        y >= camera_y,
{
    let diagonal: u128 = world.scale() as u128;
    assert(dt_us * CAMERA_SPEED == dt_us * 128);
    let a: u128 = (dt_us as u128) * (CAMERA_SPEED as u128);
    let b: u128 = 1000 + 25 * (score as u128);
    assert(a * b <= 0x80_0000_0000 * 0x20_0000_0000) by (nonlinear_arith)
        requires
            0 <= a <= 0x80_0000_0000,
            0 <= b <= 0x20_0000_0000,
    ;
    let c: u128 = a * b;
    assert(c * diagonal <= 0x80_0000_0000 * 0x20_0000_0000 * 0x2_0000_0000) by (nonlinear_arith)
        requires
            0 <= c <= 0x80_0000_0000 * 0x20_0000_0000,
            0 <= diagonal <= 0x2_0000_0000,
    ;
    let rise: u128 = c * diagonal / RISE_DIVISOR;
    proof {
        lemma_rise_not_negative(dt_us, score, world.diagonal());
        assert(rise == camera_rise(dt_us, score, world.diagonal()));
    }
    saturate_i128(camera_y as i128 + rise as i128)
}

/// Removes every entity whose top edge has scrolled below the bottom of the
/// view.
pub fn cull_out_of_view(arena: &mut Arena, camera_y: i64, world: &WorldSize)
    ensures
        final(arena)@ == culled(old(arena)@, view_bottom(camera_y, *world)),
{
    arena.cull_below(camera_y as i128 - world.half_height as i128);
}

} // verus!
