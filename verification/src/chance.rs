//! The random source: the numbers that one frame may need to place walls
//! and food.
//!
//! Everything random is drawn here and handed on as plain values, so that
//! the rest of the simulation is a function of its inputs.

use vstd::prelude::*;
use rand::Rng;
use crate::level::{GAP_MIDDLE_LIMIT_PPM, SPAWN_BAND};
use crate::world::WorldSize;

verus! {

/// Where a food item appears: its horizontal position, and how far above
/// the top of the view.
#[derive(Clone, Copy, Debug, PartialEq, Eq, Structural)]
pub struct FoodDraw {
    pub x: i64,
    pub offset: i64,
}

/// The random numbers of one frame.
#[derive(Clone, Copy, Debug, PartialEq, Eq, Structural)]
pub struct Draws {
    /// The middle of the gap, in millionths of the field's half-width.
    pub gap_middle_ppm: i32,
    /// How far above the top of the view a wall pair appears.
    pub wall_offset: i64,
    /// The first of the two food items that replace an eaten one.
    pub first_food: FoodDraw,
    /// The second of the two food items that replace an eaten one.
    pub second_food: FoodDraw,
    /// The food item that appears when none is left.
    pub refill_food: FoodDraw,
}

impl FoodDraw {
    /// The position is inside the field, or on its axis when the field has
    /// no width, and the offset is inside the band above the view.
    pub open spec fn within_limits(self, world: WorldSize) -> bool {
        &&& -world.half_width <= self.x
        &&& self.x < world.half_width || (world.half_width == 0 && self.x == 0)
        &&& 0 <= self.offset < SPAWN_BAND
    }
}

impl Draws {
    /// Every number lies in the range it is drawn from.
    pub open spec fn within_limits(self, world: WorldSize) -> bool {
        &&& -GAP_MIDDLE_LIMIT_PPM <= self.gap_middle_ppm <= GAP_MIDDLE_LIMIT_PPM
        &&& 0 <= self.wall_offset < SPAWN_BAND
        &&& self.first_food.within_limits(world)
        &&& self.second_food.within_limits(world)
        &&& self.refill_food.within_limits(world)
    }
}

/// Draws an integer from the thread-local generator of `rand::thread_rng`
/// with `rand::Rng::gen_range` on the half-open range `low..high`. The call
/// panics on an empty range, so one is not accepted. Of the result only its
/// range is claimed: at least `low`, and below `high`. That the numbers are
/// spread evenly over the range is the generator's business and is not
/// stated here.
#[verifier::external_body]
fn uniform_between(low: i64, high: i64) -> (r: i64)
    requires
        low < high,
    ensures
        low <= r < high,
{
    rand::thread_rng().gen_range(low..high)
}

/// Draws the middle of a gap: at most 0.3 of the field's half-width to
/// either side of the axis.
pub fn draw_gap_middle() -> (middle: i32)
    ensures
        -GAP_MIDDLE_LIMIT_PPM <= middle <= GAP_MIDDLE_LIMIT_PPM,
{
    uniform_between(-(GAP_MIDDLE_LIMIT_PPM as i64), GAP_MIDDLE_LIMIT_PPM as i64 + 1) as i32
}

/// Draws an offset inside the band above the view.
pub fn draw_band_offset() -> (offset: i64)
    ensures
        0 <= offset < SPAWN_BAND,
{
    uniform_between(0, SPAWN_BAND)
}

/// Draws a horizontal position inside the field. A field without width has
/// only its axis to offer.
pub fn draw_field_x(world: &WorldSize) -> (x: i64)
    ensures
        -world.half_width <= x,
        x < world.half_width || (world.half_width == 0 && x == 0),
{
    if world.half_width == 0 {
        0
    } else {
        uniform_between(-(world.half_width as i64), world.half_width as i64)
    }
}

/// Draws where a food item appears.
pub fn draw_food(world: &WorldSize) -> (food: FoodDraw)
    ensures
        food.within_limits(*world),
{
    let x: i64 = draw_field_x(world);
    let offset: i64 = draw_band_offset();
    FoodDraw { x, offset }
}

/// Draws the random numbers of one frame.
pub fn draw(world: &WorldSize) -> (draws: Draws)
    ensures
        draws.within_limits(*world),
{
    let gap_middle_ppm: i32 = draw_gap_middle();
    let wall_offset: i64 = draw_band_offset();
    let first_food = draw_food(world);
    let second_food = draw_food(world);
    let refill_food = draw_food(world);
    Draws { gap_middle_ppm, wall_offset, first_food, second_food, refill_food }
}

} // verus!
