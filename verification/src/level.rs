//! The level generator: when a wall pair is due, where its gap lies, and
//! where food appears.

use vstd::prelude::*;
use crate::arena::{Entity, Kind};
use crate::camera::view_top;
use crate::fixed::{div_toward_zero, div_toward_zero_i128, saturate, saturate_i128, UNIT};
use crate::geometry::{Extent, Vec2};
use crate::world::WorldSize;

verus! {

/// Half the width of the gap, in millionths of the field's half-width.
pub const GAP_HALF_WIDTH_PPM: i64 = 100_000;

/// The largest distance of the gap's middle from the field's axis, in
/// millionths of the field's half-width.
pub const GAP_MIDDLE_LIMIT_PPM: i32 = 300_000;

/// The height of the band above the view in which walls and food appear.
pub const SPAWN_BAND: i64 = 32_000_000;

/// The longest time between two wall pairs, in microseconds.
pub const SPAWN_INTERVAL_MAX_US: u64 = 2_000_000;

/// The shortest time between two wall pairs, in microseconds.
pub const SPAWN_INTERVAL_MIN_US: u64 = 1_000_000;

/// By how much each point shortens the time between two wall pairs.
pub const SPAWN_INTERVAL_STEP_US: u64 = 100_000;

/// A wall pair and a gate that fills its gap.
#[derive(Clone, Copy, Debug, PartialEq, Eq, Structural)]
pub struct WallLayout {
    pub left: Entity,
    pub right: Entity,
    pub gate: Entity,
}

/// The time between two wall pairs at a score, in microseconds: two seconds
/// less a tenth of a second per point, and never less than one second.
pub open spec fn spawn_interval(score: u32) -> int {
    if 2_000_000 - 100_000 * score >= 1_000_000 {
        2_000_000 - 100_000 * score
    } else {
        1_000_000
    }
}

/// A wall pair is due when more than the interval has passed since the last.
pub open spec fn spawn_due(now_us: u64, last_us: u64, score: u32) -> bool {
    now_us - last_us > spawn_interval(score)
}

/// `x` held to the range from `lo` to `hi`.
pub open spec fn clamp(x: int, lo: int, hi: int) -> int {
    if x < lo {
        lo
    } else if x > hi {
        hi
    } else {
        x
    }
}

/// The horizontal position that lies `fraction_ppm` millionths of the
/// field's half-width from the axis.
pub open spec fn gap_edge(world: WorldSize, fraction_ppm: int) -> int {
    div_toward_zero(world.half_width * fraction_ppm, UNIT as int)
}

/// The half-width of the left wall: it spans from the field's left edge to
/// the left edge of the gap. A width that the geometry makes negative, or
/// wider than the field, is held to that range.
pub open spec fn left_wall_half(world: WorldSize, gap_middle_ppm: i32) -> int {
    clamp(
        world.half_width + gap_edge(world, gap_middle_ppm - GAP_HALF_WIDTH_PPM),
        0,
        2 * world.half_width,
    ) / 2
}

/// The half-width of the right wall: it spans from the right edge of the gap
/// to the field's right edge.
pub open spec fn right_wall_half(world: WorldSize, gap_middle_ppm: i32) -> int {
    clamp(
        world.half_width - gap_edge(world, gap_middle_ppm + GAP_HALF_WIDTH_PPM),
        0,
        2 * world.half_width,
    ) / 2
}

/// The half-width of a gate: what its two walls leave of the field.
pub open spec fn gate_half(world: WorldSize, gap_middle_ppm: i32) -> int {
    world.half_width - left_wall_half(world, gap_middle_ppm) - right_wall_half(
        world,
        gap_middle_ppm,
    )
}

/// The wall pair and gate for a gap whose middle lies `gap_middle_ppm`
/// millionths of the field's half-width from the axis, all three at height
/// `y` and of one thickness.
pub open spec fn wall_layout(world: WorldSize, gap_middle_ppm: i32, y: i64) -> WallLayout {
    let left = left_wall_half(world, gap_middle_ppm);
    let right = right_wall_half(world, gap_middle_ppm);
    let thickness = world.wall_half_thickness();
    WallLayout {
        left: Entity {
            kind: Kind::Wall,
            pos: Vec2 { x: (left - world.half_width) as i64, y },
            size: Extent { half_width: left as u32, half_height: thickness },
        },
        right: Entity {
            kind: Kind::Wall,
            pos: Vec2 { x: (world.half_width - right) as i64, y },
            size: Extent { half_width: right as u32, half_height: thickness },
        },
        gate: Entity {
            kind: Kind::Gate,
            pos: Vec2 { x: (left - right) as i64, y },
            size: Extent {
                half_width: gate_half(world, gap_middle_ppm) as u32,
                half_height: thickness,
            },
        },
    }
}

/// The height at which something appears: `offset` above the top of the view.
pub open spec fn spawn_height(camera_y: i64, world: WorldSize, offset: i64) -> i64 {
    saturate(view_top(camera_y, world) + offset)
}

/// A food item at a position.
pub open spec fn food_at(world: WorldSize, pos: Vec2) -> Entity {
    Entity { kind: Kind::Food, pos, size: world.food_extent() }
}

/// The left edge of a box.
pub open spec fn left_edge(entity: Entity) -> int {
    entity.pos.x - entity.size.half_width
}

/// The right edge of a box.
pub open spec fn right_edge(entity: Entity) -> int {
    entity.pos.x + entity.size.half_width
}

/// The full width of a box.
pub open spec fn full_width(entity: Entity) -> int {
    2 * entity.size.half_width
}

/// Rounding toward zero keeps the order of the dividends.
proof fn lemma_div_toward_zero_monotone(a: int, b: int)
    requires
        a <= b,
    ensures
        div_toward_zero(a, UNIT as int) <= div_toward_zero(b, UNIT as int),
{
    if a >= 0 {
        assert(a / 1_000_000 <= b / 1_000_000) by (nonlinear_arith)
            requires
                0 <= a <= b,
        ;
    } else if b < 0 {
        assert((-b) / 1_000_000 <= (-a) / 1_000_000) by (nonlinear_arith)
            requires
                0 <= -b <= -a,
        ;
    } else {
        assert(0 <= (-a) / 1_000_000) by (nonlinear_arith)
            requires
                0 <= -a,
        ;
        assert(0 <= b / 1_000_000) by (nonlinear_arith)
            requires
                0 <= b,
        ;
    }
}

/// The two walls never take more than the field: each half-width, and the
/// gate's, lies between zero and the field's half-width.
pub proof fn lemma_layout_fits(world: WorldSize, gap_middle_ppm: i32)
    ensures
        0 <= left_wall_half(world, gap_middle_ppm) <= world.half_width,
        0 <= right_wall_half(world, gap_middle_ppm) <= world.half_width,
        0 <= gate_half(world, gap_middle_ppm) <= world.half_width,
{
    let w = world.half_width as int;
    let lo = gap_middle_ppm - GAP_HALF_WIDTH_PPM;
    let hi = gap_middle_ppm + GAP_HALF_WIDTH_PPM;
    assert(w * lo <= w * hi) by (nonlinear_arith)
        requires
            0 <= w,
            lo <= hi,
    ;
    lemma_div_toward_zero_monotone(w * lo, w * hi);
}

/// The gap partition: the widths of the left wall, its gate and the right
/// wall add up to the width of the field, for every gap middle. The three
/// tile the field from its left edge to its right edge without a seam, at
/// one height and with one thickness.
pub proof fn lemma_gap_partition(world: WorldSize, gap_middle_ppm: i32, y: i64)
    ensures
        ({
            let layout = wall_layout(world, gap_middle_ppm, y);
            &&& full_width(layout.left) + full_width(layout.gate) + full_width(layout.right)
                == world.width()
            &&& left_edge(layout.left) == -world.half_width
            &&& right_edge(layout.left) == left_edge(layout.gate)
            &&& right_edge(layout.gate) == left_edge(layout.right)
            &&& right_edge(layout.right) == world.half_width
            &&& layout.left.pos.y == y && layout.gate.pos.y == y && layout.right.pos.y == y
            &&& layout.left.size.half_height == layout.gate.size.half_height
            &&& layout.right.size.half_height == layout.gate.size.half_height
            &&& layout.left.kind == Kind::Wall && layout.right.kind == Kind::Wall
            &&& layout.gate.kind == Kind::Gate
        }),
{
    lemma_layout_fits(world, gap_middle_ppm);
}

/// For a gap middle within its limits nothing is clamped: each wall ends at
/// the edge of the gap, or one sub-unit short of it where its width is odd.
pub proof fn lemma_gap_where_drawn(world: WorldSize, gap_middle_ppm: i32, y: i64)
    requires
        -GAP_MIDDLE_LIMIT_PPM <= gap_middle_ppm <= GAP_MIDDLE_LIMIT_PPM,
    ensures
        ({
            let layout = wall_layout(world, gap_middle_ppm, y);
            let gap_left = gap_edge(world, gap_middle_ppm - GAP_HALF_WIDTH_PPM);
            let gap_right = gap_edge(world, gap_middle_ppm + GAP_HALF_WIDTH_PPM);
            &&& gap_left - 1 <= right_edge(layout.left) <= gap_left
            &&& gap_right <= left_edge(layout.right) <= gap_right + 1
        }),
{
    let w = world.half_width as int;
    lemma_layout_fits(world, gap_middle_ppm);
    let lo = gap_middle_ppm - GAP_HALF_WIDTH_PPM;
    let hi = gap_middle_ppm + GAP_HALF_WIDTH_PPM;
    assert(w * -1_000_000 <= w * lo && w * hi <= w * 1_000_000) by (nonlinear_arith)
        requires
            0 <= w,
            -1_000_000 <= lo,
            hi <= 1_000_000,
    ;
    lemma_div_toward_zero_monotone(w * -1_000_000, w * lo);
    lemma_div_toward_zero_monotone(w * hi, w * 1_000_000);
    assert((w * 1_000_000) / 1_000_000 == w) by (nonlinear_arith);
    assert(-(w * -1_000_000) == w * 1_000_000) by (nonlinear_arith);
    assert(w * -1_000_000 <= 0 <= w * 1_000_000) by (nonlinear_arith)
        requires
            0 <= w,
    ;
    let gap_left = gap_edge(world, lo);
    let gap_right = gap_edge(world, hi);
    assert(w * lo <= w * hi) by (nonlinear_arith)
        requires
            0 <= w,
            lo <= hi,
    ;
    lemma_div_toward_zero_monotone(w * lo, w * hi);
    assert(-w <= gap_left <= gap_right <= w);
}

/// Computes the time between two wall pairs at a score.
pub fn spawn_interval_us(score: u32) -> (interval: u64)
    ensures
        interval == spawn_interval(score),
        SPAWN_INTERVAL_MIN_US <= interval <= SPAWN_INTERVAL_MAX_US,
{
    let cut: u64 = SPAWN_INTERVAL_STEP_US * (score as u64);
    if cut <= SPAWN_INTERVAL_MAX_US - SPAWN_INTERVAL_MIN_US {
        SPAWN_INTERVAL_MAX_US - cut
    } else {
        SPAWN_INTERVAL_MIN_US
    }
}

/// Tells whether a wall pair is due at `now_us`, the last one having been
/// spawned at `last_us`.
pub fn is_spawn_due(now_us: u64, last_us: u64, score: u32) -> (due: bool)
    ensures
        due == spawn_due(now_us, last_us, score),
{
    now_us > last_us && now_us - last_us > spawn_interval_us(score)
}

/// Lays out a wall pair and its gate.
pub fn lay_out_walls(world: &WorldSize, gap_middle_ppm: i32, y: i64) -> (layout: WallLayout)
    ensures
        layout == wall_layout(*world, gap_middle_ppm, y),
        full_width(layout.left) + full_width(layout.gate) + full_width(layout.right)
            == world.width(),
{
    let w: i128 = world.half_width as i128;
    let lo: i128 = gap_middle_ppm as i128 - GAP_HALF_WIDTH_PPM as i128;
    let hi: i128 = gap_middle_ppm as i128 + GAP_HALF_WIDTH_PPM as i128;
    assert(-0x1_0000_0000 * 0x1_0000_0000 <= w * lo <= 0x1_0000_0000 * 0x1_0000_0000)
        by (nonlinear_arith)
        requires
            0 <= w <= 0x1_0000_0000,
            -0x1_0000_0000 <= lo <= 0x1_0000_0000,
    ;
    assert(-0x1_0000_0000 * 0x1_0000_0000 <= w * hi <= 0x1_0000_0000 * 0x1_0000_0000)
        by (nonlinear_arith)
        requires
            0 <= w <= 0x1_0000_0000,
            -0x1_0000_0000 <= hi <= 0x1_0000_0000,
    ;
    let gap_left: i128 = div_toward_zero_i128(w * lo, UNIT as i128);
    let gap_right: i128 = div_toward_zero_i128(w * hi, UNIT as i128);
    proof {
        lemma_quotient_magnitude(w * lo);
        lemma_quotient_magnitude(w * hi);
        lemma_layout_fits(*world, gap_middle_ppm);
        lemma_gap_partition(*world, gap_middle_ppm, y);
    }
    let left: i128 = clamp_i128(w + gap_left, 0, 2 * w) / 2;
    let right: i128 = clamp_i128(w - gap_right, 0, 2 * w) / 2;
    let thickness: u32 = world.wall_thickness();
    WallLayout {
        left: Entity {
            kind: Kind::Wall,
            pos: Vec2 { x: (left - w) as i64, y },
            size: Extent { half_width: left as u32, half_height: thickness },
        },
        right: Entity {
            kind: Kind::Wall,
            pos: Vec2 { x: (w - right) as i64, y },
            size: Extent { half_width: right as u32, half_height: thickness },
        },
        gate: Entity {
            kind: Kind::Gate,
            pos: Vec2 { x: (left - right) as i64, y },
            size: Extent { half_width: (w - left - right) as u32, half_height: thickness },
        },
    }
}

/// Computes the height that lies `offset` above the top of the view.
pub fn height_above_view(camera_y: i64, world: &WorldSize, offset: i64) -> (y: i64)
    ensures
        y == spawn_height(camera_y, *world, offset),
{
    saturate_i128(camera_y as i128 + world.half_height as i128 + offset as i128)
}

/// Makes a food item at a position.
pub fn make_food(world: &WorldSize, pos: Vec2) -> (food: Entity)
    ensures
        food == food_at(*world, pos),
{
    Entity { kind: Kind::Food, pos, size: world.food_size() }
}

/// Holds a value to a range.
fn clamp_i128(x: i128, lo: i128, hi: i128) -> (r: i128)
    ensures
        r == clamp(x as int, lo as int, hi as int),
{
    if x < lo {
        lo
    } else if x > hi {
        hi
    } else {
        x
    }
}

/// A quotient by the unit is no larger in magnitude than the dividend.
proof fn lemma_quotient_magnitude(p: int)
    ensures
        p >= 0 ==> 0 <= div_toward_zero(p, UNIT as int) <= p,
        p < 0 ==> p <= div_toward_zero(p, UNIT as int) <= 0,
{
    if p >= 0 {
        assert(0 <= p / 1_000_000 <= p) by (nonlinear_arith)
            requires
                0 <= p,
        ;
    } else {
        assert(0 <= (-p) / 1_000_000 <= -p) by (nonlinear_arith)
            requires
                0 <= -p,
        ;
    }
}

} // verus!
