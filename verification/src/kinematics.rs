//! Motion of the player: integration of velocity, friction, and the bounds
//! of the play-field.

use vstd::prelude::*;
use crate::fixed::{div_toward_zero, div_toward_zero_i128, magnitude, saturate, saturate_i128, UNIT};
use crate::geometry::{length_squared, Extent, Vec2};
use crate::world::WorldSize;

verus! {

/// The speed, in sub-units per second, below which the player is at rest:
/// a thousandth of a play-field unit per second.
pub const SPEED_FLOOR: i64 = 1_000;

/// The player token. It alone moves, and it carries the score.
#[derive(Clone, Copy, Debug, PartialEq, Eq, Structural)]
pub struct Player {
    pub pos: Vec2,
    pub size: Extent,
    pub velocity: Vec2,
    pub score: u32,
}

/// The position reached from `pos` at `velocity` after `dt_us` microseconds.
pub open spec fn displaced(pos: Vec2, velocity: Vec2, dt_us: u32) -> Vec2 {
    Vec2 {
        x: saturate(pos.x + div_toward_zero(velocity.x * dt_us, UNIT as int)),
        y: saturate(pos.y + div_toward_zero(velocity.y * dt_us, UNIT as int)),
    }
}

/// The velocity is slower than the speed floor.
pub open spec fn at_rest(velocity: Vec2) -> bool {
    length_squared(velocity) < SPEED_FLOOR * SPEED_FLOOR
}

/// The velocity multiplied by `decay_ppm` millionths, each component rounded
/// toward zero.
pub open spec fn scaled(velocity: Vec2, decay_ppm: u32) -> Vec2 {
    Vec2 {
        x: saturate(div_toward_zero(velocity.x * decay_ppm, UNIT as int)),
        y: saturate(div_toward_zero(velocity.y * decay_ppm, UNIT as int)),
    }
}

/// One application of friction: a velocity at rest is left alone; any other
/// is scaled, and snapped to zero when the result is at rest.
pub open spec fn with_friction(velocity: Vec2, decay_ppm: u32) -> Vec2 {
    if at_rest(velocity) {
        velocity
    } else if at_rest(scaled(velocity, decay_ppm)) {
        Vec2 { x: 0, y: 0 }
    } else {
        scaled(velocity, decay_ppm)
    }
}

/// `steps` applications of friction in a row.
pub open spec fn with_friction_repeated(velocity: Vec2, decay_ppm: u32, steps: nat) -> Vec2
    decreases steps,
{
    if steps == 0 {
        velocity
    } else {
        with_friction_repeated(with_friction(velocity, decay_ppm), decay_ppm, (steps - 1) as nat)
    }
}

/// The player's bottom edge lies below the bottom of the view.
pub open spec fn fell_behind(player: Player, camera_y: i64, world: WorldSize) -> bool {
    player.pos.y - player.size.half_height < camera_y - world.half_height
}

/// The player's left edge is outside the field.
pub open spec fn past_left(player: Player, world: WorldSize) -> bool {
    player.pos.x - player.size.half_width < -world.half_width
}

/// The player's right edge is outside the field, and its left edge is not.
pub open spec fn past_right(player: Player, world: WorldSize) -> bool {
    !past_left(player, world) && player.pos.x + player.size.half_width > world.half_width
}

/// The player's top edge is above the top of the view, and the player has
/// not fallen behind.
pub open spec fn past_top(player: Player, camera_y: i64, world: WorldSize) -> bool {
    !fell_behind(player, camera_y, world) && player.pos.y + player.size.half_height > camera_y
        + world.half_height
}

/// The player is moved back by one of the three clamps.
pub open spec fn clamped(player: Player, camera_y: i64, world: WorldSize) -> bool {
    past_left(player, world) || past_right(player, world) || past_top(player, camera_y, world)
}

/// The player after the bounds are enforced: an edge outside the field
/// horizontally, or above the view, puts the player back against that bound
/// and stops it.
pub open spec fn bounded(player: Player, camera_y: i64, world: WorldSize) -> Player {
    Player {
        pos: Vec2 {
            x: if past_left(player, world) {
                (-world.half_width + player.size.half_width) as i64
            } else if past_right(player, world) {
                (world.half_width - player.size.half_width) as i64
            } else {
                player.pos.x
            },
            y: if past_top(player, camera_y, world) {
                saturate(camera_y + world.half_height - player.size.half_height)
            } else {
                player.pos.y
            },
        },
        size: player.size,
        velocity: if clamped(player, camera_y, world) {
            Vec2 { x: 0, y: 0 }
        } else {
            player.velocity
        },
        score: player.score,
    }
}

/// The player with one more point; the score stays at its maximum once there.
pub open spec fn awarded(player: Player) -> Player {
    Player {
        score: if player.score < u32::MAX {
            (player.score + 1) as u32
        } else {
            player.score
        },
        ..player
    }
}

/// Scaling a component by at most one never grows it, keeps zero at zero,
/// and shrinks every other component when the factor is below one.
pub proof fn lemma_scale_component(a: int, decay_ppm: int)
    requires
        0 <= decay_ppm <= UNIT,
    ensures
        magnitude(div_toward_zero(a * decay_ppm, UNIT as int)) <= magnitude(a),
        decay_ppm < UNIT && a != 0 ==> magnitude(div_toward_zero(a * decay_ppm, UNIT as int))
            < magnitude(a),
{
    let m = magnitude(a);
    let p = m * decay_ppm;
    assert(0 <= p <= m * 1_000_000) by (nonlinear_arith)
        requires
            p == m * decay_ppm,
            0 <= m,
            0 <= decay_ppm <= 1_000_000,
    ;
    assert(0 <= p / 1_000_000 <= m) by (nonlinear_arith)
        requires
            0 <= p <= m * 1_000_000,
    ;
    if decay_ppm < UNIT && a != 0 {
        assert(p <= m * 1_000_000 - m) by (nonlinear_arith)
            requires
                p == m * decay_ppm,
                1 <= m,
                0 <= decay_ppm <= 999_999,
        ;
        assert(p / 1_000_000 < m) by (nonlinear_arith)
            requires
                0 <= p <= m * 1_000_000 - m,
                1 <= m,
        ;
    }
    if a >= 0 {
        assert(a * decay_ppm == p);
    } else {
        assert(a * decay_ppm == -p) by (nonlinear_arith)
            requires
                p == m * decay_ppm,
                m == -a,
        ;
        if p == 0 {
        } else {
            assert(-(a * decay_ppm) == p);
        }
    }
}

/// A smaller magnitude has a smaller square.
proof fn lemma_square_monotone(a: int, b: int)
    requires
        magnitude(a) <= magnitude(b),
    ensures
        a * a <= b * b,
{
    assert(a * a <= b * b) by (nonlinear_arith)
        requires
            magnitude(a) <= magnitude(b),
            magnitude(a) == if a >= 0 { a } else { -a },
            magnitude(b) == if b >= 0 { b } else { -b },
    ;
}

/// Friction never makes the player faster: for a factor of at most one, the
/// speed after one application is at most the speed before.
pub proof fn lemma_friction_never_faster(velocity: Vec2, decay_ppm: u32)
    requires
        decay_ppm <= UNIT,
    ensures
        length_squared(with_friction(velocity, decay_ppm)) <= length_squared(velocity),
{
    lemma_scale_component(velocity.x as int, decay_ppm as int);
    lemma_scale_component(velocity.y as int, decay_ppm as int);
    let s = scaled(velocity, decay_ppm);
    lemma_square_monotone(s.x as int, velocity.x as int);
    lemma_square_monotone(s.y as int, velocity.y as int);
    assert(0 <= velocity.x * velocity.x) by (nonlinear_arith);
    assert(0 <= velocity.y * velocity.y) by (nonlinear_arith);
}

/// The speed floor is sharp: a player that was moving is, after friction,
/// either still at least as fast as the floor or exactly at rest with zero
/// velocity.
pub proof fn lemma_friction_snaps_to_rest(velocity: Vec2, decay_ppm: u32)
    requires
        !at_rest(velocity),
    ensures
        with_friction(velocity, decay_ppm) == (Vec2 { x: 0, y: 0 }) || !at_rest(
            with_friction(velocity, decay_ppm),
        ),
        at_rest(scaled(velocity, decay_ppm)) ==> with_friction(velocity, decay_ppm) == (Vec2 {
            x: 0,
            y: 0,
        }),
{
}

/// Once at zero, the velocity stays there.
pub proof fn lemma_rest_is_kept(decay_ppm: u32, steps: nat)
    ensures
        with_friction_repeated(Vec2 { x: 0, y: 0 }, decay_ppm, steps) == (Vec2 { x: 0, y: 0 }),
    decreases steps,
{
    if steps > 0 {
        assert(at_rest(Vec2 { x: 0, y: 0 }));
        lemma_rest_is_kept(decay_ppm, (steps - 1) as nat);
    }
}

/// Over any number of applications with a factor of at most one, the speed
/// never exceeds the speed at the start.
pub proof fn lemma_friction_repeated_never_faster(velocity: Vec2, decay_ppm: u32, steps: nat)
    requires
        decay_ppm <= UNIT,
    ensures
        length_squared(with_friction_repeated(velocity, decay_ppm, steps)) <= length_squared(
            velocity,
        ),
    decreases steps,
{
    if steps > 0 {
        lemma_friction_never_faster(velocity, decay_ppm);
        lemma_friction_repeated_never_faster(
            with_friction(velocity, decay_ppm),
            decay_ppm,
            (steps - 1) as nat,
        );
    }
}

/// A moving player comes to rest in a bounded number of steps: with a factor
/// below one, after as many applications as the sum of the magnitudes of the
/// two components the velocity is exactly zero.
pub proof fn lemma_friction_comes_to_rest(velocity: Vec2, decay_ppm: u32, steps: nat)
    requires
        decay_ppm < UNIT,
        !at_rest(velocity),
        steps >= magnitude(velocity.x as int) + magnitude(velocity.y as int),
    ensures
        with_friction_repeated(velocity, decay_ppm, steps) == (Vec2 { x: 0, y: 0 }),
    decreases steps,
{
    assert(velocity.x != 0 || velocity.y != 0) by {
        if velocity.x == 0 && velocity.y == 0 {
            assert(length_squared(velocity) == 0) by (nonlinear_arith)
                requires
                    velocity.x == 0,
                    velocity.y == 0,
                    length_squared(velocity) == velocity.x * velocity.x + velocity.y * velocity.y,
            ;
        }
    }
    lemma_scale_component(velocity.x as int, decay_ppm as int);
    lemma_scale_component(velocity.y as int, decay_ppm as int);
    let next = with_friction(velocity, decay_ppm);
    if next == (Vec2 { x: 0, y: 0 }) {
        lemma_rest_is_kept(decay_ppm, (steps - 1) as nat);
    } else {
        assert(next == scaled(velocity, decay_ppm));
        assert(!at_rest(next));
        lemma_friction_comes_to_rest(next, decay_ppm, (steps - 1) as nat);
    }
}

/// After the bounds are enforced, a player no wider than the field lies
/// within it horizontally, and a player that was moved has zero velocity.
pub proof fn lemma_bounds_hold(player: Player, camera_y: i64, world: WorldSize)
    requires
        player.size.half_width <= world.half_width,
    ensures
        -world.half_width <= bounded(player, camera_y, world).pos.x - player.size.half_width,
        bounded(player, camera_y, world).pos.x + player.size.half_width <= world.half_width,
        bounded(player, camera_y, world).pos != player.pos ==> bounded(
            player,
            camera_y,
            world,
        ).velocity == (Vec2 { x: 0, y: 0 }),
        clamped(player, camera_y, world) ==> bounded(player, camera_y, world).velocity == (Vec2 {
            x: 0,
            y: 0,
        }),
{
}

/// A player that has not fallen behind does not outrun the camera: after
/// the bounds are enforced its top edge is at or below the top of the view,
/// as long as the clamped position can be represented.
pub proof fn lemma_top_holds(player: Player, camera_y: i64, world: WorldSize)
    requires
        !fell_behind(player, camera_y, world),
        camera_y + world.half_height - player.size.half_height >= i64::MIN,
    ensures
        bounded(player, camera_y, world).pos.y + player.size.half_height <= camera_y
            + world.half_height,
{
}

/// Enforcing the bounds a second time changes nothing more, for a player no
/// wider than the field that has not fallen behind.
pub proof fn lemma_bounds_idempotent(player: Player, camera_y: i64, world: WorldSize)
    requires
        player.size.half_width <= world.half_width,
        !fell_behind(player, camera_y, world),
        camera_y + world.half_height - player.size.half_height >= i64::MIN,
        !fell_behind(bounded(player, camera_y, world), camera_y, world),
    ensures
        bounded(bounded(player, camera_y, world), camera_y, world) == bounded(
            player,
            camera_y,
            world,
        ),
{
}

impl Player {
    /// A player at rest at the origin, with no points.
    pub fn new(size: Extent) -> (player: Player)
        ensures
            player == (Player {
                pos: Vec2 { x: 0, y: 0 },
                size,
                velocity: Vec2 { x: 0, y: 0 },
                score: 0,
            }),
    {
        Player { pos: Vec2 { x: 0, y: 0 }, size, velocity: Vec2 { x: 0, y: 0 }, score: 0 }
    }

    /// Moves the player by its velocity over `dt_us` microseconds. The
    /// position is not clamped to the field here.
    pub fn integrate(&mut self, dt_us: u32)
        ensures
            *final(self) == (Player {
                pos: displaced(old(self).pos, old(self).velocity, dt_us),
                ..*old(self)
            }),
    {
        let dx: i128 = div_toward_zero_i128(product(self.velocity.x, dt_us), UNIT as i128);
        let dy: i128 = div_toward_zero_i128(product(self.velocity.y, dt_us), UNIT as i128);
        proof {
            lemma_quotient_bound(self.velocity.x as int * dt_us as int);
            lemma_quotient_bound(self.velocity.y as int * dt_us as int);
        }
        self.pos = Vec2 {
            x: saturate_i128(self.pos.x as i128 + dx),
            y: saturate_i128(self.pos.y as i128 + dy),
        };
    }

    /// Applies friction once. `decay_ppm` is the factor by which speed
    /// decays over the frame, in millionths.
    pub fn apply_friction(&mut self, decay_ppm: u32)
        ensures
            *final(self) == (Player {
                velocity: with_friction(old(self).velocity, decay_ppm),
                ..*old(self)
            }),
    {
        let floor: u128 = (SPEED_FLOOR as u128) * (SPEED_FLOOR as u128);
        if self.velocity.length_squared() < floor {
            return ;
        }
        let next = Vec2 {
            x: saturate_i128(
                div_toward_zero_i128(product(self.velocity.x, decay_ppm), UNIT as i128),
            ),
            y: saturate_i128(
                div_toward_zero_i128(product(self.velocity.y, decay_ppm), UNIT as i128),
            ),
        };
        if next.length_squared() < floor {
            self.velocity = Vec2 { x: 0, y: 0 };
        } else {
            self.velocity = next;
        }
    }

    /// Keeps the player inside the field and below the top of the view.
    /// Returns whether the player has fallen below the bottom of the view,
    /// which loses the run.
    pub fn enforce_bounds(&mut self, camera_y: i64, world: &WorldSize) -> (lost: bool)
        ensures
            *final(self) == bounded(*old(self), camera_y, *world),
            lost == fell_behind(*old(self), camera_y, *world),
    {
        let x: i128 = self.pos.x as i128;
        let y: i128 = self.pos.y as i128;
        let half_w: i128 = self.size.half_width as i128;
        let half_h: i128 = self.size.half_height as i128;
        let field_w: i128 = world.half_width as i128;
        let field_h: i128 = world.half_height as i128;
        let cam: i128 = camera_y as i128;
        let mut stop: bool = false;
        if x - half_w < -field_w {
            stop = true;
            self.pos.x = (half_w - field_w) as i64;
        } else if x + half_w > field_w {
            stop = true;
            self.pos.x = (field_w - half_w) as i64;
        }
        let lost: bool = y - half_h < cam - field_h;
        if !lost && y + half_h > cam + field_h {
            stop = true;
            self.pos.y = saturate_i128(cam + field_h - half_h);
        }
        if stop {
            self.velocity = Vec2 { x: 0, y: 0 };
        }
        lost
    }

    /// Adds one point.
    pub fn award(&mut self)
        ensures
            *final(self) == awarded(*old(self)),
            final(self).score >= old(self).score,
    {
        if self.score < u32::MAX {
            self.score = self.score + 1;
        }
    }
}

/// The exact product of a signed value and an unsigned factor.
fn product(a: i64, b: u32) -> (p: i128)
    ensures
        p == a * b,
        p > i128::MIN,
{
    assert(-0x8000_0000_0000_0000 * 0x1_0000_0000 <= a * b <= 0x8000_0000_0000_0000
        * 0x1_0000_0000) by (nonlinear_arith)
        requires
            -0x8000_0000_0000_0000 <= a <= 0x8000_0000_0000_0000,
            0 <= b <= 0x1_0000_0000,
    ;
    (a as i128) * (b as i128)
}

/// A quotient by the unit is no larger in magnitude than the dividend.
proof fn lemma_quotient_bound(p: int)
    ensures
        magnitude(div_toward_zero(p, UNIT as int)) <= magnitude(p),
{
    let m = magnitude(p);
    assert(0 <= m / 1_000_000 <= m) by (nonlinear_arith)
        requires
            0 <= m,
    ;
}

} // verus!
