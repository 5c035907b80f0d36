use endless_game::camera::{cull_out_of_view, scroll_camera};
use endless_game::arena::{Arena, Entity, Kind};
use endless_game::fixed::{div_toward_zero_i128, magnitude_i64, saturate_i128, sqrt_floor_u128};
use endless_game::geometry::{overlaps, Extent, Vec2};
use endless_game::kinematics::Player;
use endless_game::world::WorldSize;

const U: i64 = 1_000_000;

fn player(x: i64, y: i64, vx: i64, vy: i64) -> Player {
    Player {
        pos: Vec2::new(x, y),
        size: Extent::new(10_000_000, 10_000_000),
        velocity: Vec2::new(vx, vy),
        score: 0,
    }
}

fn speed_squared(v: Vec2) -> i128 {
    (v.x as i128) * (v.x as i128) + (v.y as i128) * (v.y as i128)
}

#[test]
fn integrate_moves_by_velocity_times_time() {
    let mut p = player(0, 0, 3 * U, -3 * U / 2);
    p.integrate(500_000);
    assert_eq!(p.pos, Vec2::new(1_500_000, -750_000));
    assert_eq!(p.velocity, Vec2::new(3 * U, -3 * U / 2));
}

#[test]
fn integrate_rounds_toward_zero_on_both_sides() {
    let mut p = player(0, 0, 7, -7);
    p.integrate(500_000);
    assert_eq!(p.pos, Vec2::new(3, -3));
    let mut q = player(0, 0, 1, -1);
    q.integrate(999_999);
    assert_eq!(q.pos, Vec2::new(0, 0));
}

#[test]
fn integrate_does_not_clamp_to_the_field() {
    let mut p = player(0, 0, 5_000 * U, 0);
    p.integrate(1_000_000);
    assert_eq!(p.pos.x, 5_000 * U);
}

#[test]
fn integrate_saturates_at_the_end_of_the_range() {
    let mut p = player(i64::MAX - 5, i64::MIN + 5, U, -U);
    p.integrate(1_000_000);
    assert_eq!(p.pos, Vec2::new(i64::MAX, i64::MIN));
}

#[test]
fn friction_scales_a_moving_player() {
    let mut p = player(0, 0, 3 * U, -4 * U);
    p.apply_friction(500_000);
    assert_eq!(p.velocity, Vec2::new(1_500_000, -2_000_000));
    assert_eq!(p.pos, Vec2::new(0, 0));
}

#[test]
fn friction_rounds_toward_zero() {
    let mut p = player(0, 0, -1_000_001, 1_000_001);
    p.apply_friction(999_999);
    assert_eq!(p.velocity, Vec2::new(-999_999, 999_999));
}

#[test]
fn friction_snaps_a_slow_result_to_zero() {
    let mut p = player(0, 0, 1_500, 0);
    p.apply_friction(500_000);
    assert_eq!(p.velocity, Vec2::new(0, 0));
    let mut q = player(0, 0, 600, -800);
    q.apply_friction(999_000);
    assert_eq!(q.velocity, Vec2::new(0, 0));
}

#[test]
fn friction_keeps_a_result_at_the_floor() {
    let mut p = player(0, 0, 2_000, 0);
    p.apply_friction(500_000);
    assert_eq!(p.velocity, Vec2::new(1_000, 0));
}

#[test]
fn friction_leaves_a_player_below_the_floor_alone() {
    let mut p = player(0, 0, 999, 0);
    p.apply_friction(0);
    assert_eq!(p.velocity, Vec2::new(999, 0));
    let mut q = player(0, 0, 0, 0);
    q.apply_friction(500_000);
    assert_eq!(q.velocity, Vec2::new(0, 0));
}

#[test]
fn friction_never_speeds_up_and_comes_to_rest() {
    let mut p = player(0, 0, 123_456_789, -987_654_321);
    let mut steps = 0;
    while p.velocity != Vec2::new(0, 0) {
        let before = speed_squared(p.velocity);
        p.apply_friction(891_250);
        let after = speed_squared(p.velocity);
        assert!(after <= before);
        assert!(after == 0 || after >= 1_000_000);
        steps += 1;
        assert!(steps <= 200);
    }
    assert_eq!(steps, 120);
}

#[test]
fn friction_with_factor_one_changes_nothing() {
    let mut p = player(0, 0, 5 * U, -7 * U);
    p.apply_friction(1_000_000);
    assert_eq!(p.velocity, Vec2::new(5 * U, -7 * U));
}

#[test]
fn friction_handles_the_extremes() {
    let mut p = player(0, 0, i64::MIN, i64::MAX);
    p.apply_friction(1_000_000);
    assert_eq!(p.velocity, Vec2::new(i64::MIN, i64::MAX));
    p.apply_friction(u32::MAX);
    assert_eq!(p.velocity, Vec2::new(i64::MIN, i64::MAX));
    p.apply_friction(0);
    assert_eq!(p.velocity, Vec2::new(0, 0));
}

#[test]
fn bounds_clamp_on_the_right() {
    let world = WorldSize::new(100_000_000, 100_000_000);
    let mut p = player(200 * U, 0, 9 * U, 9 * U);
    let lost = p.enforce_bounds(0, &world);
    assert!(!lost);
    assert_eq!(p.pos, Vec2::new(90 * U, 0));
    assert_eq!(p.velocity, Vec2::new(0, 0));
}

#[test]
fn bounds_clamp_on_the_left() {
    let world = WorldSize::new(100_000_000, 100_000_000);
    let mut p = player(-90 * U - 1, 0, -9 * U, 0);
    let lost = p.enforce_bounds(0, &world);
    assert!(!lost);
    assert_eq!(p.pos, Vec2::new(-90 * U, 0));
    assert_eq!(p.velocity, Vec2::new(0, 0));
}

#[test]
fn bounds_leave_a_player_inside_alone() {
    let world = WorldSize::new(100_000_000, 100_000_000);
    let mut p = player(90 * U, 90 * U, 9 * U, -3 * U);
    let lost = p.enforce_bounds(0, &world);
    assert!(!lost);
    assert_eq!(p.pos, Vec2::new(90 * U, 90 * U));
    assert_eq!(p.velocity, Vec2::new(9 * U, -3 * U));
    let mut q = player(-90 * U, -90 * U, 1, 1);
    assert!(!q.enforce_bounds(0, &world));
    assert_eq!(q.pos, Vec2::new(-90 * U, -90 * U));
    assert_eq!(q.velocity, Vec2::new(1, 1));
}

#[test]
fn bounds_clamp_at_the_top_by_the_half_height() {
    let world = WorldSize::new(100_000_000, 100_000_000);
    let mut p = Player {
        pos: Vec2::new(0, 130 * U),
        size: Extent::new(10_000_000, 25_000_000),
        velocity: Vec2::new(U, 50 * U),
        score: 4,
    };
    let lost = p.enforce_bounds(20 * U, &world);
    assert!(!lost);
    assert_eq!(p.pos, Vec2::new(0, 95 * U));
    assert_eq!(p.velocity, Vec2::new(0, 0));
    assert_eq!(p.score, 4);
}

#[test]
fn falling_behind_the_camera_is_a_loss() {
    let world = WorldSize::new(100_000_000, 100_000_000);
    let mut p = player(0, -90 * U - 1, 2 * U, -3 * U);
    let lost = p.enforce_bounds(0, &world);
    assert!(lost);
    assert_eq!(p.pos, Vec2::new(0, -90 * U - 1));
    assert_eq!(p.velocity, Vec2::new(2 * U, -3 * U));
    let mut q = player(0, -90 * U, 0, 0);
    assert!(!q.enforce_bounds(0, &world));
    let mut r = player(0, -90 * U, 0, 0);
    assert!(r.enforce_bounds(1, &world));
}

#[test]
fn a_player_wider_than_the_field_is_put_against_the_left_edge() {
    let world = WorldSize::new(20_000_000, 100_000_000);
    let mut p = Player {
        pos: Vec2::new(0, 0),
        size: Extent::new(30_000_000, 10_000_000),
        velocity: Vec2::new(U, 0),
        score: 0,
    };
    p.enforce_bounds(0, &world);
    assert_eq!(p.pos.x, 10 * U);
    assert_eq!(p.velocity, Vec2::new(0, 0));
}

#[test]
fn award_adds_one_point_and_stops_at_the_maximum() {
    let mut p = player(0, 0, 0, 0);
    p.award();
    assert_eq!(p.score, 1);
    p.score = u32::MAX;
    p.award();
    assert_eq!(p.score, u32::MAX);
}

#[test]
fn camera_rises_with_time_score_and_scale() {
    let reference = WorldSize::new(360_000_000, 360_000_000);
    assert_eq!(reference.scale(), 720_000_000);
    assert_eq!(scroll_camera(0, 1_000_000, 0, &reference), 128 * U);
    assert_eq!(scroll_camera(7, 1_000_000, 4, &reference), 140_800_007);
    let window = WorldSize::new(360_000_000, 380_000_000);
    assert_eq!(window.scale(), 740_270_220);
    assert_eq!(scroll_camera(-5, 16_667, 3, &window), 2_357_944 - 5);
    assert_eq!(scroll_camera(100, 0, 9, &window), 100);
}

#[test]
fn camera_saturates_at_the_end_of_the_range() {
    let world = WorldSize::new(u32::MAX, u32::MAX);
    assert_eq!(scroll_camera(i64::MAX - 1, u32::MAX, u32::MAX, &world), i64::MAX);
    assert_eq!(scroll_camera(0, u32::MAX, u32::MAX, &world), i64::MAX);
}

#[test]
fn camera_does_not_move_on_a_field_without_size() {
    let world = WorldSize::new(0, 0);
    assert_eq!(world.scale(), 0);
    assert_eq!(scroll_camera(42, 1_000_000, 10, &world), 42);
}

#[test]
fn culling_removes_what_lies_below_the_view() {
    let world = WorldSize::new(100_000_000, 100_000_000);
    let mut arena = Arena::new();
    let size = Extent::new(5_000_000, 5_000_000);
    let below = arena.spawn(Entity { kind: Kind::Wall, pos: Vec2::new(0, -56 * U - 1), size });
    let touching = arena.spawn(Entity { kind: Kind::Gate, pos: Vec2::new(0, -56 * U), size });
    let food_below = arena.spawn(Entity { kind: Kind::Food, pos: Vec2::new(0, -200 * U), size });
    let food_inside = arena.spawn(Entity { kind: Kind::Food, pos: Vec2::new(0, 0), size });
    cull_out_of_view(&mut arena, 49 * U, &world);
    assert_eq!(arena.get(below), None);
    assert!(arena.get(touching).is_some());
    assert_eq!(arena.get(food_below), None);
    assert!(arena.get(food_inside).is_some());
    assert_eq!(arena.count(Kind::Food), 1);
    assert_eq!(arena.count(Kind::Wall), 0);
    assert_eq!(arena.count(Kind::Gate), 1);
}

#[test]
fn overlap_is_strict_on_both_axes() {
    let a = Extent::new(10, 20);
    let b = Extent::new(5, 5);
    assert!(overlaps(Vec2::new(0, 0), a, Vec2::new(14, 24), b));
    assert!(!overlaps(Vec2::new(0, 0), a, Vec2::new(15, 0), b));
    assert!(!overlaps(Vec2::new(0, 0), a, Vec2::new(0, 25), b));
    assert!(!overlaps(Vec2::new(0, 0), a, Vec2::new(-15, -25), b));
    assert!(overlaps(Vec2::new(0, 0), a, Vec2::new(-14, -24), b));
    assert!(overlaps(Vec2::new(14, 24), b, Vec2::new(0, 0), a));
}

#[test]
fn overlap_holds_at_the_ends_of_the_range() {
    let big = Extent::new(u32::MAX, u32::MAX);
    assert!(!overlaps(Vec2::new(i64::MIN, 0), big, Vec2::new(i64::MAX, 0), big));
    assert!(overlaps(Vec2::new(i64::MAX, i64::MIN), big, Vec2::new(i64::MAX - 1, i64::MIN + 1), big));
    let none = Extent::new(0, 0);
    assert!(!overlaps(Vec2::new(0, 0), none, Vec2::new(0, 0), none));
}

#[test]
fn square_roots_round_down() {
    assert_eq!(sqrt_floor_u128(0), 0);
    assert_eq!(sqrt_floor_u128(1), 1);
    assert_eq!(sqrt_floor_u128(15), 3);
    assert_eq!(sqrt_floor_u128(16), 4);
    assert_eq!(sqrt_floor_u128(17), 4);
    assert_eq!(sqrt_floor_u128(u128::MAX), u64::MAX);
    assert_eq!(sqrt_floor_u128((u64::MAX as u128) * (u64::MAX as u128) - 1), u64::MAX - 1);
}

#[test]
fn vector_length_and_difference() {
    assert_eq!(Vec2::new(3, -4).length_squared(), 25);
    assert_eq!(Vec2::new(3, -4).length(), 5);
    assert_eq!(Vec2::new(40 * U, 60 * U).length(), 72_111_025);
    assert_eq!(Vec2::new(i64::MIN, i64::MIN).length_squared(), 1u128 << 127);
    assert_eq!(Vec2::new(5, 7).minus(Vec2::new(8, -2)), Vec2::new(-3, 9));
    assert_eq!(
        Vec2::new(i64::MAX, i64::MIN).minus(Vec2::new(-1, 1)),
        Vec2::new(i64::MAX, i64::MIN)
    );
}

#[test]
fn arithmetic_helpers() {
    assert_eq!(saturate_i128(i64::MAX as i128 + 1), i64::MAX);
    assert_eq!(saturate_i128(i64::MIN as i128 - 1), i64::MIN);
    assert_eq!(saturate_i128(-17), -17);
    assert_eq!(div_toward_zero_i128(-7, 2), -3);
    assert_eq!(div_toward_zero_i128(7, 2), 3);
    assert_eq!(div_toward_zero_i128(-6, 2), -3);
    assert_eq!(magnitude_i64(i64::MIN), 1u64 << 63);
    assert_eq!(magnitude_i64(-3), 3);
    assert_eq!(magnitude_i64(3), 3);
}

#[test]
fn world_sizes() {
    let world = WorldSize::from_window(720 * U as u64, 760 * U as u64);
    assert_eq!(world, WorldSize::new(360_000_000, 380_000_000));
    assert_eq!(world.scale(), 740_270_220);
    assert_eq!(world.player_size(), Extent::new(11_104_053, 11_104_053));
    assert_eq!(world.food_size(), Extent::new(9_253_377, 9_253_377));
    assert_eq!(world.wall_thickness(), 9_253_377);
    let odd = WorldSize::from_window(7, 9);
    assert_eq!(odd, WorldSize::new(3, 4));
    let huge = WorldSize::from_window(u64::MAX, 2 * (u32::MAX as u64) + 1);
    assert_eq!(huge, WorldSize::new(u32::MAX, u32::MAX));
    assert_eq!(huge.scale(), 2 * (u32::MAX as u64));
}
