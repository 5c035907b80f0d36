use endless_game::arena::{Entity, Kind};
use endless_game::chance::{Draws, FoodDraw};
use endless_game::collision::Event;
use endless_game::geometry::{Extent, Vec2};
use endless_game::gesture::PointerSample;
use endless_game::kinematics::Player;
use endless_game::level::spawn_interval_us;
use endless_game::mode::Mode;
use endless_game::sim::{FrameInput, Simulation};
use endless_game::world::WorldSize;

const U: i64 = 1_000_000;

fn field() -> WorldSize {
    WorldSize::new(360_000_000, 380_000_000)
}

fn still_frame(now_us: u64) -> FrameInput {
    FrameInput {
        dt_us: 0,
        now_us,
        decay_ppm: 1_000_000,
        pointer: PointerSample { position: None, pressed: false },
        pause_requested: false,
        focus_lost: false,
        resume_requested: false,
        respawn_requested: false,
        resize: None,
    }
}

fn fixed_draws() -> Draws {
    Draws {
        gap_middle_ppm: 0,
        wall_offset: 5 * U,
        first_food: FoodDraw { x: -100 * U, offset: 3 * U },
        second_food: FoodDraw { x: 120 * U, offset: 7 * U },
        refill_food: FoodDraw { x: 10 * U, offset: 9 * U },
    }
}

fn box_at(kind: Kind, x: i64, y: i64, half: u32) -> Entity {
    Entity { kind, pos: Vec2::new(x, y), size: Extent::new(half, half) }
}

fn count_food_above(sim: &Simulation, height: i64) -> usize {
    sim.arena
        .entities()
        .iter()
        .filter(|(_, e)| e.kind == Kind::Food && e.pos.y >= height)
        .count()
}

#[test]
fn wall_on_the_player_loses_the_run() {
    let mut sim = Simulation::new(field(), 0);
    sim.arena.clear();
    sim.player = Some(Player {
        pos: Vec2::new(0, 0),
        size: Extent::new(20_000_000, 20_000_000),
        velocity: Vec2::zero(),
        score: 0,
    });
    sim.arena.spawn(box_at(Kind::Wall, 0, 0, 20_000_000));

    sim.detect();
    assert_eq!(sim.events, vec![Event::PlayerLost]);
    sim.events.clear();

    assert_eq!(sim.mode.current(), Mode::Playing);
    let out = sim.step(&still_frame(0), &fixed_draws());
    assert!(out.player_died);
    assert!(!out.score_increased);
    assert_eq!(sim.mode.current(), Mode::Dead);
    assert!(sim.events.is_empty());

    let out = sim.step(&still_frame(1), &fixed_draws());
    assert!(!out.player_died);
    assert_eq!(sim.mode.current(), Mode::Dead);
}

#[test]
fn eaten_food_scores_and_is_replaced_by_two() {
    let mut sim = Simulation::new(field(), 0);
    sim.arena.clear();
    sim.camera_y = 50 * U;
    sim.player = Some(Player {
        pos: Vec2::new(0, 40 * U),
        size: Extent::new(11_000_000, 11_000_000),
        velocity: Vec2::zero(),
        score: 7,
    });
    let food = sim.arena.spawn(box_at(Kind::Food, 5 * U, 45 * U, 9_000_000));

    sim.detect();
    assert_eq!(sim.events, vec![Event::FoodEaten(food)]);
    sim.dispatch(&fixed_draws());

    assert!(sim.events.is_empty());
    assert_eq!(sim.arena.get(food), None);
    assert_eq!(sim.score(), 8);
    assert_eq!(sim.arena.count(Kind::Food), 2);
    let top = 50 * U + 380 * U;
    assert_eq!(count_food_above(&sim, top), 2);
    let listed: Vec<Entity> = sim.arena.entities().iter().map(|(_, e)| *e).collect();
    let size = field().food_size();
    assert_eq!(
        listed,
        vec![
            Entity { kind: Kind::Food, pos: Vec2::new(-100 * U, top + 3 * U), size },
            Entity { kind: Kind::Food, pos: Vec2::new(120 * U, top + 7 * U), size },
        ]
    );
    assert_eq!(sim.mode.current(), Mode::Playing);
}

#[test]
fn spawn_interval_at_score_five() {
    assert_eq!(spawn_interval_us(5), 1_500_000);
}

#[test]
fn released_drag_launches_against_the_drag() {
    let mut sim = Simulation::new(field(), 0);
    let before = sim.player.unwrap().velocity;
    sim.read_gesture(PointerSample { position: Some(Vec2::new(100 * U, 100 * U)), pressed: true });
    assert!(sim.gesture.dragging);
    assert_eq!(sim.gesture.start, Vec2::new(100 * U, 100 * U));
    assert_eq!(sim.player.unwrap().velocity, before);
    sim.read_gesture(PointerSample { position: Some(Vec2::new(140 * U, 160 * U)), pressed: false });
    assert!(!sim.gesture.dragging);
    assert_eq!(sim.gesture.line, None);
    let after = sim.player.unwrap().velocity;
    assert_eq!(after.x - before.x, -40 * U * 8);
    assert_eq!(after.y - before.y, -60 * U * 8);
}

#[test]
fn pause_is_pushed_on_play_and_popped_back() {
    let mut sim = Simulation::new(field(), 0);
    sim.player = Some(Player {
        pos: Vec2::new(3 * U, 4 * U),
        size: Extent::new(11_000_000, 11_000_000),
        velocity: Vec2::new(5 * U, -2 * U),
        score: 3,
    });
    sim.arena.spawn(box_at(Kind::Wall, 200 * U, 300 * U, 5_000_000));
    assert_eq!(sim.mode.current(), Mode::Playing);

    let mut pause = still_frame(10);
    pause.pause_requested = true;
    sim.step(&pause, &fixed_draws());
    assert_eq!(sim.mode.current(), Mode::Paused);
    assert_eq!(sim.mode.base, endless_game::mode::BaseMode::Playing);

    let player = sim.player;
    let entities = sim.arena.entities();
    let camera = sim.camera_y;

    let mut idle = still_frame(2_000_000);
    idle.dt_us = 500_000;
    idle.decay_ppm = 10;
    sim.step(&idle, &fixed_draws());
    assert_eq!(sim.mode.current(), Mode::Paused);
    assert_eq!(sim.player, player);

    let mut resume = still_frame(9_000_000);
    resume.dt_us = 500_000;
    resume.resume_requested = true;
    sim.step(&resume, &fixed_draws());
    assert_eq!(sim.mode.current(), Mode::Playing);
    assert_eq!(sim.player, player);
    assert_eq!(sim.score(), 3);
    assert_eq!(sim.arena.entities(), entities);
    assert_eq!(sim.camera_y, camera);
}

#[test]
fn losing_focus_pauses_play() {
    let mut sim = Simulation::new(field(), 0);
    let mut input = still_frame(0);
    input.focus_lost = true;
    sim.step(&input, &fixed_draws());
    assert_eq!(sim.mode.current(), Mode::Paused);
}

#[test]
fn respawn_starts_a_new_run() {
    let mut sim = Simulation::new(field(), 0);
    sim.player = Some(Player {
        pos: Vec2::new(0, -500 * U),
        size: Extent::new(11_000_000, 11_000_000),
        velocity: Vec2::new(U, U),
        score: 12,
    });
    sim.arena.spawn(box_at(Kind::Wall, 200 * U, 300 * U, 5_000_000));
    sim.arena.spawn(box_at(Kind::Gate, 0, 300 * U, 5_000_000));
    sim.camera_y = 77 * U;
    let out = sim.step(&still_frame(5), &fixed_draws());
    assert!(out.player_died);
    assert_eq!(sim.mode.current(), Mode::Dead);
    assert_eq!(sim.score(), 12);

    let mut pause = still_frame(6);
    pause.pause_requested = true;
    pause.resume_requested = true;
    sim.step(&pause, &fixed_draws());
    assert_eq!(sim.mode.current(), Mode::Dead);
    assert_eq!(sim.score(), 12);

    let mut again = still_frame(4_000_000);
    again.respawn_requested = true;
    let out = sim.step(&again, &fixed_draws());
    assert!(!out.score_increased);
    assert!(!out.player_died);
    assert_eq!(sim.mode.current(), Mode::Playing);
    assert_eq!(sim.score(), 0);
    assert_eq!(sim.camera_y, 0);
    assert_eq!(sim.last_spawn_us, 4_000_000);
    let player = sim.player.unwrap();
    assert_eq!(player.pos, Vec2::new(0, 0));
    assert_eq!(player.velocity, Vec2::new(0, 0));
    assert_eq!(player.size, field().player_size());
    assert_eq!(sim.arena.count(Kind::Wall), 0);
    assert_eq!(sim.arena.count(Kind::Gate), 0);
    assert_eq!(sim.arena.count(Kind::Food), 1);
    let listed: Vec<Entity> = sim.arena.entities().iter().map(|(_, e)| *e).collect();
    assert_eq!(
        listed,
        vec![Entity {
            kind: Kind::Food,
            pos: Vec2::new(180 * U, 190 * U),
            size: field().food_size(),
        }]
    );
}

#[test]
fn a_new_simulation_is_ready_to_play() {
    let sim = Simulation::new(field(), 123);
    assert_eq!(sim.mode.current(), Mode::Playing);
    assert_eq!(sim.score(), 0);
    assert_eq!(sim.camera_y, 0);
    assert_eq!(sim.last_spawn_us, 123);
    assert!(!sim.gesture.dragging);
    assert!(sim.events.is_empty());
    assert_eq!(sim.arena.count(Kind::Food), 1);
    assert_eq!(sim.arena.slot_count(), 1);
    let player = sim.player.unwrap();
    assert_eq!(player.size, Extent::new(11_104_053, 11_104_053));
}

#[test]
fn passed_gate_scores_once() {
    let mut sim = Simulation::new(field(), 0);
    sim.arena.clear();
    let gate = sim.arena.spawn(box_at(Kind::Gate, 0, 0, 30_000_000));
    sim.detect();
    assert_eq!(sim.events, vec![Event::GatePassed(gate)]);
    sim.events.push(Event::GatePassed(gate));
    sim.dispatch(&fixed_draws());
    assert_eq!(sim.score(), 1);
    assert_eq!(sim.arena.get(gate), None);
    assert_eq!(sim.arena.count(Kind::Gate), 0);
    assert_eq!(sim.mode.current(), Mode::Playing);
}

#[test]
fn without_a_player_the_phases_do_nothing() {
    let mut sim = Simulation::new(field(), 0);
    sim.player = None;
    sim.arena.spawn(box_at(Kind::Wall, 0, 0, 30_000_000));
    let entities = sim.arena.entities();
    sim.move_player(1_000_000, 500_000);
    sim.detect();
    sim.read_gesture(PointerSample { position: Some(Vec2::new(U, U)), pressed: true });
    assert_eq!(sim.player, None);
    assert!(sim.events.is_empty());
    assert!(!sim.gesture.dragging);
    assert_eq!(sim.arena.entities(), entities);
    assert_eq!(sim.score(), 0);
}

#[test]
fn a_resize_takes_effect_in_every_mode() {
    let mut sim = Simulation::new(field(), 0);
    let mut input = still_frame(0);
    input.pause_requested = true;
    sim.step(&input, &fixed_draws());
    let mut resize = still_frame(1);
    resize.resize = Some(WorldSize::from_window(1_000 * U as u64, 600 * U as u64));
    sim.step(&resize, &fixed_draws());
    assert_eq!(sim.world, WorldSize::new(500_000_000, 300_000_000));
    assert_eq!(sim.mode.current(), Mode::Paused);
}
