//! The simulation context and its frame.
//!
//! A frame of play runs its phases in a fixed order: the player moves, the
//! camera rises, collisions are detected and their events dispatched, a wall
//! pair is spawned when one is due, what the camera left behind is removed
//! and food is refilled, and last the gesture is read. The camera rises
//! before anything is placed relative to it.

use vstd::prelude::*;
use crate::arena::{
    cleared, count_kind, culled, despawned, lemma_spawn_counts, lookup, spawned, Arena, Entity,
    Kind, Slot,
};
use crate::camera::{cull_out_of_view, scroll_camera, scrolled, view_bottom};
use crate::chance::{draw, Draws, FoodDraw};
use crate::collision::{collision_events, detect_collisions, Event};
use crate::geometry::Vec2;
use crate::gesture::{gesture_after, launched, released_drag, DragGesture, PointerSample};
use crate::kinematics::{awarded, bounded, displaced, fell_behind, with_friction, Player};
use crate::laws::{lemma_food_never_runs_out, lemma_score_never_drops};
use crate::level::{
    food_at, height_above_view, is_spawn_due, lay_out_walls, make_food, spawn_due, spawn_height,
    wall_layout,
};
use crate::mode::{Mode, ModeStack, Signal};
use crate::world::WorldSize;

verus! {

/// Everything the simulation holds between frames.
pub struct Simulation {
    /// The size of the play-field.
    pub world: WorldSize,
    /// The game mode.
    pub mode: ModeStack,
    /// The player, when there is one.
    pub player: Option<Player>,
    /// The height of the camera.
    pub camera_y: i64,
    /// The state of the drag gesture.
    pub gesture: DragGesture,
    /// When the last wall pair was spawned, in microseconds since the start.
    pub last_spawn_us: u64,
    /// Food, walls and gates.
    pub arena: Arena,
    /// The events of the current frame that have not been consumed yet.
    pub events: Vec<Event>,
}

/// The simulation as a mathematical value.
pub struct SimModel {
    pub world: WorldSize,
    pub mode: ModeStack,
    pub player: Option<Player>,
    pub camera_y: i64,
    pub gesture: DragGesture,
    pub last_spawn_us: u64,
    pub slots: Seq<Slot>,
    pub events: Seq<Event>,
}

/// What the outside world supplies for one frame.
#[derive(Clone, Copy, Debug)]
pub struct FrameInput {
    /// The time since the previous frame, in microseconds.
    pub dt_us: u32,
    /// The time since the start, in microseconds.
    pub now_us: u64,
    /// The factor by which speed decays over this frame, in millionths.
    pub decay_ppm: u32,
    /// The pointer.
    pub pointer: PointerSample,
    /// The pause key was pressed.
    pub pause_requested: bool,
    /// The window lost the input focus.
    pub focus_lost: bool,
    /// A resume was asked for.
    pub resume_requested: bool,
    /// A respawn was asked for.
    pub respawn_requested: bool,
    /// The new size of the field, when the window was resized.
    pub resize: Option<WorldSize>,
}

/// What a frame reports to the outside world.
#[derive(Clone, Copy, Debug, PartialEq, Eq, Structural)]
pub struct FrameOutput {
    /// The score went up in this frame.
    pub score_increased: bool,
    /// The player died in this frame.
    pub player_died: bool,
}

impl View for Simulation {
    type V = SimModel;

    open spec fn view(&self) -> SimModel {
        SimModel {
            world: self.world,
            mode: self.mode,
            player: self.player,
            camera_y: self.camera_y,
            gesture: self.gesture,
            last_spawn_us: self.last_spawn_us,
            slots: self.arena@,
            events: self.events@,
        }
    }
}

/// The score: the player's, or zero without a player.
pub open spec fn score_of(s: SimModel) -> u32 {
    match s.player {
        Some(p) => p.score,
        None => 0,
    }
}

/// The number of live food items.
pub open spec fn food_count(s: SimModel) -> nat {
    count_kind(s.slots, Kind::Food)
}

/// The field after a resize notification, if there was one.
pub open spec fn resized(s: SimModel, resize: Option<WorldSize>) -> SimModel {
    match resize {
        Some(world) => SimModel { world, ..s },
        None => s,
    }
}

/// The player after it has moved for a frame: integrated, then slowed by
/// friction, before the bounds are enforced.
pub open spec fn moved_player(p: Player, dt_us: u32, decay_ppm: u32) -> Player {
    Player {
        pos: displaced(p.pos, p.velocity, dt_us),
        velocity: with_friction(p.velocity, decay_ppm),
        ..p
    }
}

/// The kinematics phase: the player moves, is slowed and is held to the
/// bounds; a player that fell behind the camera raises a loss. Without a
/// player nothing happens.
pub open spec fn moved(s: SimModel, dt_us: u32, decay_ppm: u32) -> SimModel {
    match s.player {
        Some(p) => {
            let q = moved_player(p, dt_us, decay_ppm);
            SimModel {
                player: Some(bounded(q, s.camera_y, s.world)),
                events: if fell_behind(q, s.camera_y, s.world) {
                    s.events.push(Event::PlayerLost)
                } else {
                    s.events
                },
                ..s
            }
        },
        None => s,
    }
}

/// The camera phase: the camera rises.
pub open spec fn camera_scrolled(s: SimModel, dt_us: u32) -> SimModel {
    SimModel { camera_y: scrolled(s.camera_y, dt_us, score_of(s), s.world), ..s }
}

/// The detection phase: the events of the player's collisions join the
/// queue. Without a player there is nothing to detect.
pub open spec fn detected(s: SimModel) -> SimModel {
    match s.player {
        Some(p) => SimModel { events: s.events + collision_events(s.slots, p), ..s },
        None => s,
    }
}

/// The player, if any, with one more point.
pub open spec fn awarded_opt(player: Option<Player>) -> Option<Player> {
    match player {
        Some(p) => Some(awarded(p)),
        None => None,
    }
}

/// The food item that a draw places, relative to the camera.
pub open spec fn drawn_food(s: SimModel, food: FoodDraw) -> Entity {
    food_at(s.world, Vec2 { x: food.x, y: spawn_height(s.camera_y, s.world, food.offset) })
}

/// The simulation after one event is consumed.
///
/// An eaten food item is removed, scores a point and is replaced by two new
/// ones above the view. A passed gate is removed and scores a point. An
/// event that names no live entity of its kind does nothing. A loss moves
/// the mode to `Dead`; a second loss in the same frame finds the mode
/// already there and changes nothing.
pub open spec fn handled(s: SimModel, event: Event, draws: Draws) -> SimModel {
    match event {
        Event::FoodEaten(id) => if lookup(s.slots, id) matches Some(e) && e.kind == Kind::Food {
            SimModel {
                slots: spawned(
                    spawned(despawned(s.slots, id), drawn_food(s, draws.first_food)),
                    drawn_food(s, draws.second_food),
                ),
                player: awarded_opt(s.player),
                ..s
            }
        } else {
            s
        },
        Event::GatePassed(id) => if lookup(s.slots, id) matches Some(e) && e.kind == Kind::Gate {
            SimModel { slots: despawned(s.slots, id), player: awarded_opt(s.player), ..s }
        } else {
            s
        },
        Event::PlayerLost => SimModel { mode: s.mode.after(Signal::PlayerLost), ..s },
    }
}

/// The simulation after the events from index `from` on are consumed in
/// order, and the queue is emptied.
pub open spec fn dispatched_from(s: SimModel, from: int, draws: Draws) -> SimModel
    decreases s.events.len() - from,
{
    if from < 0 || from >= s.events.len() {
        SimModel { events: Seq::empty(), ..s }
    } else {
        dispatched_from(handled(s, s.events[from], draws), from + 1, draws)
    }
}

/// The dispatch phase: every queued event is consumed, first in, first out.
pub open spec fn dispatched(s: SimModel, draws: Draws) -> SimModel {
    dispatched_from(s, 0, draws)
}

/// The generator phase: when a wall pair is due, the left wall, the right
/// wall and their gate are spawned above the view, and the timer restarts.
pub open spec fn walls_spawned(s: SimModel, now_us: u64, draws: Draws) -> SimModel {
    if spawn_due(now_us, s.last_spawn_us, score_of(s)) {
        let layout = wall_layout(
            s.world,
            draws.gap_middle_ppm,
            spawn_height(s.camera_y, s.world, draws.wall_offset),
        );
        SimModel {
            last_spawn_us: now_us,
            slots: spawned(spawned(spawned(s.slots, layout.left), layout.right), layout.gate),
            ..s
        }
    } else {
        s
    }
}

/// The lifecycle phase: what lies below the view is removed.
pub open spec fn out_of_view_culled(s: SimModel) -> SimModel {
    SimModel { slots: culled(s.slots, view_bottom(s.camera_y, s.world)), ..s }
}

/// The refill: when no food is left, one item appears above the view.
pub open spec fn refilled(s: SimModel, draws: Draws) -> SimModel {
    if food_count(s) == 0 {
        SimModel { slots: spawned(s.slots, drawn_food(s, draws.refill_food)), ..s }
    } else {
        s
    }
}

/// The gesture phase: the gesture takes the pointer sample, anchored at the
/// player, and a completed drag launches the player. Without a player
/// nothing happens.
pub open spec fn gestured(s: SimModel, sample: PointerSample) -> SimModel {
    match s.player {
        Some(p) => SimModel {
            gesture: gesture_after(s.gesture, sample, p.pos),
            player: match released_drag(s.gesture, sample) {
                Some(drag) => Some(Player { velocity: launched(p.velocity, drag), ..p }),
                None => Some(p),
            },
            ..s
        },
        None => s,
    }
}

/// A pause request, from the key or from the loss of focus.
pub open spec fn pause_checked(s: SimModel, input: FrameInput) -> SimModel {
    if input.pause_requested || input.focus_lost {
        SimModel { mode: s.mode.after(Signal::PauseRequested), ..s }
    } else {
        s
    }
}

/// One frame of play: the phases, in order.
pub open spec fn played(s: SimModel, input: FrameInput, draws: Draws) -> SimModel {
    pause_checked(
        gestured(
            refilled(
                out_of_view_culled(
                    walls_spawned(
                        dispatched(
                            detected(
                                camera_scrolled(
                                    moved(s, input.dt_us, input.decay_ppm),
                                    input.dt_us,
                                ),
                            ),
                            draws,
                        ),
                        input.now_us,
                        draws,
                    ),
                ),
                draws,
            ),
            input.pointer,
        ),
        input,
    )
}

/// The food item that a new run starts with: a quarter of the field's width
/// to the right of the axis and a quarter of its height above it.
pub open spec fn starting_food(world: WorldSize) -> Entity {
    food_at(world, Vec2 { x: (world.half_width / 2) as i64, y: (world.half_height / 2) as i64 })
}

/// The state at the start of a run on a field: play, a player at rest at the
/// origin with no points, the camera at zero, no drag, the spawn timer
/// started at `now_us`, and one food item.
pub open spec fn fresh(world: WorldSize, now_us: u64, slots: Seq<Slot>) -> SimModel {
    SimModel {
        world,
        mode: ModeStack::new_spec(),
        player: Some(
            Player {
                pos: Vec2 { x: 0, y: 0 },
                size: world.player_extent(),
                velocity: Vec2 { x: 0, y: 0 },
                score: 0,
            },
        ),
        camera_y: 0,
        gesture: DragGesture { dragging: false, start: Vec2 { x: 0, y: 0 }, line: None },
        last_spawn_us: now_us,
        slots: spawned(cleared(slots), starting_food(world)),
        events: Seq::empty(),
    }
}

/// The respawn: a new run on the same field, in the same arena.
pub open spec fn respawned(s: SimModel, now_us: u64) -> SimModel {
    fresh(s.world, now_us, s.slots)
}

/// One frame. A resize takes effect in every mode. Then: in play, the
/// phases run; under a pause, only a resume request is heard; in death, only
/// a respawn request.
pub open spec fn frame_model(s: SimModel, input: FrameInput, draws: Draws) -> SimModel {
    let r = resized(s, input.resize);
    match r.mode.top() {
        Mode::Playing => played(r, input, draws),
        Mode::Paused => if input.resume_requested {
            SimModel { mode: r.mode.after(Signal::ResumeRequested), ..r }
        } else {
            r
        },
        Mode::Dead => if input.respawn_requested {
            respawned(r, input.now_us)
        } else {
            r
        },
    }
}

impl Simulation {
    /// Starts a run on a field, at time `now_us`.
    pub fn new(world: WorldSize, now_us: u64) -> (sim: Simulation)
        ensures
            sim@ == fresh(world, now_us, Seq::empty()),
            sim@.mode.top() == Mode::Playing,
            score_of(sim@) == 0,
            food_count(sim@) == 1,
    {
        let mut arena = Arena::new();
        let food = make_food(
            &world,
            Vec2 { x: (world.half_width / 2) as i64, y: (world.half_height / 2) as i64 },
        );
        proof {
            assert(cleared(Seq::<Slot>::empty()) =~= Seq::<Slot>::empty());
            lemma_spawn_counts(Seq::<Slot>::empty(), food, Kind::Food);
        }
        arena.spawn(food);
        Simulation {
            world,
            mode: ModeStack::new(),
            player: Some(Player::new(world.player_size())),
            camera_y: 0,
            gesture: DragGesture::idle(),
            last_spawn_us: now_us,
            arena,
            events: Vec::new(),
        }
    }

    /// The score: the player's, or zero without a player.
    pub fn score(&self) -> (score: u32)
        ensures
            score == score_of(self@),
    {
        match self.player {
            Some(p) => p.score,
            None => 0,
        }
    }

    /// Takes a resize notification.
    pub fn handle_resize(&mut self, resize: Option<WorldSize>)
        ensures
            final(self)@ == resized(old(self)@, resize),
    {
        match resize {
            Some(world) => {
                self.world = world;
            },
            None => {},
        }
    }

    /// Runs the kinematics phase.
    pub fn move_player(&mut self, dt_us: u32, decay_ppm: u32)
        ensures
            final(self)@ == moved(old(self)@, dt_us, decay_ppm),
    {
        match self.player {
            Some(p) => {
                let mut q = p;
                q.integrate(dt_us);
                q.apply_friction(decay_ppm);
                let lost = q.enforce_bounds(self.camera_y, &self.world);
                self.player = Some(q);
                if lost {
                    self.events.push(Event::PlayerLost);
                }
            },
            None => {},
        }
    }

    /// Runs the camera phase.
    pub fn scroll(&mut self, dt_us: u32)
        ensures
            final(self)@ == camera_scrolled(old(self)@, dt_us),
            final(self).camera_y >= old(self).camera_y,
    {
        let score = self.score();
        self.camera_y = scroll_camera(self.camera_y, dt_us, score, &self.world);
    }

    /// Runs the detection phase.
    pub fn detect(&mut self)
        ensures
            final(self)@ == detected(old(self)@),
    {
        match self.player {
            Some(p) => {
                detect_collisions(&self.arena, &p, &mut self.events);
            },
            None => {},
        }
    }

    /// Makes the food item that a draw places.
    pub fn place_food(&self, food: FoodDraw) -> (entity: Entity)
        ensures
            entity == drawn_food(self@, food),
    {
        let y = height_above_view(self.camera_y, &self.world, food.offset);
        make_food(&self.world, Vec2 { x: food.x, y })
    }

    /// Gives the player, if any, one more point.
    fn award(&mut self)
        ensures
            final(self)@ == (SimModel { player: awarded_opt(old(self)@.player), ..old(self)@ }),
    {
        match self.player {
            Some(p) => {
                let mut q = p;
                q.award();
                self.player = Some(q);
            },
            None => {},
        }
    }

    /// Consumes one event.
    pub fn handle(&mut self, event: Event, draws: &Draws)
        ensures
            final(self)@ == handled(old(self)@, event, *draws),
    {
        match event {
            Event::FoodEaten(id) => {
                match self.arena.get(id) {
                    Some(entity) => {
                        if entity.kind == Kind::Food {
                            let first = self.place_food(draws.first_food);
                            let second = self.place_food(draws.second_food);
                            self.arena.despawn(id);
                            self.arena.spawn(first);
                            self.arena.spawn(second);
                            self.award();
                        }
                    },
                    None => {},
                }
            },
            Event::GatePassed(id) => {
                match self.arena.get(id) {
                    Some(entity) => {
                        if entity.kind == Kind::Gate {
                            self.arena.despawn(id);
                            self.award();
                        }
                    },
                    None => {},
                }
            },
            Event::PlayerLost => {
                self.mode.apply(Signal::PlayerLost);
            },
        }
    }

    /// Runs the dispatch phase: consumes the queued events in order and
    /// empties the queue.
    pub fn dispatch(&mut self, draws: &Draws)
        ensures
            final(self)@ == dispatched(old(self)@, *draws),
            final(self)@.events.len() == 0,
    {
        let n: usize = self.events.len();
        let mut i: usize = 0;
        while i < n
            invariant
                n == self.events@.len(),
                i <= n,
                dispatched_from(self@, i as int, *draws) == dispatched(old(self)@, *draws),
            decreases n - i,
        {
            let event = self.events[i];
            self.handle(event, draws);
            i = i + 1;
        }
        self.events.clear();
        proof {
            assert(self@.events =~= Seq::<Event>::empty());
        }
    }

    /// Runs the generator phase.
    pub fn spawn_walls(&mut self, now_us: u64, draws: &Draws)
        ensures
            final(self)@ == walls_spawned(old(self)@, now_us, *draws),
    {
        if is_spawn_due(now_us, self.last_spawn_us, self.score()) {
            let y = height_above_view(self.camera_y, &self.world, draws.wall_offset);
            let layout = lay_out_walls(&self.world, draws.gap_middle_ppm, y);
            self.last_spawn_us = now_us;
            self.arena.spawn(layout.left);
            self.arena.spawn(layout.right);
            self.arena.spawn(layout.gate);
        }
    }

    /// Runs the lifecycle phase.
    pub fn cull(&mut self)
        ensures
            final(self)@ == out_of_view_culled(old(self)@),
    {
        cull_out_of_view(&mut self.arena, self.camera_y, &self.world);
    }

    /// Refills the food when none is left.
    pub fn refill(&mut self, draws: &Draws)
        ensures
            final(self)@ == refilled(old(self)@, *draws),
            food_count(final(self)@) >= 1,
    {
        if self.arena.count(Kind::Food) == 0 {
            let food = self.place_food(draws.refill_food);
            proof {
                lemma_spawn_counts(self.arena@, food, Kind::Food);
            }
            self.arena.spawn(food);
        }
    }

    /// Runs the gesture phase.
    pub fn read_gesture(&mut self, sample: PointerSample)
        ensures
            final(self)@ == gestured(old(self)@, sample),
    {
        match self.player {
            Some(p) => {
                let mut q = p;
                match self.gesture.advance(sample, p.pos) {
                    Some(drag) => {
                        q.launch(drag);
                    },
                    None => {},
                }
                self.player = Some(q);
            },
            None => {},
        }
    }

    /// Hears a pause request.
    pub fn check_pause(&mut self, input: &FrameInput)
        ensures
            final(self)@ == pause_checked(old(self)@, *input),
    {
        if input.pause_requested || input.focus_lost {
            self.mode.apply(Signal::PauseRequested);
        }
    }

    /// Runs one frame of play.
    pub fn play(&mut self, input: &FrameInput, draws: &Draws)
        ensures
            final(self)@ == played(old(self)@, *input, *draws),
    {
        self.move_player(input.dt_us, input.decay_ppm);
        self.scroll(input.dt_us);
        self.detect();
        self.dispatch(draws);
        self.spawn_walls(input.now_us, draws);
        self.cull();
        self.refill(draws);
        self.read_gesture(input.pointer);
        self.check_pause(input);
    }

    /// Starts a new run on the same field.
    pub fn respawn(&mut self, now_us: u64)
        ensures
            final(self)@ == respawned(old(self)@, now_us),
    {
        self.arena.clear();
        let food = make_food(
            &self.world,
            Vec2 { x: (self.world.half_width / 2) as i64, y: (self.world.half_height / 2) as i64 },
        );
        self.arena.spawn(food);
        self.mode = ModeStack::new();
        self.player = Some(Player::new(self.world.player_size()));
        self.camera_y = 0;
        self.gesture = DragGesture::idle();
        self.last_spawn_us = now_us;
        self.events.clear();
        proof {
            assert(self@.events =~= Seq::<Event>::empty());
        }
    }

    /// Runs one frame with the random numbers given.
    pub fn step(&mut self, input: &FrameInput, draws: &Draws) -> (out: FrameOutput)
        ensures
            final(self)@ == frame_model(old(self)@, *input, *draws),
            out.score_increased == (score_of(final(self)@) > score_of(old(self)@)),
            out.player_died == (old(self)@.mode.top() == Mode::Playing && final(self)@.mode.top()
                == Mode::Dead),
            old(self)@.mode.top() == Mode::Playing ==> food_count(final(self)@) >= 1,
            old(self)@.mode.top() == Mode::Dead && input.respawn_requested ==> score_of(
                final(self)@,
            ) == 0,
            !(old(self)@.mode.top() == Mode::Dead && input.respawn_requested) ==> score_of(
                final(self)@,
            ) >= score_of(old(self)@),
    {
        proof {
            if self@.mode.top() == Mode::Playing {
                lemma_food_never_runs_out(self@, *input, *draws);
            }
            lemma_score_never_drops(self@, *input, *draws);
        }
        let score_before = self.score();
        self.handle_resize(input.resize);
        let mode_before = self.mode.current();
        match mode_before {
            Mode::Playing => {
                self.play(input, draws);
            },
            Mode::Paused => {
                if input.resume_requested {
                    self.mode.apply(Signal::ResumeRequested);
                }
            },
            Mode::Dead => {
                if input.respawn_requested {
                    self.respawn(input.now_us);
                }
            },
        }
        FrameOutput {
            score_increased: self.score() > score_before,
            player_died: mode_before == Mode::Playing && self.mode.current() == Mode::Dead,
        }
    }

    /// Runs one frame, drawing the random numbers it may need. Whatever is
    /// drawn lies within its limits for the field as it is after a resize,
    /// and the frame is the one that `step` runs with those numbers.
    pub fn frame(&mut self, input: &FrameInput) -> (out: FrameOutput)
        ensures
            exists|draws: Draws|
                draws.within_limits(resized(old(self)@, input.resize).world) && final(self)@
                    == #[trigger] frame_model(old(self)@, *input, draws),
            out.score_increased == (score_of(final(self)@) > score_of(old(self)@)),
            out.player_died == (old(self)@.mode.top() == Mode::Playing && final(self)@.mode.top()
                == Mode::Dead),
            old(self)@.mode.top() == Mode::Playing ==> food_count(final(self)@) >= 1,
            old(self)@.mode.top() == Mode::Dead && input.respawn_requested ==> score_of(
                final(self)@,
            ) == 0,
            !(old(self)@.mode.top() == Mode::Dead && input.respawn_requested) ==> score_of(
                final(self)@,
            ) >= score_of(old(self)@),
    {
        let world = match input.resize {
            Some(world) => world,
            None => self.world,
        };
        let draws = draw(&world);
        self.step(input, &draws)
    }
}

} // verus!
