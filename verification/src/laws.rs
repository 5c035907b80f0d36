//! What holds of every frame, and of every run of frames.

use vstd::prelude::*;
use crate::arena::{
    cleared, count_kind, despawned, expired, lemma_despawn, lemma_despawn_expires,
    lemma_expired_stays, lemma_spawn_counts, lookup, spawned, EntityId, Kind, Slot,
};
use crate::camera::lemma_rise_not_negative;
use crate::chance::Draws;
use crate::collision::{
    food_events, gate_events, hit_ids, lemma_hits_exact, slot_hit, wall_events, Event,
};
use crate::kinematics::{bounded, fell_behind, lemma_bounds_hold, Player};
use crate::level::{spawn_due, spawn_height, wall_layout};
use crate::mode::{Mode, Signal};
use crate::sim::{
    camera_scrolled, detected, dispatched, dispatched_from, drawn_food, food_count, frame_model,
    gestured, handled, moved, moved_player, out_of_view_culled, pause_checked, played, refilled,
    resized, respawned, score_of, starting_food, walls_spawned, FrameInput, SimModel,
};
use crate::world::lemma_diagonal_bound;

verus! {

/// One frame of a run: what the outside world supplied, and what was drawn.
pub struct FrameStep {
    pub input: FrameInput,
    pub draws: Draws,
}

/// The simulation after a run of frames.
pub open spec fn after_frames(s: SimModel, frames: Seq<FrameStep>) -> SimModel
    decreases frames.len(),
{
    if frames.len() == 0 {
        s
    } else {
        frame_model(after_frames(s, frames.drop_last()), frames.last().input, frames.last().draws)
    }
}

/// The frame at index `i` of a run starts a new run: it finds the mode at
/// `Dead` and carries a respawn request.
pub open spec fn respawns_at(s: SimModel, frames: Seq<FrameStep>, i: int) -> bool {
    after_frames(s, frames.take(i)).mode.top() == Mode::Dead && frames[i].input.respawn_requested
}

/// Consuming one event never lowers the score, and touches neither the field,
/// the camera, the gesture, the spawn timer nor the queue.
pub proof fn lemma_handled_keeps(s: SimModel, event: Event, draws: Draws)
    ensures
        score_of(handled(s, event, draws)) >= score_of(s),
        handled(s, event, draws).player is Some <==> s.player is Some,
        handled(s, event, draws).world == s.world,
        handled(s, event, draws).camera_y == s.camera_y,
        handled(s, event, draws).gesture == s.gesture,
        handled(s, event, draws).last_spawn_us == s.last_spawn_us,
        handled(s, event, draws).events == s.events,
        event != Event::PlayerLost ==> handled(s, event, draws).mode == s.mode,
        event == Event::PlayerLost ==> handled(s, event, draws).mode == s.mode.after(
            Signal::PlayerLost,
        ),
        s.mode.top() != Mode::Playing ==> handled(s, event, draws).mode == s.mode,
{
}

/// The food economy: eating a live food item removes it for good, leaves one
/// food item more than before, and scores one point; walls and gates are not
/// touched.
pub proof fn lemma_food_economy(s: SimModel, id: EntityId, draws: Draws)
    requires
        lookup(s.slots, id) matches Some(e) && e.kind == Kind::Food,
    ensures
        ({
            let t = handled(s, Event::FoodEaten(id), draws);
            &&& lookup(t.slots, id) is None
            &&& expired(t.slots, id)
            &&& food_count(t) == food_count(s) + 1
            &&& count_kind(t.slots, Kind::Wall) == count_kind(s.slots, Kind::Wall)
            &&& count_kind(t.slots, Kind::Gate) == count_kind(s.slots, Kind::Gate)
            &&& s.player is Some && score_of(s) < u32::MAX ==> score_of(t) == score_of(s) + 1
        }),
{
    let a = despawned(s.slots, id);
    let first = drawn_food(s, draws.first_food);
    let second = drawn_food(s, draws.second_food);
    let b = spawned(a, first);
    lemma_despawn(s.slots, id, id, Kind::Food);
    lemma_despawn(s.slots, id, id, Kind::Wall);
    lemma_despawn(s.slots, id, id, Kind::Gate);
    lemma_spawn_counts(a, first, Kind::Food);
    lemma_spawn_counts(a, first, Kind::Wall);
    lemma_spawn_counts(a, first, Kind::Gate);
    lemma_spawn_counts(b, second, Kind::Food);
    lemma_spawn_counts(b, second, Kind::Wall);
    lemma_spawn_counts(b, second, Kind::Gate);
    lemma_despawn_expires(s.slots, id);
    lemma_expired_stays(a, id, first, id, 0);
    lemma_expired_stays(b, id, second, id, 0);
}

/// Passing a live gate removes it for good and scores one point; food and
/// walls are not touched.
pub proof fn lemma_gate_economy(s: SimModel, id: EntityId, draws: Draws)
    requires
        lookup(s.slots, id) matches Some(e) && e.kind == Kind::Gate,
    ensures
        ({
            let t = handled(s, Event::GatePassed(id), draws);
            &&& lookup(t.slots, id) is None
            &&& expired(t.slots, id)
            &&& count_kind(t.slots, Kind::Gate) + 1 == count_kind(s.slots, Kind::Gate)
            &&& food_count(t) == food_count(s)
            &&& count_kind(t.slots, Kind::Wall) == count_kind(s.slots, Kind::Wall)
            &&& s.player is Some && score_of(s) < u32::MAX ==> score_of(t) == score_of(s) + 1
        }),
{
    lemma_despawn(s.slots, id, id, Kind::Food);
    lemma_despawn(s.slots, id, id, Kind::Wall);
    lemma_despawn(s.slots, id, id, Kind::Gate);
    lemma_despawn_expires(s.slots, id);
}

/// Dispatch never lowers the score, empties the queue, and touches neither
/// the field, the camera, the gesture nor the spawn timer.
pub proof fn lemma_dispatch_keeps(s: SimModel, from: int, draws: Draws)
    requires
        0 <= from,
    ensures
        score_of(dispatched_from(s, from, draws)) >= score_of(s),
        dispatched_from(s, from, draws).player is Some <==> s.player is Some,
        dispatched_from(s, from, draws).world == s.world,
        dispatched_from(s, from, draws).camera_y == s.camera_y,
        dispatched_from(s, from, draws).gesture == s.gesture,
        dispatched_from(s, from, draws).last_spawn_us == s.last_spawn_us,
        dispatched_from(s, from, draws).events.len() == 0,
    decreases s.events.len() - from,
{
    if from < s.events.len() {
        lemma_handled_keeps(s, s.events[from], draws);
        lemma_dispatch_keeps(handled(s, s.events[from], draws), from + 1, draws);
    }
}

/// A loss is final and counted once: in play, the mode after dispatch is
/// `Dead` when a loss is queued and unchanged when none is; out of play,
/// dispatch leaves the mode alone.
pub proof fn lemma_dispatch_mode(s: SimModel, from: int, draws: Draws)
    requires
        0 <= from,
    ensures
        s.mode.top() == Mode::Playing && (exists|i: int|
            from <= i < s.events.len() && s.events[i] == Event::PlayerLost) ==> dispatched_from(
            s,
            from,
            draws,
        ).mode == s.mode.after(Signal::PlayerLost),
        (forall|i: int| from <= i < s.events.len() ==> s.events[i] != Event::PlayerLost)
            ==> dispatched_from(s, from, draws).mode == s.mode,
        s.mode.top() != Mode::Playing ==> dispatched_from(s, from, draws).mode == s.mode,
    decreases s.events.len() - from,
{
    if from < s.events.len() {
        let t = handled(s, s.events[from], draws);
        lemma_handled_keeps(s, s.events[from], draws);
        lemma_dispatch_mode(t, from + 1, draws);
        if s.mode.top() == Mode::Playing && (exists|i: int|
            from <= i < s.events.len() && s.events[i] == Event::PlayerLost) {
            let i = choose|i: int| from <= i < s.events.len() && s.events[i] == Event::PlayerLost;
            if s.events[from] == Event::PlayerLost {
                assert(t.mode.top() == Mode::Dead);
            } else {
                assert(from + 1 <= i < t.events.len() && t.events[i] == Event::PlayerLost);
            }
        }
        if forall|i: int| from <= i < s.events.len() ==> s.events[i] != Event::PlayerLost {
            assert(s.events[from] != Event::PlayerLost);
            assert forall|i: int| from + 1 <= i < t.events.len() implies t.events[i]
                != Event::PlayerLost by {
                assert(s.events[i] != Event::PlayerLost);
            }
        }
    }
}

/// Food never runs out: every frame of play ends with at least one live
/// food item, whatever was there at its start.
pub proof fn lemma_food_never_runs_out(s: SimModel, input: FrameInput, draws: Draws)
    requires
        s.mode.top() == Mode::Playing,
    ensures
        food_count(frame_model(s, input, draws)) >= 1,
{
    let r = resized(s, input.resize);
    let a = out_of_view_culled(
        walls_spawned(
            dispatched(
                detected(camera_scrolled(moved(r, input.dt_us, input.decay_ppm), input.dt_us)),
                draws,
            ),
            input.now_us,
            draws,
        ),
    );
    lemma_spawn_counts(a.slots, drawn_food(a, draws.refill_food), Kind::Food);
    let b = refilled(a, draws);
    assert(food_count(b) >= 1);
    assert(pause_checked(gestured(b, input.pointer), input).slots == b.slots);
}

/// A frame of play never lowers the score and leaves no event in the queue.
pub proof fn lemma_play_keeps_score(s: SimModel, input: FrameInput, draws: Draws)
    ensures
        score_of(played(s, input, draws)) >= score_of(s),
        played(s, input, draws).events.len() == 0,
        played(s, input, draws).player is Some <==> s.player is Some,
        played(s, input, draws).world == s.world,
{
    let a = detected(camera_scrolled(moved(s, input.dt_us, input.decay_ppm), input.dt_us));
    assert(score_of(a) == score_of(s));
    lemma_dispatch_keeps(a, 0, draws);
    let b = dispatched(a, draws);
    let c = refilled(out_of_view_culled(walls_spawned(b, input.now_us, draws)), draws);
    assert(score_of(c) == score_of(b));
    assert(c.events == b.events);
}

/// The score over one frame: it is exactly zero after a frame that starts a
/// new run, and after every other frame it is at least what it was.
pub proof fn lemma_score_never_drops(s: SimModel, input: FrameInput, draws: Draws)
    ensures
        s.mode.top() == Mode::Dead && input.respawn_requested ==> score_of(
            frame_model(s, input, draws),
        ) == 0 && frame_model(s, input, draws).mode.top() == Mode::Playing,
        !(s.mode.top() == Mode::Dead && input.respawn_requested) ==> score_of(
            frame_model(s, input, draws),
        ) >= score_of(s),
        s.mode.top() != Mode::Playing ==> (score_of(frame_model(s, input, draws)) != score_of(s)
            ==> s.mode.top() == Mode::Dead && input.respawn_requested),
{
    lemma_play_keeps_score(resized(s, input.resize), input, draws);
}

/// The score over a run: as long as no frame starts a new run, the score at
/// the end is at least the score at the start.
pub proof fn lemma_score_monotone_over_run(s: SimModel, frames: Seq<FrameStep>)
    requires
        forall|i: int| 0 <= i < frames.len() ==> !respawns_at(s, frames, i),
    ensures
        score_of(after_frames(s, frames)) >= score_of(s),
    decreases frames.len(),
{
    if frames.len() > 0 {
        let front = frames.drop_last();
        assert forall|i: int| 0 <= i < front.len() implies !respawns_at(s, front, i) by {
            assert(front.take(i) =~= frames.take(i));
            assert(!respawns_at(s, frames, i));
        }
        lemma_score_monotone_over_run(s, front);
        let last = frames.len() - 1;
        assert(frames.take(last) =~= front);
        assert(!respawns_at(s, frames, last));
        lemma_score_never_drops(after_frames(s, front), frames.last().input, frames.last().draws);
    }
}

/// A pause suspends the scene: a frame under a pause changes neither the
/// player, nor any entity, nor the camera, the gesture, the spawn timer or
/// the queue. A resume request pops the pause; nothing else moves the mode.
pub proof fn lemma_pause_keeps_the_scene(s: SimModel, input: FrameInput, draws: Draws)
    requires
        s.mode.top() == Mode::Paused,
    ensures
        ({
            let t = frame_model(s, input, draws);
            &&& t.player == s.player
            &&& t.slots == s.slots
            &&& t.camera_y == s.camera_y
            &&& t.gesture == s.gesture
            &&& t.last_spawn_us == s.last_spawn_us
            &&& t.events == s.events
            &&& t.mode == if input.resume_requested {
                s.mode.after(Signal::ResumeRequested)
            } else {
                s.mode
            }
        }),
{
}

/// Death holds the scene still: a frame in death without a respawn request
/// changes nothing but the field on a resize, and the score stays on show.
pub proof fn lemma_death_keeps_the_scene(s: SimModel, input: FrameInput, draws: Draws)
    requires
        s.mode.top() == Mode::Dead,
        !input.respawn_requested,
    ensures
        frame_model(s, input, draws) == resized(s, input.resize),
        score_of(frame_model(s, input, draws)) == score_of(s),
{
}

/// A respawn starts over: play, no points, a player at rest at the origin,
/// the camera at zero, the timer restarted, and exactly one food item as
/// the only entity.
pub proof fn lemma_respawn_starts_over(s: SimModel, now_us: u64)
    ensures
        ({
            let t = respawned(s, now_us);
            &&& t.mode.top() == Mode::Playing
            &&& score_of(t) == 0
            &&& t.player is Some
            &&& t.camera_y == 0
            &&& t.last_spawn_us == now_us
            &&& !t.gesture.dragging
            &&& food_count(t) == 1
            &&& count_kind(t.slots, Kind::Wall) == 0
            &&& count_kind(t.slots, Kind::Gate) == 0
            &&& t.events.len() == 0
        }),
{
    let c = cleared(s.slots);
    lemma_cleared_is_empty(s.slots, Kind::Food);
    lemma_cleared_is_empty(s.slots, Kind::Wall);
    lemma_cleared_is_empty(s.slots, Kind::Gate);
    let food = starting_food(s.world);
    lemma_spawn_counts(c, food, Kind::Food);
    lemma_spawn_counts(c, food, Kind::Wall);
    lemma_spawn_counts(c, food, Kind::Gate);
}

/// After a clear no entity of any kind is left.
pub proof fn lemma_cleared_is_empty(slots: Seq<Slot>, kind: Kind)
    ensures
        count_kind(cleared(slots), kind) == 0,
    decreases slots.len(),
{
    let c = cleared(slots);
    if slots.len() > 0 {
        assert(c.drop_last() =~= cleared(slots.drop_last()));
        lemma_cleared_is_empty(slots.drop_last(), kind);
    }
}

/// A pause request heard in play ends the frame out of play: under the
/// pause, or in death when the player was lost in the same frame.
pub proof fn lemma_pause_request_is_heard(s: SimModel, input: FrameInput, draws: Draws)
    requires
        s.mode.top() == Mode::Playing,
        input.pause_requested || input.focus_lost,
    ensures
        frame_model(s, input, draws).mode.top() != Mode::Playing,
{
    let r = resized(s, input.resize);
    let a = detected(camera_scrolled(moved(r, input.dt_us, input.decay_ppm), input.dt_us));
    lemma_dispatch_mode(a, 0, draws);
    let b = dispatched(a, draws);
    if exists|i: int| 0 <= i < a.events.len() && a.events[i] == Event::PlayerLost {
    } else {
        assert(b.mode == a.mode);
    }
}

/// The simulation of a frame of play just before its events are consumed:
/// the player has moved, the camera has risen and the collisions have been
/// detected.
pub open spec fn before_dispatch(s: SimModel, input: FrameInput) -> SimModel {
    detected(
        camera_scrolled(
            moved(resized(s, input.resize), input.dt_us, input.decay_ppm),
            input.dt_us,
        ),
    )
}

/// A loss is queued in this frame.
pub open spec fn loss_raised(s: SimModel, input: FrameInput) -> bool {
    exists|i: int|
        0 <= i < before_dispatch(s, input).events.len() && before_dispatch(s, input).events[i]
            == Event::PlayerLost
}

/// A loss ends the run, and nothing else does: a frame of play in which a
/// loss is raised ends in death; one in which none is raised ends in play,
/// or under a pause when one was asked for.
pub proof fn lemma_loss_ends_the_run(s: SimModel, input: FrameInput, draws: Draws)
    requires
        s.mode.top() == Mode::Playing,
    ensures
        loss_raised(s, input) ==> frame_model(s, input, draws).mode.top() == Mode::Dead,
        !loss_raised(s, input) ==> frame_model(s, input, draws).mode == (if input.pause_requested
            || input.focus_lost {
            s.mode.after(Signal::PauseRequested)
        } else {
            s.mode
        }),
{
    let a = before_dispatch(s, input);
    lemma_dispatch_mode(a, 0, draws);
    let b = dispatched(a, draws);
    if loss_raised(s, input) {
        assert(b.mode.top() == Mode::Dead);
    } else {
        assert(b.mode == s.mode);
    }
}

/// What raises a loss: with an empty queue at its start, a frame of play
/// raises a loss exactly when there is a player that, after moving, has
/// fallen behind the camera or, once held to the bounds, overlaps a wall.
pub proof fn lemma_loss_is_a_wall_or_the_fall(s: SimModel, input: FrameInput)
    requires
        s.events.len() == 0,
        s.slots.len() <= usize::MAX,
    ensures
        loss_raised(s, input) <==> (s.player matches Some(p) && ({
            let world = resized(s, input.resize).world;
            let q = moved_player(p, input.dt_us, input.decay_ppm);
            fell_behind(q, s.camera_y, world) || exists|i: int|
                0 <= i < s.slots.len() && slot_hit(
                    #[trigger] s.slots[i],
                    bounded(q, s.camera_y, world),
                    Kind::Wall,
                )
        })),
{
    let r = resized(s, input.resize);
    let a = before_dispatch(s, input);
    match s.player {
        None => {
            assert(a.events.len() == 0);
        },
        Some(p) => {
            let q = moved_player(p, input.dt_us, input.decay_ppm);
            let b = bounded(q, s.camera_y, r.world);
            let m = moved(r, input.dt_us, input.decay_ppm);
            let fell = fell_behind(q, s.camera_y, r.world);
            let food = food_events(s.slots, b);
            let walls = wall_events(s.slots, b);
            let gates = gate_events(s.slots, b);
            assert(a.events == m.events + (food + walls + gates));
            lemma_hits_exact(s.slots, b, Kind::Wall);
            let hits = hit_ids(s.slots, b, Kind::Wall);
            let wall_hit = exists|i: int|
                0 <= i < s.slots.len() && slot_hit(#[trigger] s.slots[i], b, Kind::Wall);
            if wall_hit {
                let i = choose|i: int|
                    0 <= i < s.slots.len() && slot_hit(#[trigger] s.slots[i], b, Kind::Wall);
                assert(hits.contains(
                    EntityId { index: i as usize, generation: s.slots[i].generation },
                ));
                assert(walls.len() > 0);
                let k = m.events.len() + food.len();
                assert(a.events[k as int] == walls[0]);
                assert(loss_raised(s, input));
            }
            if fell {
                assert(m.events[0] == Event::PlayerLost);
                assert(a.events[0] == Event::PlayerLost);
                assert(loss_raised(s, input));
            }
            if loss_raised(s, input) && !fell {
                let i = choose|i: int|
                    0 <= i < a.events.len() && a.events[i] == Event::PlayerLost;
                assert(m.events.len() == 0);
                if i < food.len() {
                    assert(a.events[i] == food[i]);
                } else if i < food.len() + walls.len() {
                    assert(hits.len() > 0);
                    let id = hits[0];
                    assert(slot_hit(s.slots[id.index as int], b, Kind::Wall));
                } else {
                    assert(a.events[i] == gates[i - food.len() - walls.len()]);
                }
            }
        },
    }
}

/// Every wall pair comes with its gate: a frame's generator phase either
/// leaves everything as it is, or adds exactly two walls and one gate, which
/// tile the width of the field, and restarts the timer.
pub proof fn lemma_wall_pair_comes_with_its_gate(s: SimModel, now_us: u64, draws: Draws)
    ensures
        ({
            let t = walls_spawned(s, now_us, draws);
            let due = spawn_due(now_us, s.last_spawn_us, score_of(s));
            let n: nat = if due { 1 } else { 0 };
            &&& count_kind(t.slots, Kind::Wall) == count_kind(s.slots, Kind::Wall) + 2 * n
            &&& count_kind(t.slots, Kind::Gate) == count_kind(s.slots, Kind::Gate) + n
            &&& food_count(t) == food_count(s)
            &&& t.last_spawn_us == if due { now_us } else { s.last_spawn_us }
            &&& !due ==> t == s
        }),
{
    let layout = wall_layout(
        s.world,
        draws.gap_middle_ppm,
        spawn_height(s.camera_y, s.world, draws.wall_offset),
    );
    let a = spawned(s.slots, layout.left);
    let b = spawned(a, layout.right);
    lemma_spawn_counts(s.slots, layout.left, Kind::Wall);
    lemma_spawn_counts(s.slots, layout.left, Kind::Gate);
    lemma_spawn_counts(s.slots, layout.left, Kind::Food);
    lemma_spawn_counts(a, layout.right, Kind::Wall);
    lemma_spawn_counts(a, layout.right, Kind::Gate);
    lemma_spawn_counts(a, layout.right, Kind::Food);
    lemma_spawn_counts(b, layout.gate, Kind::Wall);
    lemma_spawn_counts(b, layout.gate, Kind::Gate);
    lemma_spawn_counts(b, layout.gate, Kind::Food);
}

/// Every transition of a frame keeps a pause on top of play only.
pub proof fn lemma_frame_keeps_mode_well_formed(s: SimModel, input: FrameInput, draws: Draws)
    requires
        s.mode.well_formed(),
    ensures
        frame_model(s, input, draws).mode.well_formed(),
{
    let r = resized(s, input.resize);
    if r.mode.top() == Mode::Playing {
        let a = before_dispatch(s, input);
        lemma_dispatch_mode(a, 0, draws);
        if loss_raised(s, input) {
        } else {
            assert(dispatched(a, draws).mode == s.mode);
        }
    }
}

/// Two players, or their absence, that differ at most in the score.
pub open spec fn same_body(a: Option<Player>, b: Option<Player>) -> bool {
    match (a, b) {
        (Some(p), Some(q)) => p.pos == q.pos && p.size == q.size && p.velocity == q.velocity,
        (None, None) => true,
        _ => false,
    }
}

/// Dispatch moves nobody: it may add to the player's score and changes
/// nothing else of the player.
pub proof fn lemma_dispatch_moves_nobody(s: SimModel, from: int, draws: Draws)
    requires
        0 <= from,
    ensures
        same_body(dispatched_from(s, from, draws).player, s.player),
    decreases s.events.len() - from,
{
    if from < s.events.len() {
        let t = handled(s, s.events[from], draws);
        assert(same_body(t.player, s.player));
        lemma_dispatch_moves_nobody(t, from + 1, draws);
    }
}

/// The bounds hold at the end of every frame of play: a player no wider
/// than the field lies within it horizontally, wherever it was at the start
/// of the frame and however fast it moved.
pub proof fn lemma_player_stays_in_field(s: SimModel, input: FrameInput, draws: Draws)
    requires
        s.mode.top() == Mode::Playing,
        s.player is Some,
        s.player->Some_0.size.half_width <= resized(s, input.resize).world.half_width,
    ensures
        ({
            let t = frame_model(s, input, draws);
            &&& t.player is Some
            &&& -t.world.half_width <= t.player->Some_0.pos.x - t.player->Some_0.size.half_width
            &&& t.player->Some_0.pos.x + t.player->Some_0.size.half_width <= t.world.half_width
        }),
{
    let r = resized(s, input.resize);
    let p = s.player->Some_0;
    let q = moved_player(p, input.dt_us, input.decay_ppm);
    lemma_bounds_hold(q, s.camera_y, r.world);
    let a = before_dispatch(s, input);
    lemma_dispatch_moves_nobody(a, 0, draws);
    lemma_dispatch_keeps(a, 0, draws);
    let b = dispatched(a, draws);
    let c = refilled(out_of_view_culled(walls_spawned(b, input.now_us, draws)), draws);
    assert(c.player == b.player);
    assert(c.world == r.world);
}

/// The camera only rises: no frame of play moves it down, and no frame out
/// of play moves it at all, but for a respawn, which puts it back at zero.
pub proof fn lemma_camera_only_rises(s: SimModel, input: FrameInput, draws: Draws)
    ensures
        s.mode.top() == Mode::Playing ==> frame_model(s, input, draws).camera_y >= s.camera_y,
        s.mode.top() == Mode::Paused ==> frame_model(s, input, draws).camera_y == s.camera_y,
        s.mode.top() == Mode::Dead ==> frame_model(s, input, draws).camera_y == (if input.respawn_requested {
            0
        } else {
            s.camera_y
        }),
{
    let r = resized(s, input.resize);
    if r.mode.top() == Mode::Playing {
        let m = moved(r, input.dt_us, input.decay_ppm);
        lemma_diagonal_bound(r.world.half_width as int, r.world.half_height as int);
        lemma_rise_not_negative(input.dt_us, score_of(m), r.world.diagonal());
        let a = before_dispatch(s, input);
        lemma_dispatch_keeps(a, 0, draws);
        let b = dispatched(a, draws);
        let c = refilled(out_of_view_culled(walls_spawned(b, input.now_us, draws)), draws);
        assert(c.camera_y == b.camera_y);
    }
}

} // verus!
