//! Collision detection: which food, walls and gates the player overlaps,
//! and the events that follow.

use vstd::prelude::*;
use crate::arena::{lookup, Arena, EntityId, Kind, Slot};
use crate::geometry::{boxes_overlap, overlaps};
use crate::kinematics::Player;

verus! {

/// What happened in a frame. Events are consumed in the order in which they
/// were raised.
#[derive(Clone, Copy, Debug, PartialEq, Eq, Structural)]
pub enum Event {
    /// The player overlaps this food item.
    FoodEaten(EntityId),
    /// The player overlaps this gate.
    GatePassed(EntityId),
    /// The player hit a wall or fell behind the camera.
    PlayerLost,
}

/// The slot holds an entity of the given kind that overlaps the player.
pub open spec fn slot_hit(slot: Slot, player: Player, kind: Kind) -> bool {
    slot.occupant matches Some(e) && e.kind == kind && boxes_overlap(
        player.pos,
        player.size,
        e.pos,
        e.size,
    )
}

/// The entities of the given kind that overlap the player, in slot order.
pub open spec fn hit_ids(slots: Seq<Slot>, player: Player, kind: Kind) -> Seq<EntityId>
    decreases slots.len(),
{
    if slots.len() == 0 {
        Seq::empty()
    } else {
        let before = hit_ids(slots.drop_last(), player, kind);
        if slot_hit(slots.last(), player, kind) {
            before.push(
                EntityId {
                    index: (slots.len() - 1) as usize,
                    generation: slots.last().generation,
                },
            )
        } else {
            before
        }
    }
}

/// The first entity of the given kind that overlaps the player.
pub open spec fn first_hit(slots: Seq<Slot>, player: Player, kind: Kind) -> Option<EntityId> {
    if hit_ids(slots, player, kind).len() > 0 {
        Some(hit_ids(slots, player, kind)[0])
    } else {
        None
    }
}

/// The events that food raises: the first overlapping food item is eaten,
/// and no more than one per frame.
pub open spec fn food_events(slots: Seq<Slot>, player: Player) -> Seq<Event> {
    match first_hit(slots, player, Kind::Food) {
        Some(id) => seq![Event::FoodEaten(id)],
        None => Seq::empty(),
    }
}

/// The events that walls raise: one loss for every overlapping wall.
pub open spec fn wall_events(slots: Seq<Slot>, player: Player) -> Seq<Event> {
    Seq::new(hit_ids(slots, player, Kind::Wall).len(), |i: int| Event::PlayerLost)
}

/// The events that gates raise: every overlapping gate is passed.
pub open spec fn gate_events(slots: Seq<Slot>, player: Player) -> Seq<Event> {
    Seq::new(
        hit_ids(slots, player, Kind::Gate).len(),
        |i: int| Event::GatePassed(hit_ids(slots, player, Kind::Gate)[i]),
    )
}

/// The events of a frame's collisions, in the order food, walls, gates.
pub open spec fn collision_events(slots: Seq<Slot>, player: Player) -> Seq<Event> {
    food_events(slots, player) + wall_events(slots, player) + gate_events(slots, player)
}

/// The hits among the first `k` slots are the first hits among all slots.
pub proof fn lemma_hits_prefix(slots: Seq<Slot>, k: int, player: Player, kind: Kind)
    requires
        0 <= k <= slots.len(),
    ensures
        hit_ids(slots.take(k), player, kind).len() <= hit_ids(slots, player, kind).len(),
        forall|j: int|
            0 <= j < hit_ids(slots.take(k), player, kind).len() ==> hit_ids(
                slots.take(k),
                player,
                kind,
            )[j] == hit_ids(slots, player, kind)[j],
    decreases slots.len(),
{
    if k == slots.len() {
        assert(slots.take(k) =~= slots);
    } else {
        assert(slots.take(k) =~= slots.drop_last().take(k));
        lemma_hits_prefix(slots.drop_last(), k, player, kind);
    }
}

/// Every reported hit names a live entity of the kind asked for that
/// overlaps the player, and every such entity is reported.
pub proof fn lemma_hits_exact(slots: Seq<Slot>, player: Player, kind: Kind)
    requires
        slots.len() <= usize::MAX,
    ensures
        forall|j: int|
            0 <= j < hit_ids(slots, player, kind).len() ==> {
                let id = #[trigger] hit_ids(slots, player, kind)[j];
                &&& id.index < slots.len()
                &&& id.generation == slots[id.index as int].generation
                &&& slot_hit(slots[id.index as int], player, kind)
                &&& lookup(slots, id) is Some
            },
        forall|i: int|
            0 <= i < slots.len() && slot_hit(#[trigger] slots[i], player, kind) ==> hit_ids(
                slots,
                player,
                kind,
            ).contains(EntityId { index: i as usize, generation: slots[i].generation }),
        hit_ids(slots, player, kind).len() <= slots.len(),
    decreases slots.len(),
{
    if slots.len() > 0 {
        let front = slots.drop_last();
        lemma_hits_exact(front, player, kind);
        let before = hit_ids(front, player, kind);
        let all = hit_ids(slots, player, kind);
        assert forall|i: int| 0 <= i < slots.len() && slot_hit(
            #[trigger] slots[i],
            player,
            kind,
        ) implies all.contains(EntityId { index: i as usize, generation: slots[i].generation }) by {
            let id = EntityId { index: i as usize, generation: slots[i].generation };
            if i < slots.len() - 1 {
                assert(front[i] == slots[i]);
                assert(before.contains(id));
                let j = choose|j: int| 0 <= j < before.len() && before[j] == id;
                assert(all[j] == id);
            } else {
                assert(all[all.len() - 1] == id);
            }
        }
        assert forall|j: int| 0 <= j < all.len() implies {
            let id = #[trigger] all[j];
            &&& id.index < slots.len()
            &&& id.generation == slots[id.index as int].generation
            &&& slot_hit(slots[id.index as int], player, kind)
            &&& lookup(slots, id) is Some
        } by {
            if j < before.len() {
                assert(all[j] == before[j]);
                assert(front[before[j].index as int] == slots[before[j].index as int]);
            }
        }
    }
}

/// Without an overlap there is no event.
pub proof fn lemma_no_overlap_no_event(slots: Seq<Slot>, player: Player)
    requires
        forall|i: int|
            0 <= i < slots.len() ==> !(#[trigger] slots[i].occupant matches Some(e)
                && boxes_overlap(player.pos, player.size, e.pos, e.size)),
    ensures
        collision_events(slots, player) =~= Seq::<Event>::empty(),
{
    lemma_no_hits(slots, player, Kind::Food);
    lemma_no_hits(slots, player, Kind::Wall);
    lemma_no_hits(slots, player, Kind::Gate);
}

/// Where no slot is hit, the list of hits is empty.
proof fn lemma_no_hits(slots: Seq<Slot>, player: Player, kind: Kind)
    requires
        forall|i: int|
            0 <= i < slots.len() ==> !(#[trigger] slots[i].occupant matches Some(e)
                && boxes_overlap(player.pos, player.size, e.pos, e.size)),
    ensures
        hit_ids(slots, player, kind).len() == 0,
    decreases slots.len(),
{
    if slots.len() > 0 {
        let front = slots.drop_last();
        assert forall|i: int| 0 <= i < front.len() implies !(#[trigger] front[i].occupant matches Some(
            e,
        ) && boxes_overlap(player.pos, player.size, e.pos, e.size)) by {
            assert(front[i] == slots[i]);
        }
        lemma_no_hits(front, player, kind);
        assert(!slot_hit(slots[slots.len() - 1], player, kind));
    }
}

/// Lists the entities of a kind that overlap the player.
pub fn find_hits(arena: &Arena, player: &Player, kind: Kind) -> (ids: Vec<EntityId>)
    ensures
        ids@ == hit_ids(arena@, *player, kind),
{
    let n: usize = arena.slot_count();
    let mut ids: Vec<EntityId> = Vec::new();
    let mut i: usize = 0;
    while i < n
        invariant
            n == arena@.len(),
            i <= n,
            ids@ == hit_ids(arena@.take(i as int), *player, kind),
        decreases n - i,
    {
        proof {
            assert(arena@.take(i + 1).drop_last() =~= arena@.take(i as int));
        }
        match arena.entity_at(i) {
            Some((id, entity)) => {
                if entity.kind == kind && overlaps(player.pos, player.size, entity.pos, entity.size) {
                    ids.push(id);
                }
            },
            None => {},
        }
        i = i + 1;
    }
    proof {
        assert(arena@.take(n as int) =~= arena@);
    }
    ids
}

/// Finds the first entity of a kind that overlaps the player.
pub fn find_first_hit(arena: &Arena, player: &Player, kind: Kind) -> (found: Option<EntityId>)
    ensures
        found == first_hit(arena@, *player, kind),
{
    let n: usize = arena.slot_count();
    let mut i: usize = 0;
    while i < n
        invariant
            n == arena@.len(),
            i <= n,
            hit_ids(arena@.take(i as int), *player, kind).len() == 0,
        decreases n - i,
    {
        proof {
            assert(arena@.take(i + 1).drop_last() =~= arena@.take(i as int));
            lemma_hits_prefix(arena@, i + 1, *player, kind);
        }
        match arena.entity_at(i) {
            Some((id, entity)) => {
                if entity.kind == kind && overlaps(player.pos, player.size, entity.pos, entity.size) {
                    assert(hit_ids(arena@.take(i + 1), *player, kind)[0] == id);
                    return Some(id);
                }
            },
            None => {},
        }
        i = i + 1;
    }
    proof {
        assert(arena@.take(n as int) =~= arena@);
    }
    None
}

/// Tests the player against food, walls and gates and appends the events
/// to the queue.
pub fn detect_collisions(arena: &Arena, player: &Player, events: &mut Vec<Event>)
    ensures
        final(events)@ == old(events)@ + collision_events(arena@, *player),
{
    let ghost before = events@;
    match find_first_hit(arena, player, Kind::Food) {
        Some(id) => {
            events.push(Event::FoodEaten(id));
        },
        None => {},
    }
    assert(events@ =~= before + food_events(arena@, *player));
    let walls = find_hits(arena, player, Kind::Wall);
    let mut i: usize = 0;
    while i < walls.len()
        invariant
            i <= walls.len(),
            walls@ == hit_ids(arena@, *player, Kind::Wall),
            events@ =~= before + food_events(arena@, *player) + wall_events(arena@, *player).take(
                i as int,
            ),
        decreases walls.len() - i,
    {
        events.push(Event::PlayerLost);
        i = i + 1;
    }
    assert(wall_events(arena@, *player).take(i as int) =~= wall_events(arena@, *player));
    let gates = find_hits(arena, player, Kind::Gate);
    let mut k: usize = 0;
    while k < gates.len()
        invariant
            k <= gates.len(),
            gates@ == hit_ids(arena@, *player, Kind::Gate),
            events@ =~= before + food_events(arena@, *player) + wall_events(arena@, *player)
                + gate_events(arena@, *player).take(k as int),
        decreases gates.len() - k,
    {
        events.push(Event::GatePassed(gates[k]));
        k = k + 1;
    }
    assert(gate_events(arena@, *player).take(k as int) =~= gate_events(arena@, *player));
    assert(events@ =~= before + collision_events(arena@, *player));
}

} // verus!
