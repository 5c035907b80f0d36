//! The entity store: a generational arena of food, walls and gates.
//!
//! An entity lives in a slot and is named by the slot's index together with
//! the slot's generation at the time it was spawned. Removing an entity
//! advances the generation, so a stale identifier never names a later
//! occupant of the same slot. A slot whose generation can advance no further
//! is retired and never reused.

use vstd::prelude::*;
use crate::geometry::{Extent, Vec2};

verus! {

/// What an entity of the store is.
#[derive(Clone, Copy, Debug, PartialEq, Eq, Structural)]
pub enum Kind {
    Food,
    Wall,
    Gate,
}

/// A static box of the play scene.
#[derive(Clone, Copy, Debug, PartialEq, Eq, Structural)]
pub struct Entity {
    pub kind: Kind,
    pub pos: Vec2,
    pub size: Extent,
}

/// The name of an entity: where it lives, and since which generation.
#[derive(Clone, Copy, Debug, PartialEq, Eq, Hash, Structural)]
pub struct EntityId {
    pub index: usize,
    pub generation: u64,
}

/// One slot of the arena.
#[derive(Clone, Copy, Debug)]
pub struct Slot {
    pub generation: u64,
    pub occupant: Option<Entity>,
}

/// The store itself. Its view is the sequence of its slots.
pub struct Arena {
    slots: Vec<Slot>,
}

impl View for Arena {
    type V = Seq<Slot>;

    closed spec fn view(&self) -> Seq<Slot> {
        self.slots@
    }
}

/// A slot can take a new entity when it is empty and not retired.
pub open spec fn slot_free(slot: Slot) -> bool {
    slot.occupant is None && slot.generation < u64::MAX
}

/// The slot left behind when its occupant is removed.
pub open spec fn vacate(slot: Slot) -> Slot {
    Slot {
        generation: if slot.generation < u64::MAX {
            (slot.generation + 1) as u64
        } else {
            slot.generation
        },
        occupant: None,
    }
}

/// The index of the first free slot at or after `from`, or the number of
/// slots when there is none.
pub open spec fn first_free_from(slots: Seq<Slot>, from: int) -> int
    decreases slots.len() - from,
{
    if from < 0 || from >= slots.len() {
        slots.len() as int
    } else if slot_free(slots[from]) {
        from
    } else {
        first_free_from(slots, from + 1)
    }
}

/// The index at which the next entity is spawned.
pub open spec fn first_free(slots: Seq<Slot>) -> int {
    first_free_from(slots, 0)
}

/// The identifier that the next spawned entity receives.
pub open spec fn next_id(slots: Seq<Slot>) -> EntityId {
    let i = first_free(slots);
    EntityId {
        index: i as usize,
        generation: if i < slots.len() {
            slots[i].generation
        } else {
            0
        },
    }
}

/// The slots after `entity` is spawned: it takes the first free slot, or a
/// new slot at the end.
pub open spec fn spawned(slots: Seq<Slot>, entity: Entity) -> Seq<Slot> {
    let i = first_free(slots);
    if i < slots.len() {
        slots.update(i, Slot { generation: slots[i].generation, occupant: Some(entity) })
    } else {
        slots.push(Slot { generation: 0, occupant: Some(entity) })
    }
}

/// The entity that `id` names, if it is live.
pub open spec fn lookup(slots: Seq<Slot>, id: EntityId) -> Option<Entity> {
    if id.index < slots.len() && slots[id.index as int].generation == id.generation {
        slots[id.index as int].occupant
    } else {
        None
    }
}

/// The slots after the entity named by `id` is removed; unchanged when `id`
/// names no live entity.
pub open spec fn despawned(slots: Seq<Slot>, id: EntityId) -> Seq<Slot> {
    if lookup(slots, id) is Some {
        slots.update(id.index as int, vacate(slots[id.index as int]))
    } else {
        slots
    }
}

/// The slot holds an entity of the given kind.
pub open spec fn holds_kind(slot: Slot, kind: Kind) -> bool {
    slot.occupant matches Some(e) && e.kind == kind
}

/// The number of live entities of the given kind.
pub open spec fn count_kind(slots: Seq<Slot>, kind: Kind) -> nat
    decreases slots.len(),
{
    if slots.len() == 0 {
        0
    } else {
        count_kind(slots.drop_last(), kind) + if holds_kind(slots.last(), kind) {
            1nat
        } else {
            0nat
        }
    }
}

/// The slot holds an entity whose top edge lies below `bottom`.
pub open spec fn below_view(slot: Slot, bottom: int) -> bool {
    slot.occupant matches Some(e) && e.pos.y + e.size.half_height < bottom
}

/// The slots after every entity whose top edge lies below `bottom` is removed.
pub open spec fn culled(slots: Seq<Slot>, bottom: int) -> Seq<Slot> {
    Seq::new(
        slots.len(),
        |i: int|
            if below_view(slots[i], bottom) {
                vacate(slots[i])
            } else {
                slots[i]
            },
    )
}

/// The slots after every entity is removed.
pub open spec fn cleared(slots: Seq<Slot>) -> Seq<Slot> {
    Seq::new(
        slots.len(),
        |i: int|
            if slots[i].occupant is Some {
                vacate(slots[i])
            } else {
                slots[i]
            },
    )
}

/// The live entity in slot `index`, with its identifier.
pub open spec fn occupant_at(slots: Seq<Slot>, index: int) -> Option<(EntityId, Entity)> {
    if 0 <= index < slots.len() && slots[index].occupant is Some {
        Some(
            (
                EntityId { index: index as usize, generation: slots[index].generation },
                slots[index].occupant->Some_0,
            ),
        )
    } else {
        None
    }
}

/// The first free slot, when there is one, is free, and no slot before it is.
pub proof fn lemma_first_free(slots: Seq<Slot>, from: int)
    requires
        0 <= from <= slots.len(),
    ensures
        from <= first_free_from(slots, from) <= slots.len(),
        first_free_from(slots, from) < slots.len() ==> slot_free(
            slots[first_free_from(slots, from)],
        ),
        forall|j: int| from <= j < first_free_from(slots, from) ==> !slot_free(#[trigger] slots[j]),
    decreases slots.len() - from,
{
    if from < slots.len() && !slot_free(slots[from]) {
        lemma_first_free(slots, from + 1);
    }
}

/// Replacing one slot changes the count of a kind by what the slot held
/// before and holds after.
pub proof fn lemma_count_update(slots: Seq<Slot>, index: int, slot: Slot, kind: Kind)
    requires
        0 <= index < slots.len(),
    ensures
        count_kind(slots.update(index, slot), kind) + (if holds_kind(slots[index], kind) {
            1nat
        } else {
            0nat
        }) == count_kind(slots, kind) + (if holds_kind(slot, kind) {
            1nat
        } else {
            0nat
        }),
    decreases slots.len(),
{
    let after = slots.update(index, slot);
    if index == slots.len() - 1 {
        assert(after.drop_last() =~= slots.drop_last());
    } else {
        assert(after.drop_last() =~= slots.drop_last().update(index, slot));
        lemma_count_update(slots.drop_last(), index, slot, kind);
    }
}

/// Appending a slot adds what it holds to the count.
pub proof fn lemma_count_push(slots: Seq<Slot>, slot: Slot, kind: Kind)
    ensures
        count_kind(slots.push(slot), kind) == count_kind(slots, kind) + (if holds_kind(slot, kind) {
            1nat
        } else {
            0nat
        }),
{
    assert(slots.push(slot).drop_last() =~= slots);
}

/// A spawn adds one to the count of the spawned kind and leaves the counts
/// of the other kinds as they were.
pub proof fn lemma_spawn_counts(slots: Seq<Slot>, entity: Entity, kind: Kind)
    ensures
        count_kind(spawned(slots, entity), kind) == count_kind(slots, kind) + (if entity.kind
            == kind {
            1nat
        } else {
            0nat
        }),
{
    let i = first_free(slots);
    lemma_first_free(slots, 0);
    if i < slots.len() {
        lemma_count_update(
            slots,
            i,
            Slot { generation: slots[i].generation, occupant: Some(entity) },
            kind,
        );
    } else {
        lemma_count_push(slots, Slot { generation: 0, occupant: Some(entity) }, kind);
    }
}

/// A spawned entity is live under the identifier it was given, and every
/// entity that was live before stays live and unchanged.
pub proof fn lemma_spawn_lookup(slots: Seq<Slot>, entity: Entity, other: EntityId)
    requires
        slots.len() < usize::MAX,
    ensures
        lookup(spawned(slots, entity), next_id(slots)) == Some(entity),
        lookup(slots, next_id(slots)) is None,
        lookup(slots, other) is Some ==> lookup(spawned(slots, entity), other) == lookup(
            slots,
            other,
        ),
{
    lemma_first_free(slots, 0);
}

/// A removed entity is no longer live, its kind counts one less, and every
/// other live entity stays live and unchanged.
pub proof fn lemma_despawn(slots: Seq<Slot>, id: EntityId, other: EntityId, kind: Kind)
    requires
        lookup(slots, id) is Some,
    ensures
        lookup(despawned(slots, id), id) is None,
        other.index != id.index ==> lookup(despawned(slots, id), other) == lookup(slots, other),
        count_kind(despawned(slots, id), kind) + (if lookup(slots, id)->Some_0.kind == kind {
            1nat
        } else {
            0nat
        }) == count_kind(slots, kind),
{
    lemma_count_update(slots, id.index as int, vacate(slots[id.index as int]), kind);
}

/// The live entities with their identifiers, in slot order.
pub open spec fn live_entities(slots: Seq<Slot>) -> Seq<(EntityId, Entity)>
    decreases slots.len(),
{
    if slots.len() == 0 {
        Seq::empty()
    } else {
        let before = live_entities(slots.drop_last());
        match occupant_at(slots, slots.len() - 1) {
            Some(pair) => before.push(pair),
            None => before,
        }
    }
}

/// The identifier names an entity that is gone for good: its slot has moved
/// on to a later generation, or stands empty and retired.
pub open spec fn expired(slots: Seq<Slot>, id: EntityId) -> bool {
    id.index < slots.len() && (slots[id.index as int].generation > id.generation || (
    slots[id.index as int].generation == u64::MAX && slots[id.index as int].occupant is None))
}

/// An expired identifier names no live entity.
pub proof fn lemma_expired_is_dead(slots: Seq<Slot>, id: EntityId)
    requires
        expired(slots, id),
    ensures
        lookup(slots, id) is None,
{
}

/// Removing an entity expires its identifier.
pub proof fn lemma_despawn_expires(slots: Seq<Slot>, id: EntityId)
    requires
        lookup(slots, id) is Some,
    ensures
        expired(despawned(slots, id), id),
{
}

/// An expired identifier stays expired whatever is spawned or removed
/// afterwards: it never names a later occupant of its slot.
pub proof fn lemma_expired_stays(slots: Seq<Slot>, id: EntityId, entity: Entity, other: EntityId, bottom: int)
    requires
        expired(slots, id),
    ensures
        expired(spawned(slots, entity), id),
        expired(despawned(slots, other), id),
        expired(culled(slots, bottom), id),
        expired(cleared(slots), id),
{
    lemma_first_free(slots, 0);
}

/// Culling removes exactly what lies below: an entity whose top edge is at
/// or above `bottom` stays live and unchanged under its identifier, and one
/// below is gone for good.
pub proof fn lemma_cull_exact(slots: Seq<Slot>, bottom: int, id: EntityId)
    ensures
        lookup(culled(slots, bottom), id) == (if lookup(slots, id) matches Some(e) && e.pos.y
            + e.size.half_height >= bottom {
            lookup(slots, id)
        } else {
            None
        }),
        lookup(slots, id) matches Some(e) && e.pos.y + e.size.half_height < bottom ==> expired(
            culled(slots, bottom),
            id,
        ),
{
}

/// Culling never adds to a count.
pub proof fn lemma_cull_counts(slots: Seq<Slot>, bottom: int, kind: Kind)
    ensures
        count_kind(culled(slots, bottom), kind) <= count_kind(slots, kind),
    decreases slots.len(),
{
    if slots.len() > 0 {
        assert(culled(slots, bottom).drop_last() =~= culled(slots.drop_last(), bottom));
        lemma_cull_counts(slots.drop_last(), bottom, kind);
    }
}

/// The list of live entities is exact: each listed pair is live under its
/// identifier, and each live entity is listed.
pub proof fn lemma_live_entities_exact(slots: Seq<Slot>)
    requires
        slots.len() <= usize::MAX,
    ensures
        forall|j: int|
            0 <= j < live_entities(slots).len() ==> lookup(
                slots,
                (#[trigger] live_entities(slots)[j]).0,
            ) == Some(live_entities(slots)[j].1),
        forall|id: EntityId|
            lookup(slots, id) is Some ==> live_entities(slots).contains(
                (id, #[trigger] lookup(slots, id)->Some_0),
            ),
        live_entities(slots).len() <= slots.len(),
    decreases slots.len(),
{
    if slots.len() > 0 {
        let front = slots.drop_last();
        let last = slots.len() - 1;
        lemma_live_entities_exact(front);
        let before = live_entities(front);
        let all = live_entities(slots);
        assert forall|j: int| 0 <= j < all.len() implies lookup(slots, (#[trigger] all[j]).0)
            == Some(all[j].1) by {
            if j < before.len() {
                assert(all[j] == before[j]);
                assert(lookup(front, before[j].0) == Some(before[j].1));
            }
        }
        assert forall|id: EntityId| lookup(slots, id) is Some implies all.contains(
            (id, #[trigger] lookup(slots, id)->Some_0),
        ) by {
            let pair = (id, lookup(slots, id)->Some_0);
            if id.index < last {
                assert(lookup(front, id) == lookup(slots, id));
                assert(before.contains(pair));
                let j = choose|j: int| 0 <= j < before.len() && before[j] == pair;
                assert(all[j] == pair);
            } else {
                assert(id.index == last);
                assert(all[all.len() - 1] == pair);
            }
        }
    }
}

impl Arena {
    /// An empty store.
    pub fn new() -> (arena: Arena)
        ensures
            arena@ == Seq::<Slot>::empty(),
    {
        Arena { slots: Vec::new() }
    }

    /// The number of slots, free ones included.
    pub fn slot_count(&self) -> (n: usize)
        ensures
            n == self@.len(),
    {
        self.slots.len()
    }

    /// The entity in slot `index`, with its identifier; `None` for an empty
    /// slot or an index past the last slot.
    pub fn entity_at(&self, index: usize) -> (found: Option<(EntityId, Entity)>)
        ensures
            found == occupant_at(self@, index as int),
    {
        if index < self.slots.len() {
            let slot = self.slots[index];
            match slot.occupant {
                Some(entity) => Some((EntityId { index, generation: slot.generation }, entity)),
                None => None,
            }
        } else {
            None
        }
    }

    /// The entity that `id` names, if it is live.
    pub fn get(&self, id: EntityId) -> (found: Option<Entity>)
        ensures
            found == lookup(self@, id),
    {
        if id.index < self.slots.len() {
            let slot = self.slots[id.index];
            if slot.generation == id.generation {
                slot.occupant
            } else {
                None
            }
        } else {
            None
        }
    }

    /// Adds an entity and returns its identifier.
    pub fn spawn(&mut self, entity: Entity) -> (id: EntityId)
        ensures
            final(self)@ == spawned(old(self)@, entity),
            id == next_id(old(self)@),
            lookup(final(self)@, id) == Some(entity),
    {
        let n: usize = self.slots.len();
        let mut i: usize = 0;
        while i < n && !(self.slots[i].occupant.is_none() && self.slots[i].generation < u64::MAX)
            invariant
                n == self.slots@.len(),
                i <= n,
                self.slots@ == old(self).slots@,
                first_free_from(self.slots@, i as int) == first_free(self.slots@),
            decreases n - i,
        {
            i = i + 1;
        }
        if i < n {
            let generation: u64 = self.slots[i].generation;
            self.slots[i] = Slot { generation, occupant: Some(entity) };
            EntityId { index: i, generation }
        } else {
            self.slots.push(Slot { generation: 0, occupant: Some(entity) });
            EntityId { index: i, generation: 0 }
        }
    }

    /// Removes the entity that `id` names. Returns whether there was one.
    pub fn despawn(&mut self, id: EntityId) -> (removed: bool)
        ensures
            removed == (lookup(old(self)@, id) is Some),
            final(self)@ == despawned(old(self)@, id),
            lookup(final(self)@, id) is None,
    {
        if id.index < self.slots.len() {
            let slot = self.slots[id.index];
            if slot.generation == id.generation && slot.occupant.is_some() {
                let generation: u64 = if slot.generation < u64::MAX {
                    slot.generation + 1
                } else {
                    slot.generation
                };
                self.slots[id.index] = Slot { generation, occupant: None };
                return true;
            }
        }
        false
    }

    /// Counts the live entities of a kind.
    pub fn count(&self, kind: Kind) -> (n: usize)
        ensures
            n == count_kind(self@, kind),
    {
        let len: usize = self.slots.len();
        let mut n: usize = 0;
        let mut i: usize = 0;
        while i < len
            invariant
                len == self.slots@.len(),
                i <= len,
                n <= i,
                n == count_kind(self.slots@.take(i as int), kind),
            decreases len - i,
        {
            proof {
                assert(self.slots@.take(i + 1).drop_last() =~= self.slots@.take(i as int));
            }
            let slot = self.slots[i];
            match slot.occupant {
                Some(entity) => {
                    if entity.kind == kind {
                        n = n + 1;
                    }
                },
                None => {},
            }
            i = i + 1;
        }
        proof {
            assert(self.slots@.take(len as int) =~= self.slots@);
        }
        n
    }

    /// Lists the live entities with their identifiers, in slot order.
    pub fn entities(&self) -> (list: Vec<(EntityId, Entity)>)
        ensures
            list@ == live_entities(self@),
    {
        let len: usize = self.slots.len();
        let mut list: Vec<(EntityId, Entity)> = Vec::new();
        let mut i: usize = 0;
        while i < len
            invariant
                len == self.slots@.len(),
                i <= len,
                list@ == live_entities(self.slots@.take(i as int)),
            decreases len - i,
        {
            proof {
                assert(self.slots@.take(i + 1).drop_last() =~= self.slots@.take(i as int));
            }
            match self.entity_at(i) {
                Some(pair) => {
                    list.push(pair);
                },
                None => {},
            }
            i = i + 1;
        }
        proof {
            assert(self.slots@.take(len as int) =~= self.slots@);
        }
        list
    }

    /// Removes every entity whose top edge lies below `bottom`.
    pub fn cull_below(&mut self, bottom: i128)
        ensures
            final(self)@ == culled(old(self)@, bottom as int),
    {
        let len: usize = self.slots.len();
        let mut i: usize = 0;
        while i < len
            invariant
                len == self.slots@.len(),
                len == old(self).slots@.len(),
                i <= len,
                forall|j: int| 0 <= j < i ==> self.slots@[j] == culled(old(self).slots@, bottom as int)[j],
                forall|j: int| i <= j < len ==> self.slots@[j] == old(self).slots@[j],
            decreases len - i,
        {
            let slot = self.slots[i];
            match slot.occupant {
                Some(entity) => {
                    if (entity.pos.y as i128) + (entity.size.half_height as i128) < bottom {
                        let generation: u64 = if slot.generation < u64::MAX {
                            slot.generation + 1
                        } else {
                            slot.generation
                        };
                        self.slots[i] = Slot { generation, occupant: None };
                    }
                },
                None => {},
            }
            i = i + 1;
        }
        proof {
            assert(self.slots@ =~= culled(old(self).slots@, bottom as int));
        }
    }

    /// Removes every entity.
    pub fn clear(&mut self)
        ensures
            final(self)@ == cleared(old(self)@),
    {
        let len: usize = self.slots.len();
        let mut i: usize = 0;
        while i < len
            invariant
                len == self.slots@.len(),
                len == old(self).slots@.len(),
                i <= len,
                forall|j: int| 0 <= j < i ==> self.slots@[j] == cleared(old(self).slots@)[j],
                forall|j: int| i <= j < len ==> self.slots@[j] == old(self).slots@[j],
            decreases len - i,
        {
            let slot = self.slots[i];
            if slot.occupant.is_some() {
                let generation: u64 = if slot.generation < u64::MAX {
                    slot.generation + 1
                } else {
                    slot.generation
                };
                self.slots[i] = Slot { generation, occupant: None };
            }
            i = i + 1;
        }
        proof {
            assert(self.slots@ =~= cleared(old(self).slots@));
        }
    }
}

} // verus!
