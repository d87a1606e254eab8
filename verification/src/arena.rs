//! The deterministic arena simulator. One `update` advances the whole
//! arena a single tick: destroyed spells of the previous tick are collected
//! first, every entity's queued intents are processed in FIFO order, every
//! spell acts in insertion order, and entities without health are removed
//! at the end. Between ticks the arena invariant holds: every entity is
//! alive, on a passable cell of its own, and ids are unique and
//! monotonically allocated.

#![verifier::loop_isolation(false)]

use vstd::prelude::*;

verus! {

use crate::arena_map::ArenaMap;
use crate::character::Character;
use crate::entity::Controller;
use crate::entity::Entity;
use crate::entity::EntityAction;
use crate::ids::EntityId;
use crate::ids::SpellSpecId;
use crate::spell::Spell;
use crate::spell::SpellAction;
use crate::util::Vec2;

/// The ceiling for every walking or moving period, so that scheduling the
/// next step at `current + period` never overflows the clock.
pub const MAX_PERIOD_MS: u64 = 1000000;

/// A tick timestamp that still leaves room to schedule the next step.
pub open spec fn valid_tick_time(current_ms: u64) -> bool {
    current_ms <= u64::MAX - MAX_PERIOD_MS
}

/// The spells of `s` that were not destroyed, in order.
pub open spec fn surviving_spells(s: Seq<Spell>) -> Seq<Spell>
    decreases s.len(),
{
    if s.len() == 0 {
        Seq::empty()
    } else {
        let rest = surviving_spells(s.drop_first());
        if s[0].destroyed {
            rest
        } else {
            seq![s[0]] + rest
        }
    }
}

/// The entities of `s` that still have health, in order.
pub open spec fn living_entities(s: Seq<Entity>) -> Seq<Entity>
    decreases s.len(),
{
    if s.len() == 0 {
        Seq::empty()
    } else {
        let rest = living_entities(s.drop_first());
        if s[0].live > 0 {
            seq![s[0]] + rest
        } else {
            rest
        }
    }
}

proof fn lemma_surviving_spells_membership(s: Seq<Spell>, x: Spell)
    requires
        surviving_spells(s).contains(x),
    ensures
        s.contains(x),
        !x.destroyed,
    decreases s.len(),
{
    if s.len() > 0 {
        let rest = surviving_spells(s.drop_first());
        if !s[0].destroyed && x == s[0] {
            assert(s[0] == s[0]);
        } else {
            assert(rest.contains(x));
            lemma_surviving_spells_membership(s.drop_first(), x);
            let k = choose|k: int| 0 <= k < s.drop_first().len() && s.drop_first()[k] == x;
            assert(s[k + 1] == x);
        }
    }
}

proof fn lemma_living_entities_membership(s: Seq<Entity>, x: Entity)
    requires
        living_entities(s).contains(x),
    ensures
        s.contains(x),
        x.live > 0,
    decreases s.len(),
{
    if s.len() > 0 {
        let rest = living_entities(s.drop_first());
        if s[0].live > 0 && x == s[0] {
            assert(s[0] == s[0]);
        } else {
            assert(rest.contains(x));
            lemma_living_entities_membership(s.drop_first(), x);
            let k = choose|k: int| 0 <= k < s.drop_first().len() && s.drop_first()[k] == x;
            assert(s[k + 1] == x);
        }
    }
}

proof fn lemma_surviving_spells_take(s: Seq<Spell>, i: int)
    requires
        0 <= i < s.len(),
    ensures
        surviving_spells(s.take(i + 1)) == if s[i].destroyed {
            surviving_spells(s.take(i))
        } else {
            surviving_spells(s.take(i)).push(s[i])
        },
    decreases i,
{
    if i == 0 {
        assert(s.take(0) =~= Seq::<Spell>::empty());
        assert(s.take(1)[0] == s[0]);
        assert(s.take(1).drop_first() =~= Seq::<Spell>::empty());
        assert(surviving_spells(Seq::<Spell>::empty()) == Seq::<Spell>::empty());
        if s[0].destroyed {
            assert(surviving_spells(s.take(1)) =~= surviving_spells(s.take(0)));
        } else {
            assert(surviving_spells(s.take(1)) =~= surviving_spells(s.take(0)).push(s[0]));
        }
    } else {
        lemma_surviving_spells_take(s.drop_first(), i - 1);
        assert(s.take(i + 1).drop_first() =~= s.drop_first().take(i));
        assert(s.take(i).drop_first() =~= s.drop_first().take(i - 1));
        assert(s.drop_first()[i - 1] == s[i]);
        if s[i].destroyed {
            assert(surviving_spells(s.take(i + 1)) =~= surviving_spells(s.take(i)));
        } else {
            assert(surviving_spells(s.take(i + 1)) =~= surviving_spells(s.take(i)).push(s[i]));
        }
    }
}

proof fn lemma_living_entities_take(s: Seq<Entity>, i: int)
    requires
        0 <= i < s.len(),
    ensures
        living_entities(s.take(i + 1)) == if s[i].live > 0 {
            living_entities(s.take(i)).push(s[i])
        } else {
            living_entities(s.take(i))
        },
    decreases i,
{
    if i == 0 {
        assert(s.take(0) =~= Seq::<Entity>::empty());
        assert(s.take(1)[0] == s[0]);
        assert(s.take(1).drop_first() =~= Seq::<Entity>::empty());
        assert(living_entities(Seq::<Entity>::empty()) == Seq::<Entity>::empty());
        if s[0].live > 0 {
            assert(living_entities(s.take(1)) =~= living_entities(s.take(0)).push(s[0]));
        } else {
            assert(living_entities(s.take(1)) =~= living_entities(s.take(0)));
        }
    } else {
        lemma_living_entities_take(s.drop_first(), i - 1);
        assert(s.take(i + 1).drop_first() =~= s.drop_first().take(i));
        assert(s.take(i).drop_first() =~= s.drop_first().take(i - 1));
        assert(s.drop_first()[i - 1] == s[i]);
        if s[i].live > 0 {
            assert(living_entities(s.take(i + 1)) =~= living_entities(s.take(i)).push(s[i]));
        } else {
            assert(living_entities(s.take(i + 1)) =~= living_entities(s.take(i)));
        }
    }
}

/// An arena: the grid, the live objects on it and the id allocators.
pub struct Arena {
    pub arena_number: usize,
    pub map: ArenaMap,
    pub entities: Vec<Entity>,
    pub spells: Vec<Spell>,
    pub last_entity_id: u64,
    pub last_spell_id: u64,
}

impl Arena {
    /// The invariant of the entity list that holds at every point of a
    /// tick: each entity on a passable cell of its own, ids unique,
    /// increasing and within the allocator bound, periods bounded.
    pub open spec fn wf_entities(self) -> bool {
        &&& forall|i: int|
            0 <= i < self.entities@.len() ==> self.map.spec_contains(
                (#[trigger] self.entities@[i]).position,
            )
        &&& forall|i: int, j: int|
            0 <= i < j < self.entities@.len() ==> (#[trigger] self.entities@[i]).position != (
            #[trigger] self.entities@[j]).position
        &&& forall|i: int, j: int|
            0 <= i < j < self.entities@.len() ==> (#[trigger] self.entities@[i]).id < (
            #[trigger] self.entities@[j]).id
        &&& forall|i: int|
            0 <= i < self.entities@.len() ==> 1 <= (#[trigger] self.entities@[i]).id
                <= self.last_entity_id
        &&& forall|i: int|
            0 <= i < self.entities@.len() ==> (#[trigger] self.entities@[i]).walk_period_ms
                <= MAX_PERIOD_MS
    }

    /// The invariant of the spell list that holds at every point of a
    /// tick: ids unique, increasing and within the allocator bound, every
    /// spell inside the map unless destroyed, periods bounded.
    pub open spec fn wf_spells(self) -> bool {
        &&& forall|i: int, j: int|
            0 <= i < j < self.spells@.len() ==> (#[trigger] self.spells@[i]).id < (
            #[trigger] self.spells@[j]).id
        &&& forall|i: int|
            0 <= i < self.spells@.len() ==> 1 <= (#[trigger] self.spells@[i]).id
                <= self.last_spell_id
        &&& forall|i: int|
            0 <= i < self.spells@.len() ==> self.map.spec_contains(
                (#[trigger] self.spells@[i]).position,
            ) || self.spells@[i].destroyed
        &&& forall|i: int|
            0 <= i < self.spells@.len() ==> (#[trigger] self.spells@[i]).move_period_ms
                <= MAX_PERIOD_MS
    }

    /// The arena invariant between ticks: on top of the mid-tick
    /// invariants, every entity is alive.
    pub open spec fn wf(self) -> bool {
        &&& self.map.wf()
        &&& self.wf_entities()
        &&& self.wf_spells()
        &&& forall|i: int| 0 <= i < self.entities@.len() ==> (#[trigger] self.entities@[i]).live > 0
    }

    pub fn new(arena_number: usize, map_size: usize, players_number: usize) -> (r: Arena)
        requires
            3 <= map_size <= 65535,
            players_number <= (map_size - 2) * (map_size - 2),
        ensures
            r.wf(),
            r.arena_number == arena_number,
            r.map == (ArenaMap { size: map_size, players_number }),
            r.entities@.len() == 0,
            r.spells@.len() == 0,
            r.last_entity_id == 0,
            r.last_spell_id == 0,
    {
        Arena {
            arena_number,
            map: ArenaMap::new(map_size, players_number),
            entities: Vec::new(),
            spells: Vec::new(),
            last_entity_id: 0,
            last_spell_id: 0,
        }
    }

    pub fn id(&self) -> (r: usize)
        ensures
            r == self.arena_number,
    {
        self.arena_number
    }

    pub fn map(&self) -> (r: &ArenaMap)
        ensures
            r == self.map,
    {
        &self.map
    }

    pub fn entities(&self) -> (r: &Vec<Entity>)
        ensures
            r@ == self.entities@,
    {
        &self.entities
    }

    pub fn spells(&self) -> (r: &Vec<Spell>)
        ensures
            r@ == self.spells@,
    {
        &self.spells
    }

    /// The index of the entity standing on `position`, if any.
    pub fn find_entity_at(&self, position: Vec2) -> (r: Option<usize>)
        ensures
            match r {
                Some(i) => 0 <= i < self.entities@.len() && self.entities@[i as int].position
                    == position && forall|k: int|
                    0 <= k < i ==> (#[trigger] self.entities@[k]).position != position,
                None => forall|i: int|
                    0 <= i < self.entities@.len() ==> (#[trigger] self.entities@[i]).position
                        != position,
            },
    {
        let mut i: usize = 0;
        while i < self.entities.len()
            invariant
                i <= self.entities@.len(),
                forall|k: int|
                    0 <= k < i ==> (#[trigger] self.entities@[k]).position != position,
            decreases self.entities@.len() - i,
        {
            let p = self.entities[i].position;
            if p.x == position.x && p.y == position.y {
                proof {
                    assert(self.entities@[i as int].position == position);
                }
                return Some(i);
            }
            i += 1;
        }
        None
    }

    /// The index of the entity with id `id`, if any.
    pub fn find_entity_index(&self, id: EntityId) -> (r: Option<usize>)
        ensures
            match r {
                Some(i) => 0 <= i < self.entities@.len() && self.entities@[i as int].id == id,
                None => forall|i: int|
                    0 <= i < self.entities@.len() ==> (#[trigger] self.entities@[i]).id != id,
            },
    {
        let mut i: usize = 0;
        while i < self.entities.len()
            invariant
                i <= self.entities@.len(),
                forall|k: int| 0 <= k < i ==> (#[trigger] self.entities@[k]).id != id,
            decreases self.entities@.len() - i,
        {
            if self.entities[i].id == id {
                return Some(i);
            }
            i += 1;
        }
        None
    }

    /// Creates an entity of `character` on the free cell `position` and
    /// returns its fresh id, the next id of the arena's monotonic
    /// allocator.
    pub fn create_entity(&mut self, character: Character, position: Vec2) -> (r: EntityId)
        requires
            old(self).wf(),
            old(self).map.spec_contains(position),
            forall|i: int|
                0 <= i < old(self).entities@.len() ==> (#[trigger] old(
                    self,
                ).entities@[i]).position != position,
            character.max_live > 0,
            character.walk_period_ms <= MAX_PERIOD_MS,
            old(self).last_entity_id < u64::MAX,
        ensures
            final(self).wf(),
            r == old(self).last_entity_id + 1,
            final(self).last_entity_id == r,
            final(self).last_spell_id == old(self).last_spell_id,
            final(self).map == old(self).map,
            final(self).arena_number == old(self).arena_number,
            final(self).spells@ == old(self).spells@,
            final(self).entities@.len() == old(self).entities@.len() + 1,
            final(self).entities@.last().id == r,
            final(self).entities@.last().character == character,
            final(self).entities@.last().position == position,
            final(self).entities@.last().live == character.max_live,
            forall|i: int|
                0 <= i < old(self).entities@.len() ==> final(self).entities@[i] == old(
                    self,
                ).entities@[i],
    {
        let id = crate::ids::next_id(self.last_entity_id);
        let entity = Entity::new(id, character, position);
        self.last_entity_id = id;
        self.entities.push(entity);
        id
    }

    /// Creates a spell of spec `spec_id` cast by the entity at index
    /// `caster`, with the arena's next spell id.
    pub fn create_spell(&mut self, spec_id: SpellSpecId, caster: usize) -> (r: bool)
        requires
            old(self).map.wf(),
            old(self).wf_entities(),
            old(self).wf_spells(),
            caster < old(self).entities@.len(),
        ensures
            final(self).map == old(self).map,
            final(self).arena_number == old(self).arena_number,
            final(self).entities@ == old(self).entities@,
            final(self).last_entity_id == old(self).last_entity_id,
            final(self).wf_entities(),
            final(self).wf_spells(),
            r == (old(self).last_spell_id < u64::MAX),
            r ==> {
                &&& final(self).last_spell_id == old(self).last_spell_id + 1
                &&& final(self).spells@.len() == old(self).spells@.len() + 1
                &&& forall|i: int|
                    0 <= i < old(self).spells@.len() ==> final(self).spells@[i] == old(
                        self,
                    ).spells@[i]
                &&& final(self).spells@.last().id == old(self).last_spell_id + 1
                &&& final(self).spells@.last().spec_id == spec_id
                &&& final(self).spells@.last().owner_id == old(self).entities@[caster as int].id
                &&& final(self).spells@.last().position == old(
                    self,
                ).entities@[caster as int].position
                &&& final(self).spells@.last().direction == old(
                    self,
                ).entities@[caster as int].direction
                &&& final(self).spells@.last().destroyed == false
            },
            !r ==> final(self).spells@ == old(self).spells@ && final(self).last_spell_id == old(
                self,
            ).last_spell_id,
    {
        if self.last_spell_id == u64::MAX {
            return false;
        }
        let id = crate::ids::next_id(self.last_spell_id);
        let spell = Spell::new(id, spec_id, &self.entities[caster]);
        self.last_spell_id = id;
        self.spells.push(spell);
        proof {
            assert(crate::spell::spec_spell_stats(spec_id).0 <= MAX_PERIOD_MS);
        }
        true
    }
}

/// Field-wise agreement of a spell with its pre-move value: everything but
/// position, schedule, the affected list and the destroyed flag unchanged.
pub open spec fn spell_core_unchanged(new: Spell, sp: Spell) -> bool {
    &&& new.id == sp.id
    &&& new.spec_id == sp.spec_id
    &&& new.owner_id == sp.owner_id
    &&& new.direction == sp.direction
    &&& new.move_period_ms == sp.move_period_ms
    &&& new.damage == sp.damage
    &&& new.behaviour == sp.behaviour
}

/// The cell one step from `p` in direction `d`.
pub open spec fn step_target(p: Vec2, d: crate::util::Direction) -> Vec2 {
    Vec2 { x: (p.x + d.spec_vec2().x) as i64, y: (p.y + d.spec_vec2().y) as i64 }
}

/// Health after `damage` points, stopping at zero.
pub open spec fn damaged_live(live: usize, damage: usize) -> usize {
    if live >= damage {
        (live - damage) as usize
    } else {
        0
    }
}

impl Arena {
    /// One `Walk` intent of the entity at index `i`: the facing always
    /// turns to `d`; the position advances to the neighbouring cell exactly
    /// when the walk is not rate-limited and that cell is a passable,
    /// unoccupied cell, and then the next walk is scheduled one period
    /// later.
    pub fn entity_walk(&mut self, i: usize, d: crate::util::Direction, current_ms: u64)
        requires
            old(self).map.wf(),
            old(self).wf_entities(),
            i < old(self).entities@.len(),
            valid_tick_time(current_ms),
        ensures
            final(self).map == old(self).map,
            final(self).arena_number == old(self).arena_number,
            final(self).spells@ == old(self).spells@,
            final(self).last_entity_id == old(self).last_entity_id,
            final(self).last_spell_id == old(self).last_spell_id,
            final(self).wf_entities(),
            final(self).entities@.len() == old(self).entities@.len(),
            forall|k: int|
                0 <= k < old(self).entities@.len() && k != i ==> final(self).entities@[k] == old(
                    self,
                ).entities@[k],
            ({
                let e = old(self).entities@[i as int];
                let target = step_target(e.position, d);
                let accepted = e.spec_can_walk(current_ms) && old(self).map.spec_contains(target)
                    && (forall|k: int|
                    0 <= k < old(self).entities@.len() ==> (#[trigger] old(
                        self,
                    ).entities@[k]).position != target);
                final(self).entities@[i as int] == (Entity {
                    direction: d,
                    position: if accepted {
                        target
                    } else {
                        e.position
                    },
                    next_walk_time: if accepted {
                        (current_ms + e.walk_period_ms) as u64
                    } else {
                        e.next_walk_time
                    },
                    ..e
                })
            }),
    {
        let d2 = d.vec2();
        let pos = self.entities[i].position;
        let target = Vec2 { x: pos.x + d2.x, y: pos.y + d2.y };
        let in_map = self.map.contains(target);
        let occupied = match self.find_entity_at(target) {
            Some(_) => true,
            None => false,
        };
        let ghost before = self.entities@;
        let e = &mut self.entities[i];
        e.set_direction(d);
        if in_map && !occupied {
            e.walk(d, current_ms);
        }
        proof {
            assert(forall|k: int|
                0 <= k < before.len() && k != i ==> final(self).entities@[k] == before[k]);
            let eo = before[i as int];
            let tgt = step_target(eo.position, d);
            let accepted = eo.spec_can_walk(current_ms) && self.map.spec_contains(tgt) && (
            forall|k: int|
                0 <= k < before.len() ==> (#[trigger] before[k]).position != tgt);
            if accepted {
                assert(self.entities@[i as int].position == tgt);
                assert forall|k: int, j: int|
                    0 <= k < j < self.entities@.len() implies (#[trigger] self.entities@[k]).position
                    != (#[trigger] self.entities@[j]).position by {
                    if k != i && j != i {
                        assert(self.entities@[k] == before[k] && self.entities@[j] == before[j]);
                    }
                }
            }
        }
    }

    /// One `SetDirection` intent of the entity at index `i`.
    pub fn entity_set_direction(&mut self, i: usize, d: crate::util::Direction)
        requires
            old(self).wf_entities(),
            i < old(self).entities@.len(),
        ensures
            final(self).map == old(self).map,
            final(self).arena_number == old(self).arena_number,
            final(self).spells@ == old(self).spells@,
            final(self).last_entity_id == old(self).last_entity_id,
            final(self).last_spell_id == old(self).last_spell_id,
            final(self).wf_entities(),
            final(self).entities@ == old(self).entities@.update(
                i as int,
                Entity { direction: d, ..old(self).entities@[i as int] },
            ),
    {
        let e = &mut self.entities[i];
        e.set_direction(d);
        proof {
            assert(final(self).entities@ =~= old(self).entities@.update(
                i as int,
                Entity { direction: d, ..old(self).entities@[i as int] },
            ));
        }
    }

    /// One `Destroy` intent of the entity at index `i`: health drops to
    /// zero and the entity is removed at the end of the tick.
    pub fn entity_destroy(&mut self, i: usize) -> (extra: Vec<EntityAction>)
        requires
            old(self).wf_entities(),
            i < old(self).entities@.len(),
        ensures
            final(self).map == old(self).map,
            final(self).arena_number == old(self).arena_number,
            final(self).spells@ == old(self).spells@,
            final(self).last_entity_id == old(self).last_entity_id,
            final(self).last_spell_id == old(self).last_spell_id,
            final(self).wf_entities(),
            final(self).entities@ == old(self).entities@.update(
                i as int,
                Entity { live: 0, ..old(self).entities@[i as int] },
            ),
            extra@.len() == 0,
    {
        let e = &mut self.entities[i];
        e.set_health(0);
        let extra = e.controller.destroy();
        proof {
            assert(final(self).entities@ =~= old(self).entities@.update(
                i as int,
                Entity { live: 0, ..old(self).entities@[i as int] },
            ));
        }
        extra
    }

    /// One `Move` intent of the spell at index `j`. A destroyed spell does
    /// not move. Otherwise the spell advances one cell; outside the map it
    /// is destroyed by the wall; inside, it damages the entity on its cell
    /// once per entity, remembering who was already affected.
    pub fn spell_move(&mut self, j: usize, current_ms: u64)
        requires
            old(self).map.wf(),
            old(self).wf_entities(),
            old(self).wf_spells(),
            j < old(self).spells@.len(),
            valid_tick_time(current_ms),
        ensures
            final(self).map == old(self).map,
            final(self).arena_number == old(self).arena_number,
            final(self).last_entity_id == old(self).last_entity_id,
            final(self).last_spell_id == old(self).last_spell_id,
            final(self).wf_entities(),
            final(self).wf_spells(),
            final(self).entities@.len() == old(self).entities@.len(),
            final(self).spells@.len() == old(self).spells@.len(),
            forall|k: int|
                0 <= k < old(self).spells@.len() && k != j ==> final(self).spells@[k] == old(
                    self,
                ).spells@[k],
            forall|k: int|
                0 <= k < old(self).entities@.len() ==> (#[trigger] final(self).entities@[k]).id
                    == old(self).entities@[k].id && final(self).entities@[k].position == old(
                    self,
                ).entities@[k].position,
            ({
                let sp = old(self).spells@[j as int];
                let newpos = step_target(sp.position, sp.direction);
                let nmt = (current_ms + sp.move_period_ms) as u64;
                if sp.destroyed {
                    final(self).spells@ == old(self).spells@ && final(self).entities@ == old(
                        self,
                    ).entities@
                } else {
                    &&& spell_core_unchanged(final(self).spells@[j as int], sp)
                    &&& final(self).spells@[j as int].position == newpos
                    &&& final(self).spells@[j as int].next_move_time == nmt
                    &&& if !old(self).map.spec_contains(newpos) {
                        &&& final(self).spells@[j as int].destroyed == true
                        &&& final(self).spells@[j as int].affected_entities@
                            == sp.affected_entities@
                        &&& final(self).entities@ == old(self).entities@
                    } else {
                        &&& final(self).spells@[j as int].destroyed == false
                        &&& if exists|k: int|
                            0 <= k < old(self).entities@.len() && (#[trigger] old(
                                self,
                            ).entities@[k]).position == newpos && !sp.affected_entities@.contains(
                                old(self).entities@[k].id,
                            ) {
                            exists|k: int|
                                {
                                    &&& 0 <= k < old(self).entities@.len()
                                    &&& old(self).entities@[k].position == newpos
                                    &&& !sp.affected_entities@.contains(old(self).entities@[k].id)
                                    &&& final(self).entities@ == old(self).entities@.update(
                                        k,
                                        Entity {
                                            live: damaged_live(old(self).entities@[k].live, sp.damage),
                                            ..old(self).entities@[k]
                                        },
                                    )
                                    &&& final(self).spells@[j as int].affected_entities@
                                        == sp.affected_entities@.push(old(self).entities@[k].id)
                                }
                        } else {
                            &&& final(self).entities@ == old(self).entities@
                            &&& final(self).spells@[j as int].affected_entities@
                                == sp.affected_entities@
                        }
                    }
                }
            }),
    {
        if self.spells[j].is_destroyed() {
            return ;
        }
        let ghost sp = self.spells@[j as int];
        {
            let s = &mut self.spells[j];
            s.move_step(current_ms);
        }
        let newpos = self.spells[j].position;
        if self.map.contains(newpos) {
            match self.find_entity_at(newpos) {
                Some(k) => {
                    let target_id = self.entities[k].id;
                    if !self.spells[j].is_affected_entity(target_id) {
                        let damage = self.spells[j].damage;
                        let b = self.spells[j].behaviour;
                        let collision = b.on_entity_collision(&self.entities[k]);
                        if collision.1 {
                            {
                                let e = &mut self.entities[k];
                                e.apply_damage(damage);
                            }
                            {
                                let s = &mut self.spells[j];
                                s.add_affected_entity(target_id);
                            }
                        }
                        proof {
                            assert(old(self).entities@[k as int].position == newpos);
                            assert(final(self).entities@ =~= old(self).entities@.update(
                                k as int,
                                Entity {
                                    live: damaged_live(old(self).entities@[k as int].live, sp.damage),
                                    ..old(self).entities@[k as int]
                                },
                            ));
                        }
                    }
                },
                None => {},
            }
        } else {
            {
                let s = &mut self.spells[j];
                s.destroy();
            }
            let b = self.spells[j].behaviour;
            let _hook = b.on_destroy_by_wall_collision(&self.spells[j]);
        }
    }

    /// One `SetSpeed` intent of the spell at index `j`; the period is
    /// clamped so the scheduler cannot overflow.
    pub fn spell_set_speed(&mut self, j: usize, period_ms: u64)
        requires
            old(self).wf_spells(),
            j < old(self).spells@.len(),
        ensures
            final(self).map == old(self).map,
            final(self).arena_number == old(self).arena_number,
            final(self).entities@ == old(self).entities@,
            final(self).last_entity_id == old(self).last_entity_id,
            final(self).last_spell_id == old(self).last_spell_id,
            final(self).wf_spells(),
            final(self).spells@ == old(self).spells@.update(
                j as int,
                Spell {
                    move_period_ms: if period_ms <= MAX_PERIOD_MS {
                        period_ms
                    } else {
                        MAX_PERIOD_MS
                    },
                    ..old(self).spells@[j as int]
                },
            ),
    {
        let clamped = if period_ms <= MAX_PERIOD_MS {
            period_ms
        } else {
            MAX_PERIOD_MS
        };
        let s = &mut self.spells[j];
        s.set_speed(clamped);
        proof {
            assert(final(self).spells@ =~= old(self).spells@.update(
                j as int,
                Spell { move_period_ms: clamped, ..old(self).spells@[j as int] },
            ));
        }
    }

    /// One `SetDirection` intent of the spell at index `j`.
    pub fn spell_set_direction(&mut self, j: usize, d: crate::util::Direction)
        requires
            old(self).wf_spells(),
            j < old(self).spells@.len(),
        ensures
            final(self).map == old(self).map,
            final(self).arena_number == old(self).arena_number,
            final(self).entities@ == old(self).entities@,
            final(self).last_entity_id == old(self).last_entity_id,
            final(self).last_spell_id == old(self).last_spell_id,
            final(self).wf_spells(),
            final(self).spells@ == old(self).spells@.update(
                j as int,
                Spell { direction: d, ..old(self).spells@[j as int] },
            ),
    {
        let s = &mut self.spells[j];
        s.set_direction(d);
        proof {
            assert(final(self).spells@ =~= old(self).spells@.update(
                j as int,
                Spell { direction: d, ..old(self).spells@[j as int] },
            ));
        }
    }

    /// One `Destroy` intent of the spell at index `j`: the spell is marked
    /// and collected at the start of the next tick.
    pub fn spell_destroy(&mut self, j: usize)
        requires
            old(self).wf_spells(),
            j < old(self).spells@.len(),
        ensures
            final(self).map == old(self).map,
            final(self).arena_number == old(self).arena_number,
            final(self).entities@ == old(self).entities@,
            final(self).last_entity_id == old(self).last_entity_id,
            final(self).last_spell_id == old(self).last_spell_id,
            final(self).wf_spells(),
            final(self).spells@ == old(self).spells@.update(
                j as int,
                Spell { destroyed: true, ..old(self).spells@[j as int] },
            ),
    {
        let s = &mut self.spells[j];
        s.destroy();
        proof {
            assert(final(self).spells@ =~= old(self).spells@.update(
                j as int,
                Spell { destroyed: true, ..old(self).spells@[j as int] },
            ));
        }
    }
}

/// Every spell of `gone` that was not destroyed is still represented in
/// `spells` by a spell with its id.
pub open spec fn live_spell_ids_kept(spells: Seq<Spell>, gone: Seq<Spell>) -> bool {
    forall|j: int|
        #![trigger gone[j]]
        0 <= j < gone.len() && !gone[j].destroyed ==> exists|k: int|
            0 <= k < spells.len() && (#[trigger] spells[k]).id == gone[j].id
}

/// Collection is complete: every undestroyed spell of `s` appears in the
/// collected list.
proof fn lemma_surviving_spells_complete(s: Seq<Spell>)
    ensures
        forall|j: int|
            #![trigger s[j]]
            0 <= j < s.len() && !s[j].destroyed ==> exists|k: int|
                0 <= k < surviving_spells(s).len() && #[trigger] surviving_spells(s)[k] == s[j],
    decreases s.len(),
{
    if s.len() > 0 {
        lemma_surviving_spells_complete(s.drop_first());
        let rest = surviving_spells(s.drop_first());
        assert(forall|j: int|
            0 <= j < s.drop_first().len() ==> #[trigger] s.drop_first()[j] == s[j + 1]);
        assert forall|j: int|
            0 <= j < s.len() && !s[j].destroyed implies exists|k: int|
                0 <= k < surviving_spells(s).len() && #[trigger] surviving_spells(s)[k]
                    == s[j] by {
            if j > 0 {
                assert(s.drop_first()[j - 1] == s[j]);
                assert(!s.drop_first()[j - 1].destroyed);
                assert(exists|w: int|
                    0 <= w < rest.len() && #[trigger] rest[w] == s.drop_first()[j - 1]);
            }
            if !s[0].destroyed {
                assert(surviving_spells(s) =~= seq![s[0]] + rest);
                if j == 0 {
                    assert(surviving_spells(s)[0] == s[0]);
                } else {
                    let w = choose|w: int| 0 <= w < rest.len() && #[trigger] rest[w] == s[j];
                    assert(surviving_spells(s)[w + 1] == s[j]);
                }
            } else {
                assert(surviving_spells(s) =~= rest);
                if j > 0 {
                    let w = choose|w: int| 0 <= w < rest.len() && #[trigger] rest[w] == s[j];
                    assert(surviving_spells(s)[w] == s[j]);
                }
            }
        }
    }
}

/// No spell of `spells` carries the id of a spell that entered the tick
/// destroyed.
pub open spec fn no_ghost_spell_ids(spells: Seq<Spell>, gone: Seq<Spell>) -> bool {
    forall|j: int, k: int|
        #![trigger gone[j], spells[k]]
        0 <= j < gone.len() && 0 <= k < spells.len() && gone[j].destroyed ==> spells[k].id
            != gone[j].id
}

/// The collected spell list keeps every invariant of the input list, drops
/// every destroyed spell, and keeps no id of a destroyed spell.
proof fn lemma_surviving_props(s: Seq<Spell>, last: u64, m: ArenaMap)
    requires
        forall|i: int, j: int|
            0 <= i < j < s.len() ==> (#[trigger] s[i]).id < (#[trigger] s[j]).id,
        forall|i: int| 0 <= i < s.len() ==> 1 <= (#[trigger] s[i]).id <= last,
        forall|i: int|
            0 <= i < s.len() ==> m.spec_contains((#[trigger] s[i]).position) || s[i].destroyed,
        forall|i: int| 0 <= i < s.len() ==> (#[trigger] s[i]).move_period_ms <= MAX_PERIOD_MS,
    ensures
        forall|i: int, j: int|
            0 <= i < j < surviving_spells(s).len() ==> (#[trigger] surviving_spells(s)[i]).id < (
            #[trigger] surviving_spells(s)[j]).id,
        forall|i: int|
            0 <= i < surviving_spells(s).len() ==> 1 <= (#[trigger] surviving_spells(s)[i]).id
                <= last,
        forall|i: int|
            0 <= i < surviving_spells(s).len() ==> !(#[trigger] surviving_spells(s)[i]).destroyed,
        forall|i: int|
            0 <= i < surviving_spells(s).len() ==> m.spec_contains(
                (#[trigger] surviving_spells(s)[i]).position,
            ),
        forall|i: int|
            0 <= i < surviving_spells(s).len() ==> (#[trigger] surviving_spells(
                s,
            )[i]).move_period_ms <= MAX_PERIOD_MS,
        no_ghost_spell_ids(surviving_spells(s), s),
    decreases s.len(),
{
    let surv = surviving_spells(s);
    assert forall|i: int| 0 <= i < surv.len() implies s.contains(#[trigger] surv[i])
        && !surv[i].destroyed by {
        assert(surv.contains(surv[i]));
        lemma_surviving_spells_membership(s, surv[i]);
    }
    assert forall|i: int, j: int| 0 <= i < j < surv.len() implies (#[trigger] surv[i]).id < (
    #[trigger] surv[j]).id by {
        if s.len() > 0 {
            lemma_surviving_props(s.drop_first(), last, m);
            assert(forall|k: int|
                0 <= k < s.drop_first().len() ==> #[trigger] s.drop_first()[k] == s[k + 1]);
            let rest = surviving_spells(s.drop_first());
            if !s[0].destroyed {
                assert(surv =~= seq![s[0]] + rest);
                if i == 0 {
                    assert(rest.contains(surv[j]));
                    lemma_surviving_spells_membership(s.drop_first(), surv[j]);
                    let w = choose|w: int|
                        0 <= w < s.drop_first().len() && s.drop_first()[w] == surv[j];
                    assert(s[w + 1] == surv[j]);
                    assert(s[0].id < s[w + 1].id);
                } else {
                    assert(surv[i] == rest[i - 1] && surv[j] == rest[j - 1]);
                }
            } else {
                assert(surv =~= rest);
            }
        }
    }
    assert forall|i: int| 0 <= i < surv.len() implies 1 <= (#[trigger] surv[i]).id <= last
        && m.spec_contains(surv[i].position) && surv[i].move_period_ms <= MAX_PERIOD_MS by {
        let w = choose|w: int| 0 <= w < s.len() && s[w] == surv[i];
        assert(1 <= s[w].id <= last);
    }
    assert forall|j: int, k: int|
        0 <= j < s.len() && 0 <= k < surv.len() && s[j].destroyed implies surv[k].id
        != s[j].id by {
        let w = choose|w: int| 0 <= w < s.len() && s[w] == surv[k];
        assert(!s[w].destroyed);
        assert(w != j);
        if w < j {
            assert(s[w].id < s[j].id);
        } else {
            assert(s[j].id < s[w].id);
        }
    }
}

/// The filtered entity list keeps every invariant of the input list and
/// holds only living entities.
proof fn lemma_living_props(s: Seq<Entity>, last: u64, m: ArenaMap)
    requires
        forall|i: int, j: int|
            0 <= i < j < s.len() ==> (#[trigger] s[i]).id < (#[trigger] s[j]).id,
        forall|i: int, j: int|
            0 <= i < j < s.len() ==> (#[trigger] s[i]).position != (#[trigger] s[j]).position,
        forall|i: int| 0 <= i < s.len() ==> 1 <= (#[trigger] s[i]).id <= last,
        forall|i: int| 0 <= i < s.len() ==> m.spec_contains((#[trigger] s[i]).position),
        forall|i: int| 0 <= i < s.len() ==> (#[trigger] s[i]).walk_period_ms <= MAX_PERIOD_MS,
    ensures
        forall|i: int, j: int|
            0 <= i < j < living_entities(s).len() ==> (#[trigger] living_entities(s)[i]).id < (
            #[trigger] living_entities(s)[j]).id,
        forall|i: int, j: int|
            0 <= i < j < living_entities(s).len() ==> (#[trigger] living_entities(s)[i]).position
                != (#[trigger] living_entities(s)[j]).position,
        forall|i: int|
            0 <= i < living_entities(s).len() ==> 1 <= (#[trigger] living_entities(s)[i]).id
                <= last,
        forall|i: int|
            0 <= i < living_entities(s).len() ==> m.spec_contains(
                (#[trigger] living_entities(s)[i]).position,
            ),
        forall|i: int|
            0 <= i < living_entities(s).len() ==> (#[trigger] living_entities(
                s,
            )[i]).walk_period_ms <= MAX_PERIOD_MS,
        forall|i: int|
            0 <= i < living_entities(s).len() ==> (#[trigger] living_entities(s)[i]).live > 0,
    decreases s.len(),
{
    let liv = living_entities(s);
    assert forall|i: int| 0 <= i < liv.len() implies s.contains(#[trigger] liv[i])
        && liv[i].live > 0 by {
        assert(liv.contains(liv[i]));
        lemma_living_entities_membership(s, liv[i]);
    }
    assert forall|i: int, j: int| 0 <= i < j < liv.len() implies (#[trigger] liv[i]).id < (
    #[trigger] liv[j]).id && liv[i].position != liv[j].position by {
        if s.len() > 0 {
            lemma_living_props(s.drop_first(), last, m);
            assert(forall|k: int|
                0 <= k < s.drop_first().len() ==> #[trigger] s.drop_first()[k] == s[k + 1]);
            let rest = living_entities(s.drop_first());
            if s[0].live > 0 {
                assert(liv =~= seq![s[0]] + rest);
                if i == 0 {
                    assert(rest.contains(liv[j]));
                    lemma_living_entities_membership(s.drop_first(), liv[j]);
                    let w = choose|w: int|
                        0 <= w < s.drop_first().len() && s.drop_first()[w] == liv[j];
                    assert(s[w + 1] == liv[j]);
                    assert(s[0].id < s[w + 1].id);
                    assert(s[0].position != s[w + 1].position);
                } else {
                    assert(liv[i] == rest[i - 1] && liv[j] == rest[j - 1]);
                }
            } else {
                assert(liv =~= rest);
            }
        }
    }
    assert forall|i: int| 0 <= i < liv.len() implies 1 <= (#[trigger] liv[i]).id <= last
        && m.spec_contains(liv[i].position) && liv[i].walk_period_ms <= MAX_PERIOD_MS by {
        let w = choose|w: int| 0 <= w < s.len() && s[w] == liv[i];
        assert(1 <= s[w].id <= last);
    }
}

impl Arena {
    /// Removes the spells destroyed during the previous tick, keeping
    /// the rest in order.
    fn collect_destroyed_spells(&mut self)
        requires
            old(self).wf_spells(),
        ensures
            final(self).map == old(self).map,
            final(self).arena_number == old(self).arena_number,
            final(self).entities@ == old(self).entities@,
            final(self).last_entity_id == old(self).last_entity_id,
            final(self).last_spell_id == old(self).last_spell_id,
            final(self).spells@ == surviving_spells(old(self).spells@),
    {
        let ghost orig = self.spells@;
        let mut i: usize = 0;
        let ghost mut c: int = 0int;
        while i < self.spells.len()
            invariant
                0 <= c <= orig.len(),
                i as int == surviving_spells(orig.take(c)).len(),
                self.spells@ == surviving_spells(orig.take(c)) + orig.skip(c),
                self.map == old(self).map,
                self.arena_number == old(self).arena_number,
                self.entities@ == old(self).entities@,
                self.last_entity_id == old(self).last_entity_id,
                self.last_spell_id == old(self).last_spell_id,
            decreases orig.len() - c,
        {
            proof {
                lemma_surviving_spells_take(orig, c);
                assert(orig.skip(c).len() > 0);
                assert(self.spells@[i as int] == orig.skip(c)[0]);
                assert(orig.skip(c)[0] == orig[c]);
            }
            if self.spells[i].is_destroyed() {
                self.spells.remove(i);
                proof {
                    c = c + 1;
                    assert(self.spells@ =~= surviving_spells(orig.take(c)) + orig.skip(c));
                }
            } else {
                i += 1;
                proof {
                    c = c + 1;
                    assert(self.spells@ =~= surviving_spells(orig.take(c)) + orig.skip(c));
                }
            }
        }
        proof {
            assert(c == orig.len());
            assert(orig.take(c) =~= orig);
            assert(self.spells@ =~= surviving_spells(orig));
        }
    }

    /// Removes the entities whose health reached zero during the tick,
    /// keeping the rest in order.
    fn remove_dead_entities(&mut self)
        requires
            old(self).wf_entities(),
        ensures
            final(self).map == old(self).map,
            final(self).arena_number == old(self).arena_number,
            final(self).spells@ == old(self).spells@,
            final(self).last_entity_id == old(self).last_entity_id,
            final(self).last_spell_id == old(self).last_spell_id,
            final(self).entities@ == living_entities(old(self).entities@),
    {
        let ghost orig = self.entities@;
        let mut i: usize = 0;
        let ghost mut c: int = 0int;
        while i < self.entities.len()
            invariant
                0 <= c <= orig.len(),
                i as int == living_entities(orig.take(c)).len(),
                self.entities@ == living_entities(orig.take(c)) + orig.skip(c),
                self.map == old(self).map,
                self.arena_number == old(self).arena_number,
                self.spells@ == old(self).spells@,
                self.last_entity_id == old(self).last_entity_id,
                self.last_spell_id == old(self).last_spell_id,
            decreases orig.len() - c,
        {
            proof {
                lemma_living_entities_take(orig, c);
                assert(orig.skip(c).len() > 0);
                assert(self.entities@[i as int] == orig.skip(c)[0]);
                assert(orig.skip(c)[0] == orig[c]);
            }
            if self.entities[i].is_alive() {
                i += 1;
                proof {
                    c = c + 1;
                    assert(self.entities@ =~= living_entities(orig.take(c)) + orig.skip(c));
                }
            } else {
                self.entities.remove(i);
                proof {
                    c = c + 1;
                    assert(self.entities@ =~= living_entities(orig.take(c)) + orig.skip(c));
                }
            }
        }
        proof {
            assert(c == orig.len());
            assert(orig.take(c) =~= orig);
            assert(self.entities@ =~= living_entities(orig));
        }
    }

    /// A spell's `Cast` intent: a child spell fired from the parent's cell
    /// in the parent's direction, owned by the parent's caster. A
    /// destroyed parent casts nothing.
    pub fn spell_cast_child(&mut self, j: usize, spec_id: SpellSpecId)
        requires
            old(self).map.wf(),
            old(self).wf_spells(),
            j < old(self).spells@.len(),
        ensures
            final(self).map == old(self).map,
            final(self).arena_number == old(self).arena_number,
            final(self).entities@ == old(self).entities@,
            final(self).last_entity_id == old(self).last_entity_id,
            final(self).last_spell_id >= old(self).last_spell_id,
            final(self).wf_spells(),
            final(self).spells@.len() >= old(self).spells@.len(),
            forall|k: int|
                0 <= k < old(self).spells@.len() ==> final(self).spells@[k] == old(
                    self,
                ).spells@[k],
            forall|k: int|
                old(self).spells@.len() <= k < final(self).spells@.len() ==> (#[trigger] final(self).spells@[k]).id > old(self).last_spell_id,
    {
        let parent_destroyed = self.spells[j].is_destroyed();
        if parent_destroyed || self.last_spell_id == u64::MAX {
            return ;
        }
        let id = self.last_spell_id + 1;
        let stats = crate::spell::spell_stats(spec_id);
        let child = Spell {
            id,
            spec_id,
            owner_id: self.spells[j].owner_id,
            position: self.spells[j].position,
            direction: self.spells[j].direction,
            move_period_ms: stats.0,
            next_move_time: 0,
            damage: stats.1,
            affected_entities: Vec::new(),
            destroyed: false,
            behaviour: self.spells[j].behaviour,
        };
        self.last_spell_id = id;
        self.spells.push(child);
    }

    /// A spell's `Create` intent: a new entity from the seed, created only
    /// when its cell is passable and free and the seed is viable.
    pub fn spell_create_entity(&mut self, seed: crate::spell::EntitySeed)
        requires
            old(self).map.wf(),
            old(self).wf_entities(),
        ensures
            final(self).map == old(self).map,
            final(self).arena_number == old(self).arena_number,
            final(self).spells@ == old(self).spells@,
            final(self).last_spell_id == old(self).last_spell_id,
            final(self).last_entity_id >= old(self).last_entity_id,
            final(self).wf_entities(),
            final(self).entities@.len() >= old(self).entities@.len(),
            forall|k: int|
                0 <= k < old(self).entities@.len() ==> final(self).entities@[k] == old(
                    self,
                ).entities@[k],
            forall|k: int|
                old(self).entities@.len() <= k < final(self).entities@.len() ==> (#[trigger] final(self).entities@[k]).live > 0
                    && final(self).entities@[k].controller.pending@.len() == 0,
    {
        if !self.map.contains(seed.position) {
            return ;
        }
        match self.find_entity_at(seed.position) {
            Some(_) => {
                return ;
            },
            None => {},
        }
        if seed.character.max_live == 0 || seed.character.walk_period_ms > MAX_PERIOD_MS
            || self.last_entity_id == u64::MAX {
            return ;
        }
        let id = self.last_entity_id + 1;
        let entity = Entity::new(id, seed.character, seed.position);
        self.last_entity_id = id;
        self.entities.push(entity);
    }
}

impl Arena {
    /// One tick. Destroyed spells of the previous tick are collected
    /// first, so a spell that entered the tick destroyed is absent at its
    /// end and its id is never seen again, while every other spell
    /// survives under its id. Every entity's queued intents are then
    /// processed in FIFO order, every spell acts in insertion order
    /// (spells cast this tick included), and entities without health are
    /// removed last, so that between ticks every entity is alive and
    /// keeps a passable cell of its own. The contract below carries the
    /// collection and the invariants; the exact effect of each processed
    /// intent is the contract of the function that performs it
    /// (`entity_walk`, `entity_set_direction`, `create_spell`,
    /// `entity_destroy`, `spell_move`).
    #[verifier::rlimit(60)]
    pub fn update(&mut self, current_ms: u64)
        requires
            old(self).wf(),
            valid_tick_time(current_ms),
        ensures
            final(self).wf(),
            final(self).map == old(self).map,
            final(self).arena_number == old(self).arena_number,
            final(self).last_entity_id >= old(self).last_entity_id,
            final(self).last_spell_id >= old(self).last_spell_id,
            forall|i: int|
                0 <= i < final(self).entities@.len() ==> (#[trigger] final(self).entities@[i]).live > 0,
            no_ghost_spell_ids(final(self).spells@, old(self).spells@),
            live_spell_ids_kept(final(self).spells@, old(self).spells@),
            // Every queued intent was consumed: controllers end the tick
            // with empty queues.
            forall|i: int|
                0 <= i < final(self).entities@.len()
                    ==> (#[trigger] final(self).entities@[i]).controller.pending@.len() == 0,
    {
        let ghost gone = self.spells@;
        self.collect_destroyed_spells();
        proof {
            lemma_surviving_props(gone, old(self).last_spell_id, old(self).map);
            lemma_surviving_spells_complete(gone);
            assert forall|j: int|
                0 <= j < gone.len() && !(#[trigger] gone[j]).destroyed implies exists|k: int|
                0 <= k < self.spells@.len() && (#[trigger] self.spells@[k]).id == gone[j].id by {
                let w = choose|w: int|
                    0 <= w < surviving_spells(gone).len() && #[trigger] surviving_spells(gone)[w]
                        == gone[j];
                assert(self.spells@[w].id == gone[j].id);
            }
        }
        // Entity phase: drain and process each controller's intents.
        let entity_count = self.entities.len();
        let mut i: usize = 0;
        while i < entity_count
            invariant
                i <= entity_count,
                forall|k: int|
                    0 <= k < i ==> (#[trigger] self.entities@[k]).controller.pending@.len() == 0,
                valid_tick_time(current_ms),
                self.map == old(self).map,
                self.arena_number == old(self).arena_number,
                self.wf_entities(),
                self.wf_spells(),
                self.entities@.len() == entity_count,
                self.last_entity_id == old(self).last_entity_id,
                self.last_spell_id >= old(self).last_spell_id,
                no_ghost_spell_ids(self.spells@, gone),
                live_spell_ids_kept(self.spells@, gone),
                forall|j: int| 0 <= j < gone.len() ==> (#[trigger] gone[j]).id <= old(self).last_spell_id,
            decreases entity_count - i,
        {
            let mut queue: Vec<EntityAction>;
            {
                let e = &mut self.entities[i];
                queue = e.controller.drain();
            }
            let mut qi: usize = 0;
            while qi < queue.len()
                invariant
                    qi <= queue.len(),
                    i < entity_count,
                    forall|k: int|
                        0 <= k <= i ==> (#[trigger] self.entities@[k]).controller.pending@.len()
                            == 0,
                    valid_tick_time(current_ms),
                    self.map == old(self).map,
                    self.arena_number == old(self).arena_number,
                    self.wf_entities(),
                    self.wf_spells(),
                    self.entities@.len() == entity_count,
                    self.last_entity_id == old(self).last_entity_id,
                    self.last_spell_id >= old(self).last_spell_id,
                    no_ghost_spell_ids(self.spells@, gone),
                live_spell_ids_kept(self.spells@, gone),
                    forall|j: int| 0 <= j < gone.len() ==> (#[trigger] gone[j]).id <= old(self).last_spell_id,
                decreases queue.len() - qi,
            {
                let ghost spells_before = self.spells@;
                let ghost last_before = self.last_spell_id;
                let action = queue[qi];
                match action {
                    EntityAction::Walk(d) => {
                        self.entity_walk(i, d, current_ms);
                    },
                    EntityAction::SetDirection(d) => {
                        self.entity_set_direction(i, d);
                    },
                    EntityAction::Cast(spec_id) => {
                        let _created = self.create_spell(spec_id, i);
                    },
                    EntityAction::Destroy => {
                        let mut extra = self.entity_destroy(i);
                        queue.append(&mut extra);
                    },
                }
                proof {
                    assert forall|j: int, k: int|
                        0 <= j < gone.len() && 0 <= k < self.spells@.len() && gone[j].destroyed
                        implies self.spells@[k].id != gone[j].id by {
                        if k < spells_before.len() {
                            assert(self.spells@[k] == spells_before[k]);
                        } else {
                            assert(self.spells@[k].id > last_before);
                        }
                    }
                    assert forall|j: int|
                        0 <= j < gone.len() && !(#[trigger] gone[j]).destroyed implies exists|
                        k: int,
                    |
                        0 <= k < self.spells@.len() && (#[trigger] self.spells@[k]).id
                            == gone[j].id by {
                        let w = choose|w: int|
                            0 <= w < spells_before.len() && (#[trigger] spells_before[w]).id
                                == gone[j].id;
                        assert(self.spells@[w] == spells_before[w]);
                    }
                }
                qi += 1;
            }
            i += 1;
        }
        // Spell phase: each spell present at the start of the phase acts.
        let spell_count = self.spells.len();
        let mut j: usize = 0;
        while j < spell_count
            invariant
                j <= spell_count,
                forall|k: int|
                    0 <= k < self.entities@.len() ==> (#[trigger] self.entities@[k]).controller.pending@.len() == 0,
                valid_tick_time(current_ms),
                self.map == old(self).map,
                self.arena_number == old(self).arena_number,
                self.wf_entities(),
                self.wf_spells(),
                spell_count <= self.spells@.len(),
                self.last_entity_id >= old(self).last_entity_id,
                self.last_spell_id >= old(self).last_spell_id,
                no_ghost_spell_ids(self.spells@, gone),
                live_spell_ids_kept(self.spells@, gone),
                forall|j2: int| 0 <= j2 < gone.len() ==> (#[trigger] gone[j2]).id <= old(self).last_spell_id,
            decreases spell_count - j,
        {
            let b = self.spells[j].behaviour;
            let mut queue: Vec<SpellAction> = b.on_update(&self.spells[j], current_ms);
            let mut qi: usize = 0;
            while qi < queue.len()
                invariant
                    qi <= queue.len(),
                    j < spell_count,
                    forall|k: int|
                        0 <= k < self.entities@.len() ==> (#[trigger] self.entities@[k]).controller.pending@.len() == 0,
                    valid_tick_time(current_ms),
                    self.map == old(self).map,
                    self.arena_number == old(self).arena_number,
                    self.wf_entities(),
                    self.wf_spells(),
                    spell_count <= self.spells@.len(),
                    self.last_entity_id >= old(self).last_entity_id,
                    self.last_spell_id >= old(self).last_spell_id,
                    no_ghost_spell_ids(self.spells@, gone),
                live_spell_ids_kept(self.spells@, gone),
                    forall|j2: int| 0 <= j2 < gone.len() ==> (#[trigger] gone[j2]).id <= old(self).last_spell_id,
                decreases queue.len() - qi,
            {
                let ghost spells_before = self.spells@;
                let ghost last_before = self.last_spell_id;
                let action = queue[qi];
                match action {
                    SpellAction::Move => {
                        self.spell_move(j, current_ms);
                    },
                    SpellAction::SetSpeed(v) => {
                        self.spell_set_speed(j, v);
                    },
                    SpellAction::SetDirection(d) => {
                        self.spell_set_direction(j, d);
                    },
                    SpellAction::Cast(spec_id) => {
                        self.spell_cast_child(j, spec_id);
                    },
                    SpellAction::Create(seed) => {
                        self.spell_create_entity(seed);
                    },
                    SpellAction::Destroy => {
                        self.spell_destroy(j);
                    },
                }
                proof {
                    assert forall|j2: int, k: int|
                        0 <= j2 < gone.len() && 0 <= k < self.spells@.len() && gone[j2].destroyed
                        implies self.spells@[k].id != gone[j2].id by {
                        if k < spells_before.len() {
                            assert(self.spells@[k].id == spells_before[k].id);
                        } else {
                            assert(self.spells@[k].id > last_before);
                        }
                    }
                    assert forall|j2: int|
                        0 <= j2 < gone.len() && !(#[trigger] gone[j2]).destroyed implies exists|
                        k: int,
                    |
                        0 <= k < self.spells@.len() && (#[trigger] self.spells@[k]).id
                            == gone[j2].id by {
                        let w = choose|w: int|
                            0 <= w < spells_before.len() && (#[trigger] spells_before[w]).id
                                == gone[j2].id;
                        assert(self.spells@[w].id == spells_before[w].id);
                    }
                }
                qi += 1;
            }
            j += 1;
        }
        // Removal phase: entities without health leave the arena.
        let ghost before_removal = self.entities@;
        self.remove_dead_entities();
        proof {
            lemma_living_props(before_removal, self.last_entity_id, self.map);
            assert forall|i2: int|
                0 <= i2 < self.entities@.len() implies (#[trigger] self.entities@[i2]).controller.pending@.len()
                == 0 by {
                assert(living_entities(before_removal).contains(self.entities@[i2]));
                lemma_living_entities_membership(before_removal, self.entities@[i2]);
                let w = choose|w: int|
                    0 <= w < before_removal.len() && before_removal[w] == self.entities@[i2];
                assert(before_removal[w].controller.pending@.len() == 0);
            }
        }
    }
}

impl Arena {
    /// Queues one intent on the controller of the entity at index `i`;
    /// the next tick drains it.
    pub fn enqueue_entity_action(&mut self, i: usize, action: EntityAction)
        requires
            old(self).wf_entities(),
            i < old(self).entities@.len(),
        ensures
            final(self).map == old(self).map,
            final(self).arena_number == old(self).arena_number,
            final(self).spells@ == old(self).spells@,
            final(self).last_entity_id == old(self).last_entity_id,
            final(self).last_spell_id == old(self).last_spell_id,
            final(self).wf_entities(),
            old(self).wf() ==> final(self).wf(),
            final(self).entities@ == old(self).entities@.update(
                i as int,
                Entity {
                    controller: Controller {
                        pending: final(self).entities@[i as int].controller.pending,
                    },
                    ..old(self).entities@[i as int]
                },
            ),
            final(self).entities@[i as int].controller.pending@ == old(self).entities@[
                i as int
            ].controller.pending@.push(action),
    {
        let e = &mut self.entities[i];
        e.controller.push(action);
        proof {
            assert(final(self).entities@ =~= old(self).entities@.update(
                i as int,
                Entity {
                    controller: Controller {
                        pending: final(self).entities@[i as int].controller.pending,
                    },
                    ..old(self).entities@[i as int]
                },
            ));
        }
    }
}

} // verus!
