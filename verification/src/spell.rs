//! A transient projectile owned by an entity, together with its behaviour:
//! the capability object that produces the spell's intents and its
//! collision reactions. The simulator is the only mutator.

use vstd::prelude::*;

verus! {

use crate::character::Character;
use crate::entity::Entity;
use crate::ids::EntityId;
use crate::ids::SpellId;
use crate::ids::SpellSpecId;
use crate::util::Direction;
use crate::util::Vec2;

/// A new entity requested by a spell behaviour.
#[derive(Clone, Copy, PartialEq, Eq, Structural, Debug)]
pub struct EntitySeed {
    pub character: Character,
    pub position: Vec2,
}

/// An intent produced by a spell behaviour.
#[derive(Clone, Copy, PartialEq, Eq, Structural, Debug)]
pub enum SpellAction {
    Move,
    SetSpeed(u64),
    SetDirection(Direction),
    Cast(SpellSpecId),
    Create(EntitySeed),
    Destroy,
}

/// The behaviour kinds a spell can carry. A `Projectile` moves one cell in
/// its direction whenever its move period has elapsed, damages each entity
/// at most once and dies on the border wall.
#[derive(Clone, Copy, PartialEq, Eq, Structural, Debug)]
pub enum Behaviour {
    Projectile,
}

impl Behaviour {
    /// The intents of this behaviour at `current_ms`.
    pub open spec fn spec_on_update(self, spell: Spell, current_ms: u64) -> Seq<SpellAction> {
        if current_ms >= spell.next_move_time {
            seq![SpellAction::Move]
        } else {
            Seq::empty()
        }
    }

    pub fn on_update(&self, spell: &Spell, current_ms: u64) -> (r: Vec<SpellAction>)
        ensures
            r@ == self.spec_on_update(*spell, current_ms),
    {
        let mut r: Vec<SpellAction> = Vec::new();
        if current_ms >= spell.next_move_time {
            r.push(SpellAction::Move);
        }
        proof {
            if current_ms >= spell.next_move_time {
                assert(r@ =~= seq![SpellAction::Move]);
            } else {
                assert(r@ =~= Seq::<SpellAction>::empty());
            }
        }
        r
    }

    /// Reaction to reaching an entity's cell: extra intents and whether
    /// the entity is affected (damaged and remembered).
    pub fn on_entity_collision(&self, _entity: &Entity) -> (r: (Vec<SpellAction>, bool))
        ensures
            r.0@ =~= Seq::<SpellAction>::empty(),
            r.1 == true,
    {
        (Vec::new(), true)
    }

    /// Reaction to leaving the map: extra intents after the wall destroys
    /// the spell.
    pub fn on_destroy_by_wall_collision(&self, _spell: &Spell) -> (r: Vec<SpellAction>)
        ensures
            r@ =~= Seq::<SpellAction>::empty(),
    {
        Vec::new()
    }
}

/// The stats a spell of spec `spec_id` is created with: milliseconds
/// between moves and damage per hit.
pub open spec fn spec_spell_stats(spec_id: SpellSpecId) -> (u64, usize) {
    (33u64, 2usize)
}

pub fn spell_stats(spec_id: SpellSpecId) -> (r: (u64, usize))
    ensures
        r == spec_spell_stats(spec_id),
{
    (33, 2)
}

pub struct Spell {
    pub id: SpellId,
    pub spec_id: SpellSpecId,
    pub owner_id: EntityId,
    pub position: Vec2,
    pub direction: Direction,
    pub move_period_ms: u64,
    pub next_move_time: u64,
    pub damage: usize,
    pub affected_entities: Vec<EntityId>,
    pub destroyed: bool,
    pub behaviour: Behaviour,
}

impl Spell {
    /// A spell fired by `entity`: it starts on the caster's cell, keeps
    /// the caster's facing and takes its stats from the spec table.
    pub fn new(id: SpellId, spec_id: SpellSpecId, entity: &Entity) -> (r: Spell)
        ensures
            r.id == id,
            r.spec_id == spec_id,
            r.owner_id == entity.id,
            r.position == entity.position,
            r.direction == entity.direction,
            r.move_period_ms == spec_spell_stats(spec_id).0,
            r.next_move_time == 0,
            r.damage == spec_spell_stats(spec_id).1,
            r.affected_entities@ =~= Seq::<EntityId>::empty(),
            r.destroyed == false,
            r.behaviour == Behaviour::Projectile,
    {
        let stats = spell_stats(spec_id);
        Spell {
            id,
            spec_id,
            owner_id: entity.id(),
            position: entity.position(),
            direction: entity.direction(),
            move_period_ms: stats.0,
            next_move_time: 0,
            damage: stats.1,
            affected_entities: Vec::new(),
            destroyed: false,
            behaviour: Behaviour::Projectile,
        }
    }

    pub fn id(&self) -> (r: SpellId)
        ensures
            r == self.id,
    {
        self.id
    }

    pub fn position(&self) -> (r: Vec2)
        ensures
            r == self.position,
    {
        self.position
    }

    pub fn damage(&self) -> (r: usize)
        ensures
            r == self.damage,
    {
        self.damage
    }

    pub fn behaviour(&self) -> (r: Behaviour)
        ensures
            r == self.behaviour,
    {
        self.behaviour
    }

    pub open spec fn spec_is_destroyed(self) -> bool {
        self.destroyed
    }

    pub fn is_destroyed(&self) -> (r: bool)
        ensures
            r == self.destroyed,
    {
        self.destroyed
    }

    /// Whether this spell has already affected entity `id`.
    pub open spec fn spec_is_affected_entity(self, id: EntityId) -> bool {
        self.affected_entities@.contains(id)
    }

    pub fn is_affected_entity(&self, id: EntityId) -> (r: bool)
        ensures
            r == self.spec_is_affected_entity(id),
    {
        let mut i: usize = 0;
        while i < self.affected_entities.len()
            invariant
                i <= self.affected_entities@.len(),
                forall|k: int| 0 <= k < i ==> self.affected_entities@[k] != id,
            decreases self.affected_entities@.len() - i,
        {
            if self.affected_entities[i] == id {
                return true;
            }
            i += 1;
        }
        false
    }

    pub fn add_affected_entity(&mut self, id: EntityId)
        ensures
            final(self).affected_entities@ == old(self).affected_entities@.push(id),
            *final(self) == (Spell {
                affected_entities: final(self).affected_entities,
                ..*old(self)
            }),
    {
        self.affected_entities.push(id);
    }

    /// One movement step: advances one cell in the current direction and
    /// schedules the next move one period later.
    pub fn move_step(&mut self, current_ms: u64)
        requires
            -65536 <= old(self).position.x + old(self).direction.spec_vec2().x <= 65536,
            -65536 <= old(self).position.y + old(self).direction.spec_vec2().y <= 65536,
            current_ms + old(self).move_period_ms <= u64::MAX,
        ensures
            *final(self) == (Spell {
                position: Vec2 {
                    x: (old(self).position.x + old(self).direction.spec_vec2().x) as i64,
                    y: (old(self).position.y + old(self).direction.spec_vec2().y) as i64,
                },
                next_move_time: (current_ms + old(self).move_period_ms) as u64,
                ..*old(self)
            }),
    {
        let step = self.direction.vec2();
        self.position = Vec2 { x: self.position.x + step.x, y: self.position.y + step.y };
        self.next_move_time = current_ms + self.move_period_ms;
    }

    pub fn set_speed(&mut self, move_period_ms: u64)
        ensures
            *final(self) == (Spell { move_period_ms, ..*old(self) }),
    {
        self.move_period_ms = move_period_ms;
    }

    pub fn set_direction(&mut self, direction: Direction)
        ensures
            *final(self) == (Spell { direction, ..*old(self) }),
    {
        self.direction = direction;
    }

    /// Marks the spell for removal at the start of the next tick.
    pub fn destroy(&mut self)
        ensures
            *final(self) == (Spell { destroyed: true, ..*old(self) }),
    {
        self.destroyed = true;
    }
}

} // verus!
