//! A player-controlled entity on the arena grid, together with its
//! controller: a queue of pending intents filled from player input and
//! drained once per tick by the simulator.

use vstd::prelude::*;

verus! {

use crate::character::Character;
use crate::ids::EntityId;
use crate::ids::SpellSpecId;
use crate::util::Direction;
use crate::util::Vec2;

/// An intent produced by a controller; the simulator is the only mutator.
#[derive(Clone, Copy, PartialEq, Eq, Structural, Debug)]
pub enum EntityAction {
    Walk(Direction),
    SetDirection(Direction),
    Cast(SpellSpecId),
    Destroy,
}

/// The capability object that produces an entity's intents: a FIFO queue of
/// actions fed by player input. It never mutates the arena itself.
#[derive(Clone, PartialEq, Eq, Debug)]
pub struct Controller {
    pub pending: Vec<EntityAction>,
}

impl Controller {
    pub fn new() -> (r: Controller)
        ensures
            r.pending@ =~= Seq::<EntityAction>::empty(),
    {
        Controller { pending: Vec::new() }
    }

    /// Queues one intent for the next tick.
    pub fn push(&mut self, action: EntityAction)
        ensures
            final(self).pending@ == old(self).pending@.push(action),
    {
        self.pending.push(action);
    }

    /// Hands the queued intents to the simulator and clears the queue.
    pub fn drain(&mut self) -> (r: Vec<EntityAction>)
        ensures
            r@ == old(self).pending@,
            final(self).pending@ =~= Seq::<EntityAction>::empty(),
    {
        let mut out: Vec<EntityAction> = Vec::new();
        core::mem::swap(&mut out, &mut self.pending);
        out
    }

    /// Teardown intents issued when the entity is destroyed.
    pub fn destroy(&self) -> (r: Vec<EntityAction>)
        ensures
            r@ =~= Seq::<EntityAction>::empty(),
    {
        Vec::new()
    }
}

pub struct Entity {
    pub id: EntityId,
    pub character: Character,
    pub direction: Direction,
    pub position: Vec2,
    pub live: usize,
    pub energy: usize,
    pub walk_period_ms: u64,
    pub next_walk_time: u64,
    pub controller: Controller,
}

impl Entity {
    pub fn new(id: EntityId, character: Character, position: Vec2) -> (r: Entity)
        ensures
            r.id == id,
            r.character == character,
            r.position == position,
            r.direction == Direction::Down,
            r.live == character.max_live,
            r.energy == character.max_energy,
            r.walk_period_ms == character.walk_period_ms,
            r.next_walk_time == 0,
            r.controller.pending@ =~= Seq::<EntityAction>::empty(),
    {
        Entity {
            id,
            position,
            direction: Direction::Down,
            live: character.max_live,
            energy: character.max_energy,
            walk_period_ms: character.walk_period_ms,
            next_walk_time: 0,
            controller: Controller::new(),
            character,
        }
    }

    pub fn id(&self) -> (r: EntityId)
        ensures
            r == self.id,
    {
        self.id
    }

    pub fn character(&self) -> (r: &Character)
        ensures
            r == self.character,
    {
        &self.character
    }

    pub fn live(&self) -> (r: usize)
        ensures
            r == self.live,
    {
        self.live
    }

    pub fn energy(&self) -> (r: usize)
        ensures
            r == self.energy,
    {
        self.energy
    }

    pub fn position(&self) -> (r: Vec2)
        ensures
            r == self.position,
    {
        self.position
    }

    pub fn direction(&self) -> (r: Direction)
        ensures
            r == self.direction,
    {
        self.direction
    }

    pub open spec fn spec_is_alive(self) -> bool {
        self.live > 0
    }

    pub fn is_alive(&self) -> (r: bool)
        ensures
            r == self.spec_is_alive(),
    {
        self.live > 0
    }

    pub fn set_position(&mut self, position: Vec2)
        ensures
            *final(self) == (Entity { position, ..*old(self) }),
    {
        self.position = position;
    }

    /// Moves by `displacement` without any checks; the simulator guards
    /// the target cell.
    pub fn displace(&mut self, displacement: Vec2)
        requires
            -65536 <= old(self).position.x + displacement.x <= 65536,
            -65536 <= old(self).position.y + displacement.y <= 65536,
        ensures
            *final(self) == (Entity {
                position: Vec2 {
                    x: (old(self).position.x + displacement.x) as i64,
                    y: (old(self).position.y + displacement.y) as i64,
                },
                ..*old(self)
            }),
    {
        self.position = Vec2 { x: self.position.x + displacement.x, y: self.position.y + displacement.y };
    }

    /// Whether a walk issued at `current_ms` is allowed by the walking
    /// rate limit.
    pub open spec fn spec_can_walk(self, current_ms: u64) -> bool {
        current_ms > self.next_walk_time
    }

    /// One rate-limited step: before `next_walk_time` the walk is rejected
    /// and nothing changes; otherwise the position advances one cell in
    /// `direction` and the next walk is scheduled one period later.
    pub fn walk(&mut self, direction: Direction, current_ms: u64) -> (r: bool)
        requires
            -65536 <= old(self).position.x + direction.spec_vec2().x <= 65536,
            -65536 <= old(self).position.y + direction.spec_vec2().y <= 65536,
            current_ms + old(self).walk_period_ms <= u64::MAX,
        ensures
            r == old(self).spec_can_walk(current_ms),
            r ==> *final(self) == (Entity {
                position: Vec2 {
                    x: (old(self).position.x + direction.spec_vec2().x) as i64,
                    y: (old(self).position.y + direction.spec_vec2().y) as i64,
                },
                next_walk_time: (current_ms + old(self).walk_period_ms) as u64,
                ..*old(self)
            }),
            !r ==> *final(self) == *old(self),
    {
        if current_ms > self.next_walk_time {
            let step = direction.vec2();
            self.position = Vec2 { x: self.position.x + step.x, y: self.position.y + step.y };
            self.next_walk_time = current_ms + self.walk_period_ms;
            true
        } else {
            false
        }
    }

    pub fn set_direction(&mut self, direction: Direction)
        ensures
            *final(self) == (Entity { direction, ..*old(self) }),
    {
        self.direction = direction;
    }

    /// Removes `amount` health, stopping at zero.
    pub fn apply_damage(&mut self, amount: usize)
        ensures
            *final(self) == (Entity {
                live: if old(self).live >= amount {
                    (old(self).live - amount) as usize
                } else {
                    0
                },
                ..*old(self)
            }),
    {
        if self.live >= amount {
            self.live = self.live - amount;
        } else {
            self.live = 0;
        }
    }

    /// Sets health directly; `0` marks the entity for removal at the end
    /// of the tick.
    pub fn set_health(&mut self, live: usize)
        ensures
            *final(self) == (Entity { live, ..*old(self) }),
    {
        self.live = live;
    }
}

} // verus!
