//! The immutable character template shared by the entities of one player:
//! display symbol, stat maxima and walking speed, given as the number of
//! milliseconds between two steps.

use vstd::prelude::*;

verus! {

#[derive(Clone, Copy, PartialEq, Eq, Structural, Debug, Hash)]
pub enum CharacterId {
    Player(char),
}

#[derive(Clone, Copy, PartialEq, Eq, Structural, Debug)]
pub struct Character {
    pub id: CharacterId,
    pub symbol: char,
    pub max_live: usize,
    pub max_energy: usize,
    pub walk_period_ms: u64,
}

impl Character {
    pub fn new(
        id: CharacterId,
        symbol: char,
        max_live: usize,
        max_energy: usize,
        walk_period_ms: u64,
    ) -> (r: Character)
        ensures
            r == (Character { id, symbol, max_live, max_energy, walk_period_ms }),
    {
        Character { id, symbol, max_live, max_energy, walk_period_ms }
    }

    pub fn id(&self) -> (r: CharacterId)
        ensures
            r == self.id,
    {
        self.id
    }

    pub fn symbol(&self) -> (r: char)
        ensures
            r == self.symbol,
    {
        self.symbol
    }

    pub fn max_live(&self) -> (r: usize)
        ensures
            r == self.max_live,
    {
        self.max_live
    }

    pub fn max_energy(&self) -> (r: usize)
        ensures
            r == self.max_energy,
    {
        self.max_energy
    }

    /// Milliseconds between two steps of an entity of this character; the
    /// integer form of the character's base speed.
    pub fn walk_period_ms(&self) -> (r: u64)
        ensures
            r == self.walk_period_ms,
    {
        self.walk_period_ms
    }
}

} // verus!
