//! A game: a fixed set of players playing a sequence of arenas until one
//! of them accumulates `winner_points` points. Each arena spawns one
//! entity per player; the last surviving entity's player scores.

#![verifier::loop_isolation(false)]

use vstd::prelude::*;

verus! {

use crate::arena::Arena;
use crate::arena::valid_tick_time;
use crate::character::Character;
use crate::character::CharacterId;

/// The walking period of every player character, in milliseconds.
pub const PLAYER_WALK_PERIOD_MS: u64 = 250;

/// The character template of the player named by the letter `name`.
pub fn character_for(name: u8) -> (r: Character)
    ensures
        r.id == CharacterId::Player(name as char),
        r.max_live == 10,
        r.max_energy == 10,
        r.walk_period_ms == PLAYER_WALK_PERIOD_MS,
        r.walk_period_ms <= crate::arena::MAX_PERIOD_MS,
        r.max_live > 0,
{
    Character {
        id: CharacterId::Player(name as char),
        symbol: name as char,
        max_live: 10,
        max_energy: 10,
        walk_period_ms: PLAYER_WALK_PERIOD_MS,
    }
}

/// `i` is the player that scores for the surviving character `cid`: the
/// first index whose letter names that character.
pub open spec fn scorer_index(players: Seq<u8>, cid: CharacterId, i: int) -> bool {
    &&& 0 <= i < players.len()
    &&& cid == CharacterId::Player(players[i] as char)
    &&& forall|j: int| 0 <= j < i ==> cid != CharacterId::Player(#[trigger] players[j] as char)
}

/// A score raised by one point, stopping at the integer ceiling.
pub open spec fn bumped(p: usize) -> usize {
    if p < usize::MAX {
        (p + 1) as usize
    } else {
        p
    }
}

pub struct Game {
    pub winner_points: usize,
    pub map_size: usize,
    pub players: Vec<u8>,
    pub points: Vec<usize>,
    pub arena: Option<Arena>,
    pub arena_count: usize,
}

impl Game {
    pub open spec fn wf(self) -> bool {
        &&& 3 <= self.map_size <= 65535
        &&& self.players@.len() <= (self.map_size - 2) * (self.map_size - 2)
        &&& self.points@.len() == self.players@.len()
        &&& match self.arena {
            Some(a) => a.wf() && a.map.size == self.map_size,
            None => true,
        }
    }

    pub fn new(winner_points: usize, map_size: usize, players: Vec<u8>) -> (r: Game)
        requires
            3 <= map_size <= 65535,
            players@.len() <= (map_size - 2) * (map_size - 2),
        ensures
            r.wf(),
            r.winner_points == winner_points,
            r.map_size == map_size,
            r.players@ == players@,
            r.points@.len() == players@.len(),
            forall|i: int| 0 <= i < r.points@.len() ==> r.points@[i] == 0,
            r.arena is None,
            r.arena_count == 0,
    {
        let n = players.len();
        let mut points: Vec<usize> = Vec::new();
        let mut i: usize = 0;
        while i < n
            invariant
                i <= n,
                points@.len() == i,
                forall|k: int| 0 <= k < i ==> points@[k] == 0,
            decreases n - i,
        {
            points.push(0);
            i += 1;
        }
        Game { winner_points, map_size, players, points, arena: None, arena_count: 0 }
    }

    pub fn arena(&self) -> (r: &Option<Arena>)
        ensures
            r == self.arena,
    {
        &self.arena
    }

    /// Whether some player has reached the winner score.
    pub open spec fn spec_has_finished(self) -> bool {
        exists|i: int| 0 <= i < self.points@.len() && self.points@[i] >= self.winner_points
    }

    pub fn has_finished(&self) -> (r: bool)
        ensures
            r == self.spec_has_finished(),
    {
        let mut i: usize = 0;
        while i < self.points.len()
            invariant
                i <= self.points@.len(),
                forall|k: int| 0 <= k < i ==> (#[trigger] self.points@[k]) < self.winner_points,
            decreases self.points@.len() - i,
        {
            if self.points[i] >= self.winner_points {
                return true;
            }
            i += 1;
        }
        false
    }

    /// Builds the next arena: a fresh grid with one entity per player on
    /// its spawn point.
    pub fn create_new_arena(&mut self)
        requires
            old(self).wf(),
        ensures
            final(self).wf(),
            final(self).winner_points == old(self).winner_points,
            final(self).map_size == old(self).map_size,
            final(self).players@ == old(self).players@,
            final(self).points@ == old(self).points@,
            final(self).arena_count == if old(self).arena_count < usize::MAX {
                (old(self).arena_count + 1) as usize
            } else {
                old(self).arena_count
            },
            match final(self).arena {
                Some(a) => {
                    &&& a.arena_number == final(self).arena_count
                    &&& a.entities@.len() == old(self).players@.len()
                    &&& a.spells@.len() == 0
                    &&& forall|k: int|
                        0 <= k < a.entities@.len() ==> (#[trigger] a.entities@[k]).character.id
                            == CharacterId::Player(old(self).players@[k] as char)
                },
                None => false,
            },
    {
        let number = if self.arena_count < usize::MAX {
            self.arena_count + 1
        } else {
            self.arena_count
        };
        let mut arena = Arena::new(number, self.map_size, self.players.len());
        let n = self.players.len();
        let mut k: usize = 0;
        while k < n
            invariant
                k <= n,
                n == self.players@.len(),
                self.map_size == old(self).map_size,
                self.players@ == old(self).players@,
                arena.wf(),
                arena.map.size == self.map_size,
                arena.map.players_number == n,
                arena.arena_number == number,
                arena.spells@.len() == 0,
                arena.last_entity_id == k,
                arena.entities@.len() == k,
                forall|i: int|
                    0 <= i < k ==> (#[trigger] arena.entities@[i]).position
                        == arena.map.spec_spawn_position(i),
                forall|i: int|
                    0 <= i < k ==> (#[trigger] arena.entities@[i]).character.id
                        == CharacterId::Player(self.players@[i] as char),
            decreases n - k,
        {
            let character = character_for(self.players[k]);
            let position = arena.map.spawn_position(k);
            proof {
                assert forall|i: int|
                    0 <= i < arena.entities@.len() implies (#[trigger] arena.entities@[i]).position
                    != position by {
                    arena.map.lemma_spawn_positions_distinct(i, k as int);
                }
            }
            arena.create_entity(character, position);
            k += 1;
        }
        self.arena = Some(arena);
        self.arena_count = number;
    }

    /// One game step: the current arena ticks; if the arena has finished
    /// with a single surviving entity, that entity's player scores one
    /// point.
    pub fn step(&mut self, current_ms: u64)
        requires
            old(self).wf(),
            old(self).arena is Some,
            valid_tick_time(current_ms),
        ensures
            final(self).wf(),
            final(self).winner_points == old(self).winner_points,
            final(self).map_size == old(self).map_size,
            final(self).players@ == old(self).players@,
            final(self).arena_count == old(self).arena_count,
            final(self).arena is Some,
            final(self).points@.len() == old(self).points@.len(),
            forall|i: int|
                0 <= i < final(self).points@.len() ==> old(self).points@[i]
                    <= (#[trigger] final(self).points@[i]) && final(self).points@[i]
                    <= old(self).points@[i] + 1,
            // Only an arena that ends with a single survivor scores, and
            // only that survivor's player.
            (final(self).arena matches Some(a) && a.entities@.len() != 1) ==> final(self).points@
                == old(self).points@,
            forall|i: int|
                0 <= i < final(self).points@.len() && (#[trigger] final(self).points@[i]) != old(
                    self,
                ).points@[i] ==> (final(self).arena matches Some(a) && (a.entities@.len() == 1
                    && a.entities@[0].character.id == CharacterId::Player(
                    old(self).players@[i] as char,
                ) && final(self).points@[i] == old(self).points@[i] + 1)),
            // The arena is the old arena advanced one tick: same board and
            // number, ids only growing, destroyed spells of the previous
            // tick gone for good, every remaining entity alive.
            old(self).arena matches Some(a0) && (final(self).arena matches Some(a) && (
            a.arena_number == a0.arena_number && a.map == a0.map && a.last_entity_id
                >= a0.last_entity_id && a.last_spell_id >= a0.last_spell_id
                && crate::arena::no_ghost_spell_ids(a.spells@, a0.spells@) && forall|i: int|
                0 <= i < a.entities@.len() ==> (#[trigger] a.entities@[i]).live > 0)),
            // The forward direction of scoring: a lone survivor's player
            // gains exactly one point; with no matching player (or no lone
            // survivor) the scores are untouched.
            (final(self).arena matches Some(a) && (a.entities@.len() == 1 ==> ((exists|i: int|
                scorer_index(old(self).players@, a.entities@[0].character.id, i)) ==> exists|i: int|
                scorer_index(old(self).players@, a.entities@[0].character.id, i)
                    && final(self).points@ == old(self).points@.update(
                    i,
                    bumped(old(self).points@[i]),
                )) && ((a.entities@.len() == 1 && !(exists|i: int|
                scorer_index(old(self).players@, a.entities@[0].character.id, i)))
                ==> final(self).points@ == old(self).points@))),
    {
        let mut arena_opt: Option<Arena> = None;
        core::mem::swap(&mut arena_opt, &mut self.arena);
        let mut arena = match arena_opt {
            Some(a) => a,
            None => {
                proof {
                    assert(false);
                }
                unreached()
            },
        };
        arena.update(current_ms);
        let finished = arena.entities.len() <= 1;
        if finished && arena.entities.len() == 1 {
            let survivor_name = match arena.entities[0].character.id {
                CharacterId::Player(c) => c,
            };
            let ghost cid = arena.entities@[0].character.id;
            let n = self.players.len();
            let mut i: usize = 0;
            let mut idx: usize = n;
            while i < n
                invariant
                    i <= n,
                    n == self.players@.len(),
                    self.players@ == old(self).players@,
                    idx <= n,
                    idx == n ==> forall|j: int|
                        0 <= j < i ==> cid != CharacterId::Player(
                            #[trigger] self.players@[j] as char,
                        ),
                    idx < n ==> scorer_index(self.players@, cid, idx as int),
                    cid == CharacterId::Player(survivor_name),
                decreases n - i,
            {
                if idx == n && self.players[i] as char == survivor_name {
                    idx = i;
                }
                i += 1;
            }
            if idx < n {
                let p = self.points[idx];
                if p < usize::MAX {
                    self.points[idx] = p + 1;
                }
                proof {
                    assert(self.points@ =~= old(self).points@.update(
                        idx as int,
                        bumped(old(self).points@[idx as int]),
                    ));
                }
            }
        }
        self.arena = Some(arena);
    }
}

} // verus!
