//! The arena grid: a `size × size` board whose border cells are walls and
//! whose interior is passable, with one spawn point per player.

#![verifier::loop_isolation(false)]

use vstd::prelude::*;

verus! {

use crate::util::Vec2;

/// The grid of one arena. A position is inside the map exactly when both
/// coordinates lie strictly between the border walls.
#[derive(Clone, Copy, PartialEq, Eq, Structural, Debug)]
pub struct ArenaMap {
    pub size: usize,
    pub players_number: usize,
}

impl ArenaMap {
    /// Well-formedness: the board is big enough for its walls and spawn
    /// points, and small enough for grid arithmetic never to overflow.
    pub open spec fn wf(self) -> bool {
        &&& 3 <= self.size <= 65535
        &&& self.players_number <= (self.size - 2) * (self.size - 2)
    }

    pub fn new(size: usize, players_number: usize) -> (r: ArenaMap)
        requires
            3 <= size <= 65535,
            players_number <= (size - 2) * (size - 2),
        ensures
            r == (ArenaMap { size, players_number }),
            r.wf(),
    {
        ArenaMap { size, players_number }
    }

    pub fn size(&self) -> (r: usize)
        ensures
            r == self.size,
    {
        self.size
    }

    /// Whether `p` is a passable cell: inside the board and not on the
    /// border wall.
    pub open spec fn spec_contains(self, p: Vec2) -> bool {
        1 <= p.x < self.size - 1 && 1 <= p.y < self.size - 1
    }

    pub fn contains(&self, p: Vec2) -> (r: bool)
        requires
            self.wf(),
        ensures
            r == self.spec_contains(p),
    {
        let limit = (self.size - 1) as i64;
        1 <= p.x && p.x < limit && 1 <= p.y && p.y < limit
    }

    /// The spawn point of player `k`: interior cells filled row by row.
    pub open spec fn spec_spawn_position(self, k: int) -> Vec2 {
        Vec2 {
            x: (1 + k % (self.size - 2)) as i64,
            y: (1 + k / (self.size - 2)) as i64,
        }
    }

    pub fn spawn_position(&self, k: usize) -> (r: Vec2)
        requires
            self.wf(),
            k < self.players_number,
        ensures
            r == self.spec_spawn_position(k as int),
            self.spec_contains(r),
    {
        let w = self.size - 2;
        let x = (1 + k % w) as i64;
        let y = (1 + k / w) as i64;
        proof {
            assert(k % w < w) by {
                vstd::arithmetic::div_mod::lemma_mod_bound(k as int, w as int);
            }
            assert(k / w < w) by {
                assert(k < w * w);
                vstd::arithmetic::div_mod::lemma_multiply_divide_lt(k as int, w as int, w as int);
            }
        }
        Vec2 { x, y }
    }

    /// Different players spawn on different cells.
    pub proof fn lemma_spawn_positions_distinct(self, a: int, b: int)
        requires
            self.wf(),
            0 <= a < self.players_number,
            0 <= b < self.players_number,
            a != b,
        ensures
            self.spec_spawn_position(a) != self.spec_spawn_position(b),
    {
        let w = (self.size - 2) as int;
        vstd::arithmetic::div_mod::lemma_fundamental_div_mod(a, w);
        vstd::arithmetic::div_mod::lemma_fundamental_div_mod(b, w);
        vstd::arithmetic::div_mod::lemma_mod_bound(a, w);
        vstd::arithmetic::div_mod::lemma_mod_bound(b, w);
        if self.spec_spawn_position(a) == self.spec_spawn_position(b) {
            assert((1 + a % w) as i64 == (1 + b % w) as i64);
            assert((1 + a / w) as i64 == (1 + b / w) as i64);
            assert(0 <= a % w < w && 0 <= b % w < w);
            assert(a % w == b % w);
            assert(0 <= a / w && 0 <= b / w);
            assert(a / w < w && b / w < w) by {
                vstd::arithmetic::div_mod::lemma_multiply_divide_lt(a, w, w);
                vstd::arithmetic::div_mod::lemma_multiply_divide_lt(b, w, w);
            }
            assert(a / w == b / w);
            assert(a == w * (a / w) + a % w);
            assert(b == w * (b / w) + b % w);
            assert(false);
        }
    }
}

} // verus!
