//! Identifiers for arena objects: monotonically allocated per arena, never
//! reused within one arena. `0` is the sentinel for "no id"; real ids start
//! at 1.

use vstd::prelude::*;

verus! {

pub type EntityId = u64;

pub type SpellId = u64;

pub type SpellSpecId = u64;

/// The sentinel id standing for "uninitialized".
pub const ID_NONE: u64 = 0;

/// The id allocated after `last`.
pub fn next_id(last: u64) -> (r: u64)
    requires
        last < u64::MAX,
    ensures
        r == last + 1,
{
    last + 1
}

} // verus!
