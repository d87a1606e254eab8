//! Small shared pieces: grid vectors, facing directions, player name
//! validation and name-list formatting.

use vstd::prelude::*;

verus! {

use vstd::string::StringSliceAdditionalSpecFns;

/// A position or displacement on the integer grid.
#[derive(Clone, Copy, PartialEq, Eq, Structural, Debug)]
pub struct Vec2 {
    pub x: i64,
    pub y: i64,
}

impl Vec2 {
    pub fn x(value: i64) -> (v: Vec2)
        ensures
            v.x == value && v.y == 0,
    {
        Vec2 { x: value, y: 0 }
    }

    pub fn y(value: i64) -> (v: Vec2)
        ensures
            v.x == 0 && v.y == value,
    {
        Vec2 { x: 0, y: value }
    }

    pub fn zero() -> (v: Vec2)
        ensures
            v.x == 0 && v.y == 0,
    {
        Vec2 { x: 0, y: 0 }
    }
}

/// Facing or movement direction of an entity or spell. `Still` stands for
/// "no direction".
#[derive(Clone, Copy, PartialEq, Eq, Structural, Debug)]
pub enum Direction {
    Up,
    Down,
    Left,
    Right,
    Still,
}

impl Direction {
    /// The unit displacement of this direction (screen coordinates: `Up`
    /// decreases `y`).
    pub open spec fn spec_vec2(self) -> Vec2 {
        match self {
            Direction::Up => Vec2 { x: 0i64, y: -1i64 },
            Direction::Down => Vec2 { x: 0i64, y: 1i64 },
            Direction::Right => Vec2 { x: 1i64, y: 0i64 },
            Direction::Left => Vec2 { x: -1i64, y: 0i64 },
            Direction::Still => Vec2 { x: 0i64, y: 0i64 },
        }
    }

    pub fn vec2(&self) -> (v: Vec2)
        ensures
            v == self.spec_vec2(),
    {
        match *self {
            Direction::Up => Vec2::y(-1),
            Direction::Down => Vec2::y(1),
            Direction::Right => Vec2::x(1),
            Direction::Left => Vec2::x(-1),
            Direction::Still => Vec2::zero(),
        }
    }

    pub open spec fn spec_opposite(self) -> Direction {
        match self {
            Direction::Up => Direction::Down,
            Direction::Down => Direction::Up,
            Direction::Right => Direction::Left,
            Direction::Left => Direction::Right,
            Direction::Still => Direction::Still,
        }
    }

    pub fn opposite(&self) -> (d: Direction)
        ensures
            d == self.spec_opposite(),
    {
        match *self {
            Direction::Up => Direction::Down,
            Direction::Down => Direction::Up,
            Direction::Right => Direction::Left,
            Direction::Left => Direction::Right,
            Direction::Still => Direction::Still,
        }
    }
}

/// Opaque token proving a session's identity on reconnect.
pub type SessionToken = u64;

/// A valid player name is exactly one ASCII uppercase letter, seen as its
/// UTF-8 byte sequence.
pub open spec fn valid_player_name(s: Seq<u8>) -> bool {
    s.len() == 1 && 65 <= s[0] <= 90
}

/// Whether `name` is a valid player name: a single ASCII uppercase letter.
pub fn is_valid_player_name(name: &str) -> (r: bool)
    ensures
        r == valid_player_name(name.spec_bytes()),
{
    let bytes = name.as_bytes();
    bytes.len() == 1 && 65 <= bytes[0] && bytes[0] <= 90
}

/// The characters of an ASCII byte sequence, one per byte.
pub open spec fn chars_of_bytes(s: Seq<u8>) -> Seq<char> {
    Seq::new(s.len(), |i: int| s[i] as char)
}

/// Relies on `String::from_utf8`: bytes below 128 are valid UTF-8 and decode
/// to one character per byte.
#[verifier::external_body]
fn ascii_bytes_to_string(bytes: Vec<u8>) -> (r: String)
    requires
        forall|i: int| 0 <= i < bytes@.len() ==> bytes@[i] < 128,
    ensures
        r@ == chars_of_bytes(bytes@),
{
    String::from_utf8(bytes).unwrap()
}

/// Whether `s` is sorted in non-decreasing order.
pub open spec fn sorted_bytes(s: Seq<u8>) -> bool {
    forall|i: int, j: int| 0 <= i < j < s.len() ==> s[i] <= s[j]
}

/// Sorted names joined by `", "`, as bytes.
pub open spec fn joined_names(s: Seq<u8>) -> Seq<u8>
    decreases s.len(),
{
    if s.len() == 0 {
        Seq::empty()
    } else if s.len() == 1 {
        seq![s[0]]
    } else {
        seq![s[0], 44u8, 32u8] + joined_names(s.drop_first())
    }
}

proof fn lemma_joined_names_ascii(s: Seq<u8>)
    requires
        forall|i: int| 0 <= i < s.len() ==> s[i] < 128,
    ensures
        forall|i: int| 0 <= i < joined_names(s).len() ==> joined_names(s)[i] < 128,
    decreases s.len(),
{
    if s.len() > 1 {
        assert(forall|i: int|
            0 <= i < s.drop_first().len() ==> #[trigger] s.drop_first()[i] == s[i + 1]);
        lemma_joined_names_ascii(s.drop_first());
        assert(joined_names(s) =~= seq![s[0], 44u8, 32u8] + joined_names(s.drop_first()));
        assert forall|i: int| 0 <= i < joined_names(s).len() implies joined_names(s)[i] < 128 by {
            if i >= 3 {
                assert(joined_names(s)[i] == joined_names(s.drop_first())[i - 3]);
            }
        }
    }
}

/// Sorts a copy of `names` in non-decreasing order, keeping the same
/// multiset of elements.
fn sort_names(names: &Vec<u8>) -> (r: Vec<u8>)
    ensures
        sorted_bytes(r@),
        r@.to_multiset() == names@.to_multiset(),
{
    let mut r: Vec<u8> = Vec::new();
    let mut i: usize = 0;
    proof {
        assert(r@.to_multiset() =~= names@.take(0).to_multiset()) by {
            assert(names@.take(0) =~= Seq::<u8>::empty());
            names@.take(0).to_multiset_ensures();
            r@.to_multiset_ensures();
        }
    }
    while i < names.len()
        invariant
            i <= names@.len(),
            sorted_bytes(r@),
            r@.to_multiset() == names@.take(i as int).to_multiset(),
        decreases names@.len() - i,
    {
        let x = names[i];
        // insertion position
        let mut j: usize = 0;
        while j < r.len() && r[j] <= x
            invariant
                j <= r@.len(),
                forall|k: int| 0 <= k < j ==> r@[k] <= x,
            decreases r@.len() - j,
        {
            j += 1;
        }
        let ghost old_r = r@;
        r.insert(j, x);
        proof {
            assert(sorted_bytes(r@)) by {
                assert(forall|k: int| 0 <= k < j ==> r@[k] == old_r[k]);
                assert(forall|k: int| j < k < r@.len() ==> r@[k] == old_r[k - 1]);
                assert(forall|k: int| j < k < r@.len() ==> x <= r@[k]);
            }
            assert(r@.to_multiset() == names@.take(i as int + 1).to_multiset()) by {
                assert(r@ =~= old_r.take(j as int) + seq![x] + old_r.skip(j as int));
                vstd::seq_lib::lemma_multiset_commutative(old_r.take(j as int) + seq![x], old_r.skip(j as int));
                vstd::seq_lib::lemma_multiset_commutative(old_r.take(j as int), seq![x]);
                vstd::seq_lib::lemma_multiset_commutative(old_r.take(j as int), old_r.skip(j as int));
                assert(old_r.take(j as int) + old_r.skip(j as int) =~= old_r);
                assert(names@.take(i as int + 1) =~= names@.take(i as int) + seq![x]);
                vstd::seq_lib::lemma_multiset_commutative(names@.take(i as int), seq![x]);
            }
        }
        i += 1;
    }
    proof {
        assert(names@.take(names@.len() as int) =~= names@);
    }
    r
}

/// Formats a list of player names (single ASCII uppercase letters) sorted
/// and separated by `", "`.
pub fn format_player_names(players: &Vec<u8>) -> (r: String)
    requires
        forall|i: int| 0 <= i < players@.len() ==> valid_player_name(seq![players@[i]]),
    ensures
        exists|sorted: Seq<u8>|
            sorted_bytes(sorted) && sorted.to_multiset() == players@.to_multiset() && r@
                == chars_of_bytes(joined_names(sorted)),
{
    let sorted = sort_names(players);
    proof {
        assert(forall|i: int| 0 <= i < players@.len() ==> 65 <= #[trigger] players@[i] < 128);
        assert forall|i: int| 0 <= i < sorted@.len() implies sorted@[i] < 128 by {
            sorted@.to_multiset_ensures();
            players@.to_multiset_ensures();
            assert(sorted@.to_multiset().contains(sorted@[i]));
            assert(players@.contains(sorted@[i]));
        }
    }
    let mut out: Vec<u8> = Vec::new();
    let mut i: usize = 0;
    while i < sorted.len()
        invariant
            i <= sorted@.len(),
            forall|k: int| 0 <= k < sorted@.len() ==> sorted@[k] < 128,
            out@ == joined_names(sorted@.take(i as int)),
        decreases sorted@.len() - i,
    {
        if i > 0 {
            out.push(44);
            out.push(32);
        }
        out.push(sorted[i]);
        proof {
            lemma_joined_names_prefix(sorted@, i as int);
        }
        i += 1;
    }
    proof {
        assert(sorted@.take(sorted@.len() as int) =~= sorted@);
        lemma_joined_names_ascii(sorted@);
    }
    let ghost sorted_seq = sorted@;
    let r = ascii_bytes_to_string(out);
    proof {
        assert(sorted_bytes(sorted_seq) && sorted_seq.to_multiset() == players@.to_multiset()
            && r@ == chars_of_bytes(joined_names(sorted_seq)));
    }
    r
}

/// Extending the joined prefix by one name appends either the bare name or
/// `", "` plus the name.
proof fn lemma_joined_names_prefix(s: Seq<u8>, i: int)
    requires
        0 <= i < s.len(),
    ensures
        i == 0 ==> joined_names(s.take(i + 1)) == joined_names(s.take(i)) + seq![s[i]],
        i > 0 ==> joined_names(s.take(i + 1)) == joined_names(s.take(i)) + seq![44u8, 32u8, s[i]],
    decreases i,
{
    if i == 0 {
        assert(s.take(1) =~= seq![s[0]]);
        assert(joined_names(s.take(0)) =~= Seq::<u8>::empty());
        assert(joined_names(s.take(1)) =~= joined_names(s.take(0)) + seq![s[0]]);
    } else {
        lemma_joined_names_prefix(s.drop_first(), i - 1);
        assert(s.take(i + 1).drop_first() =~= s.drop_first().take(i));
        assert(s.take(i).drop_first() =~= s.drop_first().take(i - 1));
        assert(s.drop_first()[i - 1] == s[i]);
        if i == 1 {
            assert(joined_names(s.take(2)) =~= seq![s[0], 44u8, 32u8] + joined_names(s.take(2).drop_first()));
            assert(joined_names(s.take(1)) =~= seq![s[0]]);
            assert(joined_names(s.take(2)) =~= joined_names(s.take(1)) + seq![44u8, 32u8, s[1]]);
        } else {
            assert(joined_names(s.take(i + 1)) =~= seq![s[0], 44u8, 32u8] + joined_names(s.drop_first().take(i)));
            assert(joined_names(s.take(i)) =~= seq![s[0], 44u8, 32u8] + joined_names(s.drop_first().take(i - 1)));
            assert(joined_names(s.take(i + 1)) =~= joined_names(s.take(i)) + seq![44u8, 32u8, s[i]]);
        }
    }
}

} // verus!
