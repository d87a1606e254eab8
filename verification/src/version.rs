//! Semantic versions, the version-string parser and the compatibility rule
//! of the handshake: equal versions are fully compatible, equal major and
//! minor are compatible but outdated, anything else is rejected.

use vstd::prelude::*;

verus! {

use vstd::string::StringSliceAdditionalSpecFns;

/// A semantic version `major.minor.patch`.
#[derive(Clone, Copy, PartialEq, Eq, Structural, Debug)]
pub struct Version {
    pub major: u64,
    pub minor: u64,
    pub patch: u64,
}

/// Outcome of comparing a client version against the server version.
/// `Incompatible` is the rejecting tag; only it drops the connection.
#[derive(Clone, Copy, PartialEq, Eq, Structural, Debug)]
pub enum Compatibility {
    Fully,
    OkOutdated,
    Incompatible,
}

impl Compatibility {
    pub open spec fn spec_is_compatible(self) -> bool {
        self != Compatibility::Incompatible
    }

    pub fn is_compatible(&self) -> (r: bool)
        ensures
            r == self.spec_is_compatible(),
    {
        match *self {
            Compatibility::Incompatible => false,
            _ => true,
        }
    }
}

/// The compatibility rule: equal versions are `Fully`; equal major and
/// minor with a different patch are `OkOutdated`; anything else is
/// `Incompatible`.
pub open spec fn spec_check(a: Version, b: Version) -> Compatibility {
    if a == b {
        Compatibility::Fully
    } else if a.major == b.major && a.minor == b.minor {
        Compatibility::OkOutdated
    } else {
        Compatibility::Incompatible
    }
}

/// Compares two versions under the compatibility rule.
pub fn check(a: &Version, b: &Version) -> (c: Compatibility)
    ensures
        c == spec_check(*a, *b),
{
    if a.major == b.major && a.minor == b.minor && a.patch == b.patch {
        Compatibility::Fully
    } else if a.major == b.major && a.minor == b.minor {
        Compatibility::OkOutdated
    } else {
        Compatibility::Incompatible
    }
}

/// The version this library implements.
pub open spec fn spec_current() -> Version {
    Version { major: 0u64, minor: 2u64, patch: 0u64 }
}

/// The version this library implements.
pub fn current() -> (v: Version)
    ensures
        v == spec_current(),
{
    Version { major: 0, minor: 2, patch: 0 }
}

/// Checking a version against itself always yields `Fully`; equal major and
/// minor always accept (`Fully` or `OkOutdated`); a different major always
/// rejects.
pub proof fn lemma_compatibility_rule(a: Version, b: Version)
    ensures
        spec_check(a, a) == Compatibility::Fully,
        a.major == b.major && a.minor == b.minor && a != b ==> spec_check(a, b)
            == Compatibility::OkOutdated,
        a.major != b.major ==> spec_check(a, b) == Compatibility::Incompatible,
        spec_check(a, b).spec_is_compatible() <==> a.major == b.major && a.minor == b.minor,
{
}

/// Whether every byte of `s` is an ASCII decimal digit.
pub open spec fn all_digits(s: Seq<u8>) -> bool {
    forall|i: int| 0 <= i < s.len() ==> 48 <= #[trigger] s[i] <= 57
}

/// The value of a decimal digit string, most significant digit first.
pub open spec fn digits_val(s: Seq<u8>) -> int
    decreases s.len(),
{
    if s.len() == 0 {
        0
    } else {
        digits_val(s.take(s.len() - 1)) * 10 + (s[s.len() - 1] - 48)
    }
}

/// A digit string of at most 9 digits has a value below `10^9`.
proof fn lemma_digits_val_bound(s: Seq<u8>)
    requires
        all_digits(s),
        s.len() <= 9,
    ensures
        digits_val(s) < 1000000000,
    decreases s.len(),
{
    if s.len() > 0 {
        let t = s.take(s.len() - 1);
        assert(forall|i: int| 0 <= i < t.len() ==> t[i] == s[i]);
        lemma_digits_val_bound(t);
        assert(digits_val(t) < 100000000) by {
            lemma_digits_val_small(t);
        }
    }
}

/// A digit string's value is below `10^len`, for lengths up to 8.
proof fn lemma_digits_val_small(s: Seq<u8>)
    requires
        all_digits(s),
        s.len() <= 8,
    ensures
        digits_val(s) < 100000000,
        s.len() <= 7 ==> digits_val(s) < 10000000,
        s.len() <= 6 ==> digits_val(s) < 1000000,
        s.len() <= 5 ==> digits_val(s) < 100000,
        s.len() <= 4 ==> digits_val(s) < 10000,
        s.len() <= 3 ==> digits_val(s) < 1000,
        s.len() <= 2 ==> digits_val(s) < 100,
        s.len() <= 1 ==> digits_val(s) < 10,
    decreases s.len(),
{
    if s.len() > 0 {
        let t = s.take(s.len() - 1);
        assert(forall|i: int| 0 <= i < t.len() ==> t[i] == s[i]);
        lemma_digits_val_small(t);
    }
}

/// A version segment: nonempty, at most 9 digits, all decimal.
pub open spec fn valid_segment(s: Seq<u8>) -> bool {
    1 <= s.len() <= 9 && all_digits(s)
}

/// The byte sequence `s` split at each `.` (byte 46).
pub open spec fn split_dots(s: Seq<u8>) -> Seq<Seq<u8>>
    decreases s.len(),
{
    if s.len() == 0 {
        seq![Seq::empty()]
    } else if s[0] == 46 {
        seq![Seq::<u8>::empty()] + split_dots(s.drop_first())
    } else {
        let rest = split_dots(s.drop_first());
        seq![seq![s[0]] + rest[0]] + rest.drop_first()
    }
}

proof fn lemma_split_dots_len(s: Seq<u8>)
    ensures
        split_dots(s).len() >= 1,
    decreases s.len(),
{
    if s.len() > 0 {
        lemma_split_dots_len(s.drop_first());
    }
}

/// Appending one byte extends the split: a dot starts a new empty segment,
/// any other byte extends the last segment.
proof fn lemma_split_dots_append(s: Seq<u8>, b: u8)
    ensures
        b == 46 ==> split_dots(s.push(b)) == split_dots(s).push(Seq::<u8>::empty()),
        b != 46 ==> split_dots(s.push(b)) == split_dots(s).update(
            split_dots(s).len() - 1,
            split_dots(s).last().push(b),
        ),
    decreases s.len(),
{
    lemma_split_dots_len(s);
    if s.len() == 0 {
        assert(s =~~= Seq::<u8>::empty());
        assert(s.push(b).drop_first() =~~= Seq::<u8>::empty());
        assert(split_dots(Seq::<u8>::empty()) == seq![Seq::<u8>::empty()]);
        assert(split_dots(s.push(b).drop_first()) == seq![Seq::<u8>::empty()]);
        if b == 46 {
            assert(split_dots(s.push(b)) =~~= split_dots(s).push(Seq::<u8>::empty()));
        } else {
            assert(split_dots(s.push(b)) == seq![seq![b] + split_dots(s.push(b).drop_first())[0]]
                + split_dots(s.push(b).drop_first()).drop_first());
            assert(split_dots(s.push(b)) =~~= split_dots(s).update(
                split_dots(s).len() - 1,
                split_dots(s).last().push(b),
            ));
        }
    } else {
        lemma_split_dots_append(s.drop_first(), b);
        lemma_split_dots_len(s.drop_first());
        assert(s.push(b).drop_first() =~~= s.drop_first().push(b));
        if b == 46 {
            if s[0] == 46 {
                assert(split_dots(s.push(b)) =~~= split_dots(s).push(Seq::<u8>::empty()));
            } else {
                assert(split_dots(s.drop_first().push(b)).drop_first()
                    =~~= split_dots(s.drop_first()).drop_first().push(Seq::<u8>::empty()));
                assert(split_dots(s.push(b)) =~~= split_dots(s).push(Seq::<u8>::empty()));
            }
        } else {
            if s[0] == 46 {
                assert(split_dots(s.push(b)) =~~= split_dots(s).update(
                    split_dots(s).len() - 1,
                    split_dots(s).last().push(b),
                ));
            } else {
                let rest = split_dots(s.drop_first());
                if rest.len() == 1 {
                    assert(split_dots(s.push(b)) =~~= split_dots(s).update(
                        split_dots(s).len() - 1,
                        split_dots(s).last().push(b),
                    ));
                } else {
                    assert(split_dots(s.drop_first().push(b)).drop_first()
                        =~~= rest.drop_first().update(
                            rest.len() - 2,
                            rest.last().push(b),
                        ));
                    assert(split_dots(s.push(b)) =~~= split_dots(s).update(
                        split_dots(s).len() - 1,
                        split_dots(s).last().push(b),
                    ));
                }
            }
        }
    }
}

/// The parse of a version string: exactly three dot-separated segments,
/// each a nonempty decimal number of at most 9 digits.
pub open spec fn spec_parse_version(s: Seq<u8>) -> Option<Version> {
    let parts = split_dots(s);
    if parts.len() == 3 && valid_segment(parts[0]) && valid_segment(parts[1]) && valid_segment(
        parts[2],
    ) {
        Some(
            Version {
                major: digits_val(parts[0]) as u64,
                minor: digits_val(parts[1]) as u64,
                patch: digits_val(parts[2]) as u64,
            },
        )
    } else {
        None
    }
}

/// Parses `major.minor.patch` from the bytes of a version string. Returns
/// `Some` exactly when the string is three dot-separated decimal segments,
/// each nonempty and at most 9 digits.
pub fn parse_version_bytes(s: &[u8]) -> (r: Option<Version>)
    ensures
        r == spec_parse_version(s@),
{
    let mut parts: Vec<Vec<u8>> = Vec::new();
    let mut current: Vec<u8> = Vec::new();
    let mut i: usize = 0;
    proof {
        assert(s@.take(0) =~= Seq::<u8>::empty());
    }
    while i < s.len()
        invariant
            i <= s@.len(),
            split_dots(s@.take(i as int)) == parts@.map_values(|p: Vec<u8>| p@).push(current@),
        decreases s@.len() - i,
    {
        let b = s[i];
        proof {
            lemma_split_dots_append(s@.take(i as int), b);
            assert(s@.take(i as int).push(b) =~= s@.take(i as int + 1));
        }
        if b == 46 {
            parts.push(current);
            current = Vec::new();
            proof {
                let prev = split_dots(s@.take(i as int));
                assert(split_dots(s@.take(i as int + 1)) =~~= prev.push(Seq::<u8>::empty()));
                assert(parts@.map_values(|p: Vec<u8>| p@).push(current@) =~~= prev.push(
                    Seq::<u8>::empty(),
                ));
            }
        } else {
            current.push(b);
            proof {
                let prev = split_dots(s@.take(i as int));
                assert(prev.update(prev.len() - 1, prev.last().push(b)) =~~= parts@.map_values(
                    |p: Vec<u8>| p@,
                ).push(current@));
            }
        }
        i += 1;
    }
    proof {
        assert(s@.take(s@.len() as int) =~= s@);
    }
    parts.push(current);
    proof {
        assert(parts@.map_values(|p: Vec<u8>| p@) =~~= split_dots(s@));
    }
    if parts.len() != 3 {
        return None;
    }
    let major = match parse_segment(&parts[0]) {
        Some(v) => v,
        None => { return None; },
    };
    let minor = match parse_segment(&parts[1]) {
        Some(v) => v,
        None => { return None; },
    };
    let patch = match parse_segment(&parts[2]) {
        Some(v) => v,
        None => { return None; },
    };
    Some(Version { major, minor, patch })
}

/// Parses the bytes of a version string given as `&str`.
pub fn parse_version(s: &str) -> (r: Option<Version>)
    ensures
        r == spec_parse_version(s.spec_bytes()),
{
    parse_version_bytes(s.as_bytes())
}

/// Parses one decimal segment; `Some` exactly for a valid segment.
fn parse_segment(s: &Vec<u8>) -> (r: Option<u64>)
    ensures
        r is Some <==> valid_segment(s@),
        valid_segment(s@) ==> r == Some(digits_val(s@) as u64),
{
    if s.len() == 0 || s.len() > 9 {
        return None;
    }
    let mut acc: u64 = 0;
    let mut i: usize = 0;
    proof {
        assert(s@.take(0) =~= Seq::<u8>::empty());
    }
    while i < s.len()
        invariant
            i <= s@.len() <= 9,
            all_digits(s@.take(i as int)),
            acc == digits_val(s@.take(i as int)),
            acc < 1000000000,
        decreases s@.len() - i,
    {
        let b = s[i];
        if b < 48 || b > 57 {
            return None;
        }
        proof {
            let t = s@.take(i as int + 1);
            assert(t.take(t.len() - 1) =~= s@.take(i as int));
            lemma_digits_val_bound(t);
            assert(s@.take(i as int).len() <= 8);
            lemma_digits_val_small(s@.take(i as int));
        }
        acc = acc * 10 + ((b - 48) as u64);
        i += 1;
    }
    proof {
        assert(s@.take(s@.len() as int) =~= s@);
    }
    Some(acc)
}

} // verus!
