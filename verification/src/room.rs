//! The pre-game lobby: a bounded set of named player sessions keyed by a
//! one-letter name, each with an opaque token and optional transport
//! bindings. A session survives a transport loss during a game so that the
//! same name can reconnect and keep its token.

#![verifier::loop_isolation(false)]

use vstd::prelude::*;

verus! {

use crate::util::SessionToken;

/// A logical player identity inside a room. `name` is an ASCII uppercase
/// letter; the endpoints are handles chosen by the transport layer.
#[derive(Clone, Copy, PartialEq, Eq, Structural, Debug)]
pub struct Session {
    pub name: u8,
    pub token: SessionToken,
    pub safe_endpoint: Option<u64>,
    pub fast_endpoint: Option<u64>,
}

impl Session {
    pub fn name(&self) -> (r: u8)
        ensures
            r == self.name,
    {
        self.name
    }

    pub fn token(&self) -> (r: SessionToken)
        ensures
            r == self.token,
    {
        self.token
    }

    /// Whether the reliable endpoint is currently attached.
    pub fn is_bound(&self) -> (r: bool)
        ensures
            r == self.safe_endpoint.is_some(),
    {
        self.safe_endpoint.is_some()
    }
}

/// Whether some session in `s` carries `name`.
pub open spec fn has_name(s: Seq<Session>, name: u8) -> bool {
    exists|i: int| 0 <= i < s.len() && s[i].name == name
}

/// Whether some session in `s` has its reliable endpoint bound to `ep`.
pub open spec fn endpoint_bound(s: Seq<Session>, ep: u64) -> bool {
    exists|i: int| 0 <= i < s.len() && s[i].safe_endpoint == Some(ep)
}

/// The reliable endpoints of the sessions of `s` that are bound, in session
/// order.
pub open spec fn safe_endpoints_of(s: Seq<Session>) -> Seq<u64>
    decreases s.len(),
{
    if s.len() == 0 {
        Seq::empty()
    } else {
        let rest = safe_endpoints_of(s.drop_first());
        match s[0].safe_endpoint {
            Some(ep) => seq![ep] + rest,
            None => rest,
        }
    }
}

/// The unreliable endpoints of the sessions of `s` that are bound, in
/// session order.
pub open spec fn fast_endpoints_of(s: Seq<Session>) -> Seq<u64>
    decreases s.len(),
{
    if s.len() == 0 {
        Seq::empty()
    } else {
        let rest = fast_endpoints_of(s.drop_first());
        match s[0].fast_endpoint {
            Some(ep) => seq![ep] + rest,
            None => rest,
        }
    }
}

/// Result of `Room::create_session`.
#[derive(Clone, Copy, PartialEq, Eq, Structural, Debug)]
pub enum SessionCreationResult {
    /// The name was unused and the room not full: a new session with a
    /// fresh token.
    Created(SessionToken),
    /// The name existed with an unbound reliable endpoint: the endpoint was
    /// re-attached and the old token kept.
    Recycled(SessionToken),
    /// The name (or the endpoint itself) is currently bound.
    AlreadyLogged,
    /// The capacity is reached and the name was not present.
    Full,
}

/// The lobby: at most `capacity` sessions, kept sorted by name.
pub struct Room {
    pub sessions: Vec<Session>,
    pub capacity: usize,
    pub next_token: SessionToken,
}

impl Room {
    /// Well-formedness: capacity respected, names strictly sorted (hence
    /// unique), tokens unique and below `next_token`, and each bound
    /// reliable endpoint bound at most once.
    pub open spec fn wf(self) -> bool {
        &&& self.sessions@.len() <= self.capacity
        &&& forall|i: int, j: int|
            0 <= i < j < self.sessions@.len() ==> (#[trigger] self.sessions@[i]).name < (
            #[trigger] self.sessions@[j]).name
        &&& forall|i: int|
            0 <= i < self.sessions@.len() ==> (#[trigger] self.sessions@[i]).token
                < self.next_token
        &&& forall|i: int, j: int|
            0 <= i < j < self.sessions@.len() ==> (#[trigger] self.sessions@[i]).token != (
            #[trigger] self.sessions@[j]).token
        &&& forall|i: int, j: int|
            0 <= i < j < self.sessions@.len() && (#[trigger] self.sessions@[i]).safe_endpoint
                .is_some() ==> (#[trigger] self.sessions@[j]).safe_endpoint
                != self.sessions@[i].safe_endpoint
    }

    pub fn new(capacity: usize) -> (r: Room)
        ensures
            r.wf(),
            r.sessions@.len() == 0,
            r.capacity == capacity,
    {
        Room { sessions: Vec::new(), capacity, next_token: 0 }
    }

    pub fn capacity(&self) -> (r: usize)
        ensures
            r == self.capacity,
    {
        self.capacity
    }

    /// All sessions, in name order.
    pub fn sessions(&self) -> (r: &Vec<Session>)
        ensures
            r@ == self.sessions@,
    {
        &self.sessions
    }

    /// The names of all sessions, in name order.
    pub fn session_names(&self) -> (r: Vec<u8>)
        ensures
            r@ == self.sessions@.map_values(|s: Session| s.name),
    {
        let mut r: Vec<u8> = Vec::new();
        let mut i: usize = 0;
        while i < self.sessions.len()
            invariant
                i <= self.sessions@.len(),
                r@ == self.sessions@.take(i as int).map_values(|s: Session| s.name),
            decreases self.sessions@.len() - i,
        {
            r.push(self.sessions[i].name);
            proof {
                assert(self.sessions@.take(i as int + 1).map_values(|s: Session| s.name)
                    =~= self.sessions@.take(i as int).map_values(|s: Session| s.name).push(
                    self.sessions@[i as int].name,
                ));
            }
            i += 1;
        }
        proof {
            assert(self.sessions@.take(self.sessions@.len() as int) =~= self.sessions@);
        }
        r
    }

    pub fn is_full(&self) -> (r: bool)
        ensures
            r == (self.sessions@.len() == self.capacity),
    {
        self.sessions.len() == self.capacity
    }

    /// Drops every session.
    pub fn clear(&mut self)
        ensures
            final(self).wf(),
            final(self).sessions@.len() == 0,
            final(self).capacity == old(self).capacity,
    {
        self.sessions.clear();
    }

    /// Creates, recycles or rejects a session for `name` over reliable
    /// endpoint `endpoint`, as the lobby contract enumerates. The returned
    /// token of a `Recycled` session is the token the name held before.
    pub fn create_session(&mut self, name: u8, endpoint: u64) -> (r: SessionCreationResult)
        requires
            old(self).wf(),
        ensures
            final(self).wf(),
            final(self).capacity == old(self).capacity,
            match r {
                SessionCreationResult::Created(t) => {
                    &&& !has_name(old(self).sessions@, name)
                    &&& !endpoint_bound(old(self).sessions@, endpoint)
                    &&& old(self).sessions@.len() < old(self).capacity
                    &&& t == old(self).next_token
                    &&& final(self).next_token == old(self).next_token + 1
                    &&& exists|k: int|
                        0 <= k <= old(self).sessions@.len() && final(self).sessions@ == old(
                            self,
                        ).sessions@.insert(
                            k,
                            Session {
                                name,
                                token: t,
                                safe_endpoint: Some(endpoint),
                                fast_endpoint: None,
                            },
                        )
                },
                SessionCreationResult::Recycled(t) => {
                    &&& !endpoint_bound(old(self).sessions@, endpoint)
                    &&& final(self).next_token == old(self).next_token
                    &&& exists|k: int|
                        {
                            &&& 0 <= k < old(self).sessions@.len()
                            &&& old(self).sessions@[k].name == name
                            &&& old(self).sessions@[k].safe_endpoint is None
                            &&& t == old(self).sessions@[k].token
                            &&& final(self).sessions@ == old(self).sessions@.update(
                                k,
                                Session {
                                    safe_endpoint: Some(endpoint),
                                    ..old(self).sessions@[k]
                                },
                            )
                        }
                },
                SessionCreationResult::AlreadyLogged => {
                    &&& final(self).sessions@ == old(self).sessions@
                    &&& final(self).next_token == old(self).next_token
                    &&& (endpoint_bound(old(self).sessions@, endpoint) || exists|k: int|
                        0 <= k < old(self).sessions@.len() && old(self).sessions@[k].name == name
                            && old(self).sessions@[k].safe_endpoint is Some)
                },
                SessionCreationResult::Full => {
                    &&& final(self).sessions@ == old(self).sessions@
                    &&& final(self).next_token == old(self).next_token
                    &&& !has_name(old(self).sessions@, name)
                    &&& !endpoint_bound(old(self).sessions@, endpoint)
                    &&& (old(self).sessions@.len() == old(self).capacity || old(self).next_token
                        == u64::MAX)
                },
            },
    {
        // An endpoint that is already bound cannot log in a second name.
        let mut i: usize = 0;
        while i < self.sessions.len()
            invariant
                self.sessions@ == old(self).sessions@,
                self.capacity == old(self).capacity,
                self.next_token == old(self).next_token,
                i <= self.sessions@.len(),
                forall|k: int|
                    0 <= k < i ==> (#[trigger] self.sessions@[k]).safe_endpoint != Some(endpoint),
            decreases self.sessions@.len() - i,
        {
            match self.sessions[i].safe_endpoint {
                Some(ep) => {
                    if ep == endpoint {
                        return SessionCreationResult::AlreadyLogged;
                    }
                },
                None => {},
            }
            i += 1;
        }
        // Look the name up.
        let mut i: usize = 0;
        while i < self.sessions.len()
            invariant
                self.sessions@ == old(self).sessions@,
                self.capacity == old(self).capacity,
                self.next_token == old(self).next_token,
                i <= self.sessions@.len(),
                !endpoint_bound(self.sessions@, endpoint),
                forall|k: int| 0 <= k < i ==> (#[trigger] self.sessions@[k]).name != name,
            decreases self.sessions@.len() - i,
        {
            if self.sessions[i].name == name {
                let session = self.sessions[i];
                match session.safe_endpoint {
                    Some(_) => {
                        proof {
                            assert(self.sessions@[i as int].name == name
                                && self.sessions@[i as int].safe_endpoint is Some);
                            assert(exists|k: int|
                                0 <= k < old(self).sessions@.len() && old(self).sessions@[k].name
                                    == name && old(self).sessions@[k].safe_endpoint is Some);
                        }
                        return SessionCreationResult::AlreadyLogged;
                    },
                    None => {
                        let updated = Session {
                            name: session.name,
                            token: session.token,
                            safe_endpoint: Some(endpoint),
                            fast_endpoint: session.fast_endpoint,
                        };
                        let ghost prev = self.sessions@;
                        self.sessions[i] = updated;
                        proof {
                            assert(self.sessions@ == prev.update(i as int, updated));
                            assert(forall|j: int|
                                0 <= j < prev.len() && j != i ==> self.sessions@[j] == prev[j]);
                            assert(final(self).wf());
                        }
                        return SessionCreationResult::Recycled(session.token);
                    },
                }
            }
            i += 1;
        }
        if self.sessions.len() == self.capacity || self.next_token == u64::MAX {
            proof {
                assert(!has_name(self.sessions@, name));
                assert(!endpoint_bound(self.sessions@, endpoint));
            }
            return SessionCreationResult::Full;
        }
        // Insert a fresh session at its sorted position.
        let token = self.next_token;
        let mut k: usize = 0;
        while k < self.sessions.len() && self.sessions[k].name < name
            invariant
                self.sessions@ == old(self).sessions@,
                self.capacity == old(self).capacity,
                self.next_token == old(self).next_token,
                k <= self.sessions@.len(),
                forall|j: int| 0 <= j < k ==> (#[trigger] self.sessions@[j]).name < name,
            decreases self.sessions@.len() - k,
        {
            proof {
                assert(self.sessions@[k as int].name != name);
            }
            k += 1;
        }
        let fresh = Session { name, token, safe_endpoint: Some(endpoint), fast_endpoint: None };
        let ghost prev = self.sessions@;
        self.sessions.insert(k, fresh);
        self.next_token = self.next_token + 1;
        proof {
            assert(self.sessions@ == prev.insert(k as int, fresh));
            assert(forall|j: int| 0 <= j < k ==> self.sessions@[j] == prev[j]);
            assert(forall|j: int|
                k < j < self.sessions@.len() ==> self.sessions@[j] == prev[j - 1]);
            assert((k as int) < prev.len() ==> prev[k as int].name != name);
            assert(forall|j: int|
                k <= j < prev.len() ==> name < (#[trigger] prev[j]).name) by {
                if (k as int) < prev.len() {
                    assert(prev[k as int].name > name);
                    assert(forall|j: int|
                        k < j < prev.len() ==> prev[k as int].name < (#[trigger] prev[j]).name);
                }
            }
            assert(final(self).wf());
        }
        SessionCreationResult::Created(token)
    }

    /// Detaches the endpoints of the session bound to `ep`, keeping the
    /// session (a "ghost") so that its name can be recycled later. Returns
    /// the session as it was before the detach.
    pub fn notify_lost_endpoint(&mut self, ep: u64) -> (r: Option<Session>)
        requires
            old(self).wf(),
        ensures
            final(self).wf(),
            final(self).capacity == old(self).capacity,
            final(self).next_token == old(self).next_token,
            match r {
                Some(s) => exists|k: int|
                    {
                        &&& 0 <= k < old(self).sessions@.len()
                        &&& old(self).sessions@[k] == s
                        &&& s.safe_endpoint == Some(ep)
                        &&& final(self).sessions@ == old(self).sessions@.update(
                            k,
                            Session { safe_endpoint: None, fast_endpoint: None, ..s },
                        )
                    },
                None => final(self).sessions@ == old(self).sessions@ && !endpoint_bound(
                    old(self).sessions@,
                    ep,
                ),
            },
    {
        let mut i: usize = 0;
        while i < self.sessions.len()
            invariant
                *self == *old(self),
                i <= self.sessions@.len(),
                forall|k: int|
                    0 <= k < i ==> (#[trigger] self.sessions@[k]).safe_endpoint != Some(ep),
            decreases self.sessions@.len() - i,
        {
            let session = self.sessions[i];
            match session.safe_endpoint {
                Some(bound) => {
                    if bound == ep {
                        let updated = Session {
                            name: session.name,
                            token: session.token,
                            safe_endpoint: None,
                            fast_endpoint: None,
                        };
                        self.sessions[i] = updated;
                        return Some(session);
                    }
                },
                None => {},
            }
            i += 1;
        }
        None
    }

    /// Removes the session bound to `ep` outright (used while no game is
    /// running). Returns the removed session.
    pub fn remove_session_by_endpoint(&mut self, ep: u64) -> (r: Option<Session>)
        requires
            old(self).wf(),
        ensures
            final(self).wf(),
            final(self).capacity == old(self).capacity,
            final(self).next_token == old(self).next_token,
            match r {
                Some(s) => exists|k: int|
                    {
                        &&& 0 <= k < old(self).sessions@.len()
                        &&& old(self).sessions@[k] == s
                        &&& s.safe_endpoint == Some(ep)
                        &&& final(self).sessions@ == old(self).sessions@.remove(k)
                    },
                None => final(self).sessions@ == old(self).sessions@ && !endpoint_bound(
                    old(self).sessions@,
                    ep,
                ),
            },
    {
        let mut i: usize = 0;
        while i < self.sessions.len()
            invariant
                *self == *old(self),
                i <= self.sessions@.len(),
                forall|k: int|
                    0 <= k < i ==> (#[trigger] self.sessions@[k]).safe_endpoint != Some(ep),
            decreases self.sessions@.len() - i,
        {
            let session = self.sessions[i];
            match session.safe_endpoint {
                Some(bound) => {
                    if bound == ep {
                        self.sessions.remove(i);
                        return Some(session);
                    }
                },
                None => {},
            }
            i += 1;
        }
        None
    }

    /// Attaches the unreliable endpoint `ep` to the session whose token is
    /// `token`; reports whether a session carried that token.
    pub fn bind_fast_endpoint(&mut self, token: SessionToken, ep: u64) -> (r: bool)
        requires
            old(self).wf(),
        ensures
            final(self).wf(),
            final(self).capacity == old(self).capacity,
            final(self).next_token == old(self).next_token,
            r ==> exists|k: int|
                {
                    &&& 0 <= k < old(self).sessions@.len()
                    &&& old(self).sessions@[k].token == token
                    &&& final(self).sessions@ == old(self).sessions@.update(
                        k,
                        Session { fast_endpoint: Some(ep), ..old(self).sessions@[k] },
                    )
                },
            !r ==> final(self).sessions@ == old(self).sessions@ && forall|k: int|
                0 <= k < old(self).sessions@.len() ==> (#[trigger] old(
                    self,
                ).sessions@[k]).token != token,
    {
        let mut i: usize = 0;
        while i < self.sessions.len()
            invariant
                *self == *old(self),
                i <= self.sessions@.len(),
                forall|k: int| 0 <= k < i ==> (#[trigger] self.sessions@[k]).token != token,
            decreases self.sessions@.len() - i,
        {
            let session = self.sessions[i];
            if session.token == token {
                let updated = Session {
                    name: session.name,
                    token: session.token,
                    safe_endpoint: session.safe_endpoint,
                    fast_endpoint: Some(ep),
                };
                self.sessions[i] = updated;
                return true;
            }
            i += 1;
        }
        false
    }

    /// The currently bound reliable endpoints, in session order.
    pub fn safe_endpoints(&self) -> (r: Vec<u64>)
        ensures
            r@ == safe_endpoints_of(self.sessions@),
    {
        let mut r: Vec<u64> = Vec::new();
        let mut i: usize = 0;
        while i < self.sessions.len()
            invariant
                i <= self.sessions@.len(),
                r@ == safe_endpoints_of(self.sessions@.take(i as int)),
            decreases self.sessions@.len() - i,
        {
            match self.sessions[i].safe_endpoint {
                Some(ep) => r.push(ep),
                None => {},
            }
            proof {
                lemma_safe_endpoints_take(self.sessions@, i as int);
            }
            i += 1;
        }
        proof {
            assert(self.sessions@.take(self.sessions@.len() as int) =~= self.sessions@);
        }
        r
    }

    /// The currently bound unreliable endpoints, in session order.
    pub fn fast_endpoints(&self) -> (r: Vec<u64>)
        ensures
            r@ == fast_endpoints_of(self.sessions@),
    {
        let mut r: Vec<u64> = Vec::new();
        let mut i: usize = 0;
        while i < self.sessions.len()
            invariant
                i <= self.sessions@.len(),
                r@ == fast_endpoints_of(self.sessions@.take(i as int)),
            decreases self.sessions@.len() - i,
        {
            match self.sessions[i].fast_endpoint {
                Some(ep) => r.push(ep),
                None => {},
            }
            proof {
                lemma_fast_endpoints_take(self.sessions@, i as int);
            }
            i += 1;
        }
        proof {
            assert(self.sessions@.take(self.sessions@.len() as int) =~= self.sessions@);
        }
        r
    }
}

/// Appending one session to a prefix extends its bound-endpoint list by
/// that session's endpoint, if bound.
proof fn lemma_safe_endpoints_take(s: Seq<Session>, i: int)
    requires
        0 <= i < s.len(),
    ensures
        safe_endpoints_of(s.take(i + 1)) == match s[i].safe_endpoint {
            Some(ep) => safe_endpoints_of(s.take(i)).push(ep),
            None => safe_endpoints_of(s.take(i)),
        },
    decreases i,
{
    if i == 0 {
        assert(s.take(1).drop_first() =~= Seq::<Session>::empty());
        assert(safe_endpoints_of(Seq::<Session>::empty()) == Seq::<u64>::empty());
        match s[0].safe_endpoint {
            Some(ep) => {
                assert(safe_endpoints_of(s.take(1)) =~= safe_endpoints_of(s.take(0)).push(ep));
            },
            None => {
                assert(safe_endpoints_of(s.take(1)) =~= safe_endpoints_of(s.take(0)));
            },
        }
    } else {
        lemma_safe_endpoints_take(s.drop_first(), i - 1);
        assert(s.take(i + 1).drop_first() =~= s.drop_first().take(i));
        assert(s.take(i).drop_first() =~= s.drop_first().take(i - 1));
        assert(s.drop_first()[i - 1] == s[i]);
        match s[i].safe_endpoint {
            Some(ep) => {
                assert(safe_endpoints_of(s.take(i + 1)) =~= safe_endpoints_of(s.take(i)).push(ep));
            },
            None => {
                assert(safe_endpoints_of(s.take(i + 1)) =~= safe_endpoints_of(s.take(i)));
            },
        }
    }
}

proof fn lemma_fast_endpoints_take(s: Seq<Session>, i: int)
    requires
        0 <= i < s.len(),
    ensures
        fast_endpoints_of(s.take(i + 1)) == match s[i].fast_endpoint {
            Some(ep) => fast_endpoints_of(s.take(i)).push(ep),
            None => fast_endpoints_of(s.take(i)),
        },
    decreases i,
{
    if i == 0 {
        assert(s.take(1).drop_first() =~= Seq::<Session>::empty());
        assert(fast_endpoints_of(Seq::<Session>::empty()) == Seq::<u64>::empty());
        match s[0].fast_endpoint {
            Some(ep) => {
                assert(fast_endpoints_of(s.take(1)) =~= fast_endpoints_of(s.take(0)).push(ep));
            },
            None => {
                assert(fast_endpoints_of(s.take(1)) =~= fast_endpoints_of(s.take(0)));
            },
        }
    } else {
        lemma_fast_endpoints_take(s.drop_first(), i - 1);
        assert(s.take(i + 1).drop_first() =~= s.drop_first().take(i));
        assert(s.take(i).drop_first() =~= s.drop_first().take(i - 1));
        assert(s.drop_first()[i - 1] == s[i]);
        match s[i].fast_endpoint {
            Some(ep) => {
                assert(fast_endpoints_of(s.take(i + 1)) =~= fast_endpoints_of(s.take(i)).push(ep));
            },
            None => {
                assert(fast_endpoints_of(s.take(i + 1)) =~= fast_endpoints_of(s.take(i)));
            },
        }
    }
}

/// In a well-formed room the session names are pairwise distinct, so the
/// set of names is as large as the session list, which never exceeds the
/// capacity.
pub proof fn lemma_room_name_cardinality(room: Room)
    requires
        room.wf(),
    ensures
        room.sessions@.map_values(|s: Session| s.name).to_set().len() == room.sessions@.len(),
        room.sessions@.len() <= room.capacity,
{
    let names = room.sessions@.map_values(|s: Session| s.name);
    assert forall|i: int, j: int| 0 <= i < names.len() && 0 <= j < names.len() && i != j
        implies names[i] != names[j] by {
        if i < j {
            assert(room.sessions@[i].name < room.sessions@[j].name);
        } else {
            assert(room.sessions@[j].name < room.sessions@[i].name);
        }
    }
    assert(names.no_duplicates());
    names.unique_seq_to_set();
}

} // verus!
