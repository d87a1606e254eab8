//! The server orchestration logic: a pure state machine over the room, the
//! game and the configuration. Every handler turns one network message or
//! one queued event into the next state and a list of requested effects
//! (sends, broadcasts, endpoint drops and queued events); the transport
//! and the event queue live outside and perform them.

#![verifier::loop_isolation(false)]

use vstd::prelude::*;

verus! {

use vstd::string::StringSliceAdditionalSpecFns;

use crate::arena::valid_tick_time;
use crate::game::Game;
use crate::message::LoginStatus;
use crate::message::ServerInfo;
use crate::message::ServerMessage;
use crate::room::Room;
use crate::room::SessionCreationResult;
use crate::room::endpoint_bound;
use crate::room::fast_endpoints_of;
use crate::room::has_name;
use crate::room::safe_endpoints_of;
use crate::util::SessionToken;
use crate::util::valid_player_name;
use crate::version::Compatibility;
use crate::version::spec_check;
use crate::version::spec_current;
use crate::version::spec_parse_version;

/// The milliseconds between two game steps (30 ticks per second).
pub const GAME_STEP_PERIOD_MS: u64 = 33;

/// The events of the server's own queue.
#[derive(Clone, Copy, PartialEq, Eq, Structural, Debug)]
pub enum Event {
    CreateGame,
    CreateArena,
    StartArena,
    GameStep,
    Reset,
    Close,
}

/// One effect requested from the transport or the event queue.
#[derive(PartialEq, Eq, Debug)]
pub enum ServerOutput {
    /// Send on the reliable channel to one endpoint.
    SendSafe(u64, ServerMessage),
    /// Send on the reliable channel to each listed endpoint, in order.
    BroadcastSafe(Vec<u64>, ServerMessage),
    /// Send on the unreliable channel to each listed endpoint, in order.
    BroadcastFast(Vec<u64>, ServerMessage),
    /// Close the connection of this endpoint.
    DropEndpoint(u64),
    /// Put an event on the queue now.
    Enqueue(Event),
    /// Put an event on the queue after the given delay in milliseconds.
    EnqueueTimed(Event, u64),
}

/// The configuration the server was started with.
pub struct ServerConfig {
    pub tcp_port: u16,
    pub udp_port: u16,
    pub players_number: usize,
    pub map_size: usize,
    pub winner_points: usize,
    pub arena_waiting_ms: u64,
}

impl ServerConfig {
    /// The bounds under which the configuration fits the wire format and
    /// the grid arithmetic.
    pub open spec fn wf(self) -> bool {
        &&& 3 <= self.map_size <= 65535
        &&& 1 <= self.players_number <= 255
        &&& self.players_number <= (self.map_size - 2) * (self.map_size - 2)
        &&& self.winner_points <= 65535
    }
}

/// The bytes of the version string this library answers the handshake
/// with.
pub open spec fn spec_current_version_bytes() -> Seq<u8> {
    seq![48u8, 46u8, 50u8, 46u8, 48u8]
}

/// The version string of `spec_current`, as bytes.
pub fn current_version_bytes() -> (r: Vec<u8>)
    ensures
        r@ == spec_current_version_bytes(),
{
    let mut r: Vec<u8> = Vec::new();
    r.push(48);
    r.push(46);
    r.push(50);
    r.push(46);
    r.push(48);
    proof {
        assert(r@ =~= spec_current_version_bytes());
    }
    r
}

/// The compatibility the server computes for a client version string:
/// unparseable versions are incompatible.
pub open spec fn spec_client_compatibility(version_bytes: Seq<u8>) -> Compatibility {
    match spec_parse_version(version_bytes) {
        Some(v) => spec_check(v, spec_current()),
        None => Compatibility::Incompatible,
    }
}

/// The whole server state the orchestrator owns.
pub struct ServerLogic {
    pub config: ServerConfig,
    pub room: Room,
    pub game: Option<Game>,
    pub timestamp_last_arena_creation: Option<u64>,
}

impl ServerLogic {
    pub open spec fn wf(self) -> bool {
        &&& self.config.wf()
        &&& self.room.wf()
        &&& self.room.capacity == self.config.players_number
        &&& match self.game {
            Some(g) => g.wf() && g.map_size == self.config.map_size && g.winner_points
                == self.config.winner_points,
            None => true,
        }
    }

    pub fn new(config: ServerConfig) -> (r: ServerLogic)
        requires
            config.wf(),
        ensures
            r.wf(),
            r.room.sessions@.len() == 0,
            r.game is None,
            r.config == config,
    {
        let capacity = config.players_number;
        ServerLogic { config, room: Room::new(capacity), game: None, timestamp_last_arena_creation: None }
    }

    /// The `Version` handshake: answer with the server version and the
    /// computed compatibility, and drop the endpoint when the client is
    /// incompatible.
    pub fn process_version(&mut self, endpoint: u64, version_bytes: &Vec<u8>) -> (r: Vec<
        ServerOutput,
    >)
        requires
            old(self).wf(),
        ensures
            final(self).wf(),
            *final(self) == *old(self),
            ({
                let compat = spec_client_compatibility(version_bytes@);
                &&& r@.len() == if compat is Incompatible {
                    2int
                } else {
                    1int
                }
                &&& (r@[0] matches ServerOutput::SendSafe(
                    e,
                    ServerMessage::Version(v, c),
                ) && e == endpoint && v@ == spec_current_version_bytes() && c == compat)
                &&& (compat is Incompatible ==> r@[1] == ServerOutput::DropEndpoint(endpoint))
            }),
    {
        let compatibility = match crate::version::parse_version_bytes(version_bytes.as_slice()) {
            Some(v) => crate::version::check(&v, &crate::version::current()),
            None => Compatibility::Incompatible,
        };
        let mut r: Vec<ServerOutput> = Vec::new();
        r.push(
            ServerOutput::SendSafe(
                endpoint,
                ServerMessage::Version(current_version_bytes(), compatibility),
            ),
        );
        let incompatible = match compatibility {
            Compatibility::Incompatible => true,
            _ => false,
        };
        if incompatible {
            r.push(ServerOutput::DropEndpoint(endpoint));
        }
        r
    }

    /// `RequestServerInfo`: answer with the static game facts and the
    /// currently logged player names.
    pub fn process_request_server_info(&self, endpoint: u64) -> (r: Vec<ServerOutput>)
        requires
            self.wf(),
        ensures
            r@.len() == 1,
            (r@[0] matches ServerOutput::SendSafe(e, ServerMessage::ServerInfo(info)) && e
                == endpoint && info.udp_port == self.config.udp_port && info.players_number
                == self.config.players_number && info.map_size == self.config.map_size
                && info.winner_points == self.config.winner_points && info.logged_players@
                == self.room.sessions@.map_values(|s: crate::room::Session| s.name)),
    {
        let info = ServerInfo {
            udp_port: self.config.udp_port,
            players_number: self.config.players_number as u8,
            map_size: self.config.map_size as u16,
            winner_points: self.config.winner_points as u16,
            logged_players: self.room.session_names(),
        };
        let mut r: Vec<ServerOutput> = Vec::new();
        r.push(ServerOutput::SendSafe(endpoint, ServerMessage::ServerInfo(info)));
        r
    }

    /// The login status the room's answer maps to.
    pub open spec fn login_status_of(res: SessionCreationResult) -> LoginStatus {
        match res {
            SessionCreationResult::Created(t) => LoginStatus::Logged(t),
            SessionCreationResult::Recycled(t) => LoginStatus::Reconnected(t),
            SessionCreationResult::AlreadyLogged => LoginStatus::AlreadyLogged,
            SessionCreationResult::Full => LoginStatus::PlayerLimit,
        }
    }

    /// `Login`: validate the name, consult the room, answer the login
    /// status; on a fresh login tell the other players and start the game
    /// when the room just became full; on a reconnect during a game replay
    /// the lifecycle messages this endpoint missed.
    pub fn process_login(&mut self, endpoint: u64, name: &str, now_ms: u64) -> (r: Vec<
        ServerOutput,
    >)
        requires
            old(self).wf(),
        ensures
            final(self).wf(),
            final(self).config == old(self).config,
            final(self).game == old(self).game,
            final(self).timestamp_last_arena_creation == old(self).timestamp_last_arena_creation,
            r@.len() >= 1,
            // An invalid name is rejected before the room is consulted.
            !valid_player_name(name.spec_bytes()) ==> final(self).room == old(self).room && r@.len()
                == 1 && r@[0] == ServerOutput::SendSafe(
                endpoint,
                ServerMessage::LoginStatus(LoginStatus::InvalidPlayerName),
            ),
            // With a valid name the room decides; the first output is
            // always the login status for this endpoint.
            valid_player_name(name.spec_bytes()) ==> exists|res: SessionCreationResult|
                {
                    &&& #[trigger] Self::login_status_of(res) == Self::login_status_of(res)
                    &&& r@[0] == ServerOutput::SendSafe(
                        endpoint,
                        ServerMessage::LoginStatus(Self::login_status_of(res)),
                    )
                    &&& match res {
                        SessionCreationResult::Created(t) => {
                            &&& !has_name(old(self).room.sessions@, name.spec_bytes()[0])
                            &&& !endpoint_bound(old(self).room.sessions@, endpoint)
                            &&& old(self).room.sessions@.len() < old(self).room.capacity
                            &&& t == old(self).room.next_token
                            &&& final(self).room.next_token == old(self).room.next_token + 1
                            &&& final(self).room.sessions@.len() == old(self).room.sessions@.len()
                                + 1
                            &&& exists|k: int|
                                0 <= k <= old(self).room.sessions@.len()
                                    && final(self).room.sessions@ == old(self).room.sessions@.insert(
                                    k,
                                    crate::room::Session {
                                        name: name.spec_bytes()[0],
                                        token: t,
                                        safe_endpoint: Some(endpoint),
                                        fast_endpoint: None,
                                    },
                                )
                            &&& (r@[1] matches ServerOutput::BroadcastSafe(
                                eps,
                                ServerMessage::PlayerListUpdated(names),
                            ) && eps@ == remove_endpoint(
                                safe_endpoints_of(final(self).room.sessions@),
                                endpoint,
                            ) && names@ == final(self).room.sessions@.map_values(
                                |s: crate::room::Session| s.name,
                            ))
                            &&& (old(self).game is None && final(self).room.sessions@.len()
                                == final(self).room.capacity ==> r@.len() == 3 && r@[2]
                                == ServerOutput::Enqueue(Event::CreateGame))
                            &&& (!(old(self).game is None && final(self).room.sessions@.len()
                                == final(self).room.capacity) ==> r@.len() == 2)
                        },
                        SessionCreationResult::Recycled(t) => {
                            &&& !endpoint_bound(old(self).room.sessions@, endpoint)
                            &&& final(self).room.next_token == old(self).room.next_token
                            &&& final(self).room.sessions@.len() == old(self).room.sessions@.len()
                            &&& exists|k: int|
                                {
                                    &&& 0 <= k < old(self).room.sessions@.len()
                                    &&& old(self).room.sessions@[k].name == name.spec_bytes()[0]
                                    &&& old(self).room.sessions@[k].safe_endpoint is None
                                    &&& t == old(self).room.sessions@[k].token
                                    &&& final(self).room.sessions@ == old(
                                        self,
                                    ).room.sessions@.update(
                                        k,
                                        crate::room::Session {
                                            safe_endpoint: Some(endpoint),
                                            ..old(self).room.sessions@[k]
                                        },
                                    )
                                }
                            &&& (old(self).game is Some ==> {
                                &&& r@.len() >= 3
                                &&& r@[1] == ServerOutput::SendSafe(
                                    endpoint,
                                    ServerMessage::StartGame,
                                )
                                &&& match old(self).timestamp_last_arena_creation {
                                    Some(ts) => {
                                        if now_ms <= ts + old(self).config.arena_waiting_ms {
                                            r@.len() == 3 && (r@[2]
                                                matches ServerOutput::SendSafe(
                                                e,
                                                ServerMessage::PrepareArena(d),
                                            ) && e == endpoint && (ts
                                                + old(self).config.arena_waiting_ms <= u64::MAX
                                                ==> ts + old(self).config.arena_waiting_ms
                                                == now_ms + d))
                                        } else {
                                            r@.len() == 3 && r@[2] == ServerOutput::SendSafe(
                                                endpoint,
                                                ServerMessage::StartArena(
                                                    arena_number_of(old(self).game) as u64,
                                                ),
                                            )
                                        }
                                    },
                                    None => r@.len() == 3 && r@[2] == ServerOutput::SendSafe(
                                        endpoint,
                                        ServerMessage::StartArena(
                                            arena_number_of(old(self).game) as u64,
                                        ),
                                    ),
                                }
                            })
                            &&& (old(self).game is None ==> r@.len() == 1)
                        },
                        SessionCreationResult::AlreadyLogged => {
                            &&& final(self).room.sessions@ == old(self).room.sessions@
                            &&& final(self).room.next_token == old(self).room.next_token
                            &&& (endpoint_bound(old(self).room.sessions@, endpoint) || exists|k: int|
                                0 <= k < old(self).room.sessions@.len() && old(
                                    self,
                                ).room.sessions@[k].name == name.spec_bytes()[0] && old(
                                    self,
                                ).room.sessions@[k].safe_endpoint is Some)
                            &&& r@.len() == 1
                        },
                        SessionCreationResult::Full => {
                            &&& final(self).room.sessions@ == old(self).room.sessions@
                            &&& final(self).room.next_token == old(self).room.next_token
                            &&& !has_name(old(self).room.sessions@, name.spec_bytes()[0])
                            &&& !endpoint_bound(old(self).room.sessions@, endpoint)
                            &&& (old(self).room.sessions@.len() == old(self).room.capacity || old(
                                self,
                            ).room.next_token == u64::MAX)
                            &&& r@.len() == 1
                        },
                    }
                },
    {
        let mut r: Vec<ServerOutput> = Vec::new();
        if !crate::util::is_valid_player_name(name) {
            r.push(
                ServerOutput::SendSafe(
                    endpoint,
                    ServerMessage::LoginStatus(LoginStatus::InvalidPlayerName),
                ),
            );
            return r;
        }
        let name_byte = name.as_bytes()[0];
        let result = self.room.create_session(name_byte, endpoint);
        let status = match result {
            SessionCreationResult::Created(t) => LoginStatus::Logged(t),
            SessionCreationResult::Recycled(t) => LoginStatus::Reconnected(t),
            SessionCreationResult::AlreadyLogged => LoginStatus::AlreadyLogged,
            SessionCreationResult::Full => LoginStatus::PlayerLimit,
        };
        r.push(ServerOutput::SendSafe(endpoint, ServerMessage::LoginStatus(status)));
        match result {
            SessionCreationResult::Created(_) => {
                let eps = self.room.safe_endpoints();
                let others = remove_endpoint_exec(&eps, endpoint);
                let names = self.room.session_names();
                r.push(
                    ServerOutput::BroadcastSafe(others, ServerMessage::PlayerListUpdated(names)),
                );
                let game_running = match self.game {
                    Some(_) => true,
                    None => false,
                };
                if !game_running && self.room.is_full() {
                    r.push(ServerOutput::Enqueue(Event::CreateGame));
                }
            },
            SessionCreationResult::Recycled(_) => {
                let (game_running, arena_number) = match &self.game {
                    Some(g) => (true, g.arena_count),
                    None => (false, 0),
                };
                if game_running {
                    r.push(ServerOutput::SendSafe(endpoint, ServerMessage::StartGame));
                    let mut prepare_sent = false;
                    match self.timestamp_last_arena_creation {
                        Some(ts) => {
                            let deadline = ts.saturating_add(self.config.arena_waiting_ms);
                            if now_ms <= deadline {
                                let remaining = deadline - now_ms;
                                r.push(
                                    ServerOutput::SendSafe(
                                        endpoint,
                                        ServerMessage::PrepareArena(remaining),
                                    ),
                                );
                                prepare_sent = true;
                            }
                        },
                        None => {},
                    }
                    if !prepare_sent {
                        r.push(
                            ServerOutput::SendSafe(
                                endpoint,
                                ServerMessage::StartArena(arena_number as u64),
                            ),
                        );
                    }
                }
            },
            _ => {},
        }
        proof {
            assert(Self::login_status_of(result) == Self::login_status_of(result));
            assert(r@[0] == ServerOutput::SendSafe(
                endpoint,
                ServerMessage::LoginStatus(Self::login_status_of(result)),
            ));
            match result {
                SessionCreationResult::Created(t) => {
                    assert(r@.len() == 2 || r@.len() == 3);
                    assert(r@[1] matches ServerOutput::BroadcastSafe(
                        eps,
                        ServerMessage::PlayerListUpdated(names),
                    ) && eps@ == remove_endpoint(
                        safe_endpoints_of(self.room.sessions@),
                        endpoint,
                    ) && names@ == self.room.sessions@.map_values(
                        |s: crate::room::Session| s.name,
                    ));
                },
                SessionCreationResult::Recycled(t) => {
                    assert(old(self).game is None ==> r@.len() == 1);
                    assert(old(self).game is Some ==> r@.len() == 3 && r@[1]
                        == ServerOutput::SendSafe(endpoint, ServerMessage::StartGame));
                },
                _ => {
                    assert(r@.len() == 1);
                },
            }
        }
        r
    }
}

/// The current arena number of a running game, `0` before the first arena.
pub open spec fn arena_number_of(game: Option<Game>) -> usize {
    match game {
        Some(g) => g.arena_count,
        None => 0,
    }
}

/// `eps` with every occurrence of `ep` removed, in order.
pub open spec fn remove_endpoint(eps: Seq<u64>, ep: u64) -> Seq<u64>
    decreases eps.len(),
{
    if eps.len() == 0 {
        Seq::empty()
    } else {
        let rest = remove_endpoint(eps.drop_first(), ep);
        if eps[0] == ep {
            rest
        } else {
            seq![eps[0]] + rest
        }
    }
}

proof fn lemma_remove_endpoint_take(eps: Seq<u64>, ep: u64, i: int)
    requires
        0 <= i < eps.len(),
    ensures
        remove_endpoint(eps.take(i + 1), ep) == if eps[i] == ep {
            remove_endpoint(eps.take(i), ep)
        } else {
            remove_endpoint(eps.take(i), ep).push(eps[i])
        },
    decreases i,
{
    if i == 0 {
        assert(eps.take(0) =~= Seq::<u64>::empty());
        assert(eps.take(1)[0] == eps[0]);
        assert(eps.take(1).drop_first() =~= Seq::<u64>::empty());
        assert(remove_endpoint(Seq::<u64>::empty(), ep) == Seq::<u64>::empty());
        if eps[0] == ep {
            assert(remove_endpoint(eps.take(1), ep) =~= remove_endpoint(eps.take(0), ep));
        } else {
            assert(remove_endpoint(eps.take(1), ep) =~= remove_endpoint(eps.take(0), ep).push(
                eps[0],
            ));
        }
    } else {
        lemma_remove_endpoint_take(eps.drop_first(), ep, i - 1);
        assert(eps.take(i + 1).drop_first() =~= eps.drop_first().take(i));
        assert(eps.take(i).drop_first() =~= eps.drop_first().take(i - 1));
        assert(eps.drop_first()[i - 1] == eps[i]);
        if eps[i] == ep {
            assert(remove_endpoint(eps.take(i + 1), ep) =~= remove_endpoint(eps.take(i), ep));
        } else {
            assert(remove_endpoint(eps.take(i + 1), ep) =~= remove_endpoint(eps.take(i), ep).push(
                eps[i],
            ));
        }
    }
}

/// Filters `ep` out of an endpoint list.
fn remove_endpoint_exec(eps: &Vec<u64>, ep: u64) -> (r: Vec<u64>)
    ensures
        r@ == remove_endpoint(eps@, ep),
{
    let mut r: Vec<u64> = Vec::new();
    let mut i: usize = 0;
    proof {
        assert(eps@.take(0) =~= Seq::<u64>::empty());
    }
    while i < eps.len()
        invariant
            i <= eps@.len(),
            r@ == remove_endpoint(eps@.take(i as int), ep),
        decreases eps@.len() - i,
    {
        proof {
            lemma_remove_endpoint_take(eps@, ep, i as int);
        }
        if eps[i] != ep {
            r.push(eps[i]);
        }
        i += 1;
    }
    proof {
        assert(eps@.take(eps@.len() as int) =~= eps@);
    }
    r
}

impl ServerLogic {
    /// `CreateGame`: instantiate the game for the current room, announce
    /// it on the reliable channel and queue the first arena.
    pub fn process_create_game(&mut self) -> (r: Vec<ServerOutput>)
        requires
            old(self).wf(),
        ensures
            final(self).wf(),
            final(self).config == old(self).config,
            final(self).room == old(self).room,
            final(self).game matches Some(g) && (g.players@ == old(
                self,
            ).room.sessions@.map_values(|s: crate::room::Session| s.name) && g.winner_points == old(
                self,
            ).config.winner_points && g.arena is None && g.arena_count == 0 && g.points@.len()
                == g.players@.len() && (forall|i: int|
                0 <= i < g.points@.len() ==> g.points@[i] == 0)),
            r@.len() == 2,
            (r@[0] matches ServerOutput::BroadcastSafe(eps, ServerMessage::StartGame) && eps@
                == safe_endpoints_of(old(self).room.sessions@)),
            r@[1] == ServerOutput::Enqueue(Event::CreateArena),
    {
        proof {
            assert(self.room.sessions@.len() <= self.config.players_number);
        }
        let game = Game::new(
            self.config.winner_points,
            self.config.map_size,
            self.room.session_names(),
        );
        self.game = Some(game);
        let mut r: Vec<ServerOutput> = Vec::new();
        r.push(ServerOutput::BroadcastSafe(self.room.safe_endpoints(), ServerMessage::StartGame));
        r.push(ServerOutput::Enqueue(Event::CreateArena));
        r
    }

    /// `CreateArena`: build the next arena, tell the players to prepare,
    /// and schedule the arena start after the waiting delay.
    pub fn process_create_arena(&mut self, now_ms: u64) -> (r: Vec<ServerOutput>)
        requires
            old(self).wf(),
            old(self).game is Some,
        ensures
            final(self).wf(),
            final(self).config == old(self).config,
            final(self).room == old(self).room,
            old(self).game matches Some(g0) && (final(self).game matches Some(g) && (g.players@
                == g0.players@ && g.points@ == g0.points@ && g.winner_points == g0.winner_points
                && g.arena_count == if g0.arena_count < usize::MAX {
                (g0.arena_count + 1) as usize
            } else {
                g0.arena_count
            } && (g.arena matches Some(a) && (a.arena_number == g.arena_count && a.entities@.len()
                == g0.players@.len() && a.spells@.len() == 0 && forall|k: int|
                0 <= k < a.entities@.len() ==> (#[trigger] a.entities@[k]).character.id
                    == crate::character::CharacterId::Player(g0.players@[k] as char))))),
            final(self).timestamp_last_arena_creation == Some(now_ms),
            r@.len() == 2,
            (r@[0] matches ServerOutput::BroadcastSafe(eps, ServerMessage::PrepareArena(d)) && eps@
                == safe_endpoints_of(old(self).room.sessions@) && d == old(
                self,
            ).config.arena_waiting_ms),
            r@[1] == ServerOutput::EnqueueTimed(Event::StartArena, old(self).config.arena_waiting_ms),
    {
        let mut game_opt: Option<Game> = None;
        core::mem::swap(&mut game_opt, &mut self.game);
        let mut game = match game_opt {
            Some(g) => g,
            None => {
                proof {
                    assert(false);
                }
                unreached()
            },
        };
        game.create_new_arena();
        self.game = Some(game);
        self.timestamp_last_arena_creation = Some(now_ms);
        let mut r: Vec<ServerOutput> = Vec::new();
        r.push(
            ServerOutput::BroadcastSafe(
                self.room.safe_endpoints(),
                ServerMessage::PrepareArena(self.config.arena_waiting_ms),
            ),
        );
        r.push(ServerOutput::EnqueueTimed(Event::StartArena, self.config.arena_waiting_ms));
        r
    }

    /// `StartArena`: announce the arena and queue the first game step.
    pub fn process_start_arena(&self) -> (r: Vec<ServerOutput>)
        requires
            self.wf(),
            self.game is Some,
        ensures
            r@.len() == 2,
            (r@[0] matches ServerOutput::BroadcastSafe(eps, ServerMessage::StartArena(n)) && eps@
                == safe_endpoints_of(self.room.sessions@) && n == arena_number_of(self.game) as u64),
            r@[1] == ServerOutput::Enqueue(Event::GameStep),
    {
        let number = match &self.game {
            Some(g) => g.arena_count,
            None => 0,
        };
        let mut r: Vec<ServerOutput> = Vec::new();
        r.push(
            ServerOutput::BroadcastSafe(
                self.room.safe_endpoints(),
                ServerMessage::StartArena(number as u64),
            ),
        );
        r.push(ServerOutput::Enqueue(Event::GameStep));
        r
    }

    /// `GameStep`: tick the arena, push the step to the unreliable
    /// endpoints, and drive the arena/game lifecycle: a finished arena is
    /// announced; a finished game is announced and queues the reset; an
    /// unfinished arena schedules the next step.
    pub fn process_game_step(&mut self, now_ms: u64) -> (r: Vec<ServerOutput>)
        requires
            old(self).wf(),
            old(self).game matches Some(g) && g.arena is Some,
            valid_tick_time(now_ms),
        ensures
            final(self).wf(),
            final(self).config == old(self).config,
            final(self).room == old(self).room,
            final(self).game is Some,
            r@.len() >= 2,
            (r@[0] matches ServerOutput::BroadcastFast(eps, ServerMessage::Step) && eps@
                == fast_endpoints_of(old(self).room.sessions@)),
            ({
                let g = final(self).game.unwrap();
                let arena_finished = match g.arena {
                    Some(a) => a.entities@.len() <= 1,
                    None => false,
                };
                if arena_finished {
                    &&& (r@[1] matches ServerOutput::BroadcastSafe(eps, ServerMessage::EndArena)
                        && eps@ == safe_endpoints_of(old(self).room.sessions@))
                    &&& if g.spec_has_finished() {
                        &&& r@.len() == 4
                        &&& (r@[2] matches ServerOutput::BroadcastSafe(
                            eps2,
                            ServerMessage::EndGame,
                        ) && eps2@ == safe_endpoints_of(old(self).room.sessions@))
                        &&& r@[3] == ServerOutput::Enqueue(Event::Reset)
                    } else {
                        r@.len() == 3 && r@[2] == ServerOutput::Enqueue(Event::CreateArena)
                    }
                } else {
                    r@.len() == 2 && r@[1] == ServerOutput::EnqueueTimed(
                        Event::GameStep,
                        GAME_STEP_PERIOD_MS,
                    )
                }
            }),
    {
        let mut game_opt: Option<Game> = None;
        core::mem::swap(&mut game_opt, &mut self.game);
        let mut game = match game_opt {
            Some(g) => g,
            None => {
                proof {
                    assert(false);
                }
                unreached()
            },
        };
        game.step(now_ms);
        let mut r: Vec<ServerOutput> = Vec::new();
        r.push(ServerOutput::BroadcastFast(self.room.fast_endpoints(), ServerMessage::Step));
        let arena_finished = match game.arena() {
            Some(a) => a.entities().len() <= 1,
            None => false,
        };
        if arena_finished {
            r.push(
                ServerOutput::BroadcastSafe(self.room.safe_endpoints(), ServerMessage::EndArena),
            );
            if game.has_finished() {
                r.push(
                    ServerOutput::BroadcastSafe(self.room.safe_endpoints(), ServerMessage::EndGame),
                );
                r.push(ServerOutput::Enqueue(Event::Reset));
            } else {
                r.push(ServerOutput::Enqueue(Event::CreateArena));
            }
        } else {
            r.push(ServerOutput::EnqueueTimed(Event::GameStep, GAME_STEP_PERIOD_MS));
        }
        self.game = Some(game);
        r
    }

    /// `Reset`: drop the game and every session; the server accepts
    /// logins again.
    pub fn process_reset(&mut self)
        requires
            old(self).wf(),
        ensures
            final(self).wf(),
            final(self).config == old(self).config,
            final(self).game is None,
            final(self).room.sessions@.len() == 0,
            final(self).room.capacity == old(self).room.capacity,
    {
        self.game = None;
        self.room.clear();
    }

    /// A lost endpoint: during a game the session stays as a ghost for a
    /// later reconnect; outside a game it is removed and the remaining
    /// players are told.
    pub fn process_disconnection(&mut self, endpoint: u64) -> (r: Vec<ServerOutput>)
        requires
            old(self).wf(),
        ensures
            final(self).wf(),
            final(self).config == old(self).config,
            final(self).game == old(self).game,
            // During a game the session survives as a ghost: only its
            // endpoints are detached, its name and token stay, and no
            // other session is touched.
            old(self).game is Some ==> {
                &&& r@.len() == 0
                &&& !endpoint_bound(final(self).room.sessions@, endpoint)
                &&& (endpoint_bound(old(self).room.sessions@, endpoint) ==> exists|k: int|
                    {
                        &&& 0 <= k < old(self).room.sessions@.len()
                        &&& old(self).room.sessions@[k].safe_endpoint == Some(endpoint)
                        &&& final(self).room.sessions@ == old(self).room.sessions@.update(
                            k,
                            crate::room::Session {
                                safe_endpoint: None,
                                fast_endpoint: None,
                                ..old(self).room.sessions@[k]
                            },
                        )
                    })
                &&& (!endpoint_bound(old(self).room.sessions@, endpoint)
                    ==> final(self).room.sessions@ == old(self).room.sessions@)
            },
            // Outside a game the bound session is removed outright and the
            // remaining players are told.
            old(self).game is None ==> {
                &&& !endpoint_bound(final(self).room.sessions@, endpoint)
                &&& (endpoint_bound(old(self).room.sessions@, endpoint) ==> r@.len() == 1 && (
                exists|k: int|
                    {
                        &&& 0 <= k < old(self).room.sessions@.len()
                        &&& old(self).room.sessions@[k].safe_endpoint == Some(endpoint)
                        &&& final(self).room.sessions@ == old(self).room.sessions@.remove(k)
                    }) && (r@[0] matches ServerOutput::BroadcastSafe(
                    eps,
                    ServerMessage::PlayerListUpdated(names),
                ) && eps@ == safe_endpoints_of(final(self).room.sessions@) && names@
                    == final(self).room.sessions@.map_values(|s: crate::room::Session| s.name)))
                &&& (!endpoint_bound(old(self).room.sessions@, endpoint) ==> r@.len() == 0
                    && final(self).room.sessions@ == old(self).room.sessions@)
            },
    {
        let mut r: Vec<ServerOutput> = Vec::new();
        let game_running = match self.game {
            Some(_) => true,
            None => false,
        };
        if game_running {
            let removed = self.room.notify_lost_endpoint(endpoint);
            proof {
                match removed {
                    Some(s) => {
                        assert(!endpoint_bound(self.room.sessions@, endpoint)) by {
                            assert forall|i: int|
                                0 <= i < self.room.sessions@.len() implies (
                            #[trigger] self.room.sessions@[i]).safe_endpoint != Some(endpoint) by {
                                let k = choose|k: int|
                                    {
                                        &&& 0 <= k < old(self).room.sessions@.len()
                                        &&& old(self).room.sessions@[k] == s
                                        &&& s.safe_endpoint == Some(endpoint)
                                        &&& self.room.sessions@ == old(self).room.sessions@.update(
                                            k,
                                            crate::room::Session {
                                                safe_endpoint: None,
                                                fast_endpoint: None,
                                                ..s
                                            },
                                        )
                                    };
                                if i != k {
                                    assert(self.room.sessions@[i] == old(self).room.sessions@[i]);
                                    assert(old(self).room.wf());
                                }
                            }
                        }
                    },
                    None => {},
                }
            }
        } else {
            let removed = self.room.remove_session_by_endpoint(endpoint);
            match removed {
                Some(_) => {
                    proof {
                        assert(!endpoint_bound(self.room.sessions@, endpoint)) by {
                            lemma_remove_keeps_unbound(old(self).room, self.room, endpoint);
                        }
                    }
                    let names = self.room.session_names();
                    let eps = self.room.safe_endpoints();
                    r.push(
                        ServerOutput::BroadcastSafe(eps, ServerMessage::PlayerListUpdated(names)),
                    );
                },
                None => {},
            }
        }
        r
    }
}

/// After removing the one session bound to `ep` from a well-formed room,
/// no session is bound to `ep` any more.
proof fn lemma_remove_keeps_unbound(before: Room, after: Room, ep: u64)
    requires
        before.wf(),
        exists|k: int|
            {
                &&& 0 <= k < before.sessions@.len()
                &&& before.sessions@[k].safe_endpoint == Some(ep)
                &&& after.sessions@ == before.sessions@.remove(k)
            },
    ensures
        !endpoint_bound(after.sessions@, ep),
{
    let k = choose|k: int|
        {
            &&& 0 <= k < before.sessions@.len()
            &&& before.sessions@[k].safe_endpoint == Some(ep)
            &&& after.sessions@ == before.sessions@.remove(k)
        };
    assert forall|i: int|
        0 <= i < after.sessions@.len() implies (#[trigger] after.sessions@[i]).safe_endpoint
        != Some(ep) by {
        if i < k {
            assert(after.sessions@[i] == before.sessions@[i]);
        } else {
            assert(after.sessions@[i] == before.sessions@[i + 1]);
        }
    }
}

impl ServerLogic {
    /// A realtime `Move` or `Skill` message: forwarded as a controller
    /// intent to the entity of the player logged over `endpoint`, if a
    /// game with an arena is running and that player still has an entity.
    /// The next tick drains the queue.
    pub fn process_player_action(&mut self, endpoint: u64, action: crate::entity::EntityAction)
        -> (queued: bool)
        requires
            old(self).wf(),
        ensures
            final(self).wf(),
            final(self).config == old(self).config,
            final(self).room == old(self).room,
            final(self).timestamp_last_arena_creation == old(self).timestamp_last_arena_creation,
            !queued ==> final(self).game == old(self).game,
            queued ==> (old(self).game matches Some(g) && (g.arena matches Some(a) && (final(self).game matches Some(g2) && (g2.arena matches Some(a2) && exists|k: int|
                {
                    &&& 0 <= k < a.entities@.len()
                    &&& a2.entities@ == a.entities@.update(
                        k,
                        crate::entity::Entity {
                            controller: crate::entity::Controller {
                                pending: a2.entities@[k].controller.pending,
                            },
                            ..a.entities@[k]
                        },
                    )
                    &&& a2.entities@[k].controller.pending@ == a.entities@[
                        k
                    ].controller.pending@.push(action)
                })))),
            // The intent is queued exactly when the endpoint belongs to a
            // session whose player still has an entity in a current arena.
            queued <==> exists|s: int, k: int|
                {
                    &&& 0 <= s < old(self).room.sessions@.len()
                    &&& (#[trigger] old(self).room.sessions@[s]).safe_endpoint == Some(endpoint)
                    &&& old(self).game is Some
                    &&& old(self).game.unwrap().arena is Some
                    &&& 0 <= k < old(self).game.unwrap().arena.unwrap().entities@.len()
                    &&& (#[trigger] old(self).game.unwrap().arena.unwrap().entities@[k]).character.id
                        == crate::character::CharacterId::Player(
                        old(self).room.sessions@[s].name as char,
                    )
                },
    {
        // Which player is this endpoint?
        let mut name: u8 = 0;
        let mut found = false;
        let sessions = self.room.sessions();
        let mut i: usize = 0;
        while i < sessions.len()
            invariant
                i <= sessions@.len(),
                sessions@ == self.room.sessions@,
                !found ==> forall|s: int|
                    0 <= s < i ==> (#[trigger] sessions@[s]).safe_endpoint != Some(endpoint),
                found ==> exists|s: int|
                    0 <= s < sessions@.len() && (#[trigger] sessions@[s]).safe_endpoint == Some(
                        endpoint,
                    ) && sessions@[s].name == name,
            decreases sessions@.len() - i,
        {
            if !found {
                match sessions[i].safe_endpoint {
                    Some(ep) => {
                        if ep == endpoint {
                            name = sessions[i].name;
                            found = true;
                        }
                    },
                    None => {},
                }
            }
            i += 1;
        }
        if !found {
            return false;
        }
        proof {
            // The reliable endpoint binds at most one session, so every
            // session bound to it carries this name.
            assert forall|s: int|
                0 <= s < sessions@.len() && (#[trigger] sessions@[s]).safe_endpoint == Some(
                    endpoint,
                ) implies sessions@[s].name == name by {
                let w = choose|w: int|
                    0 <= w < sessions@.len() && (#[trigger] sessions@[w]).safe_endpoint == Some(
                        endpoint,
                    ) && sessions@[w].name == name;
                if s != w {
                    if s < w {
                        assert(old(self).room.wf());
                    } else {
                        assert(old(self).room.wf());
                    }
                }
            }
        }
        let mut game_opt: Option<Game> = None;
        core::mem::swap(&mut game_opt, &mut self.game);
        let mut game = match game_opt {
            Some(g) => g,
            None => {
                self.game = None;
                return false;
            },
        };
        let mut arena_opt: Option<crate::arena::Arena> = None;
        core::mem::swap(&mut arena_opt, &mut game.arena);
        let mut arena = match arena_opt {
            Some(a) => a,
            None => {
                game.arena = None;
                self.game = Some(game);
                return false;
            },
        };
        let n = arena.entities.len();
        let mut k: usize = 0;
        let mut target: usize = n;
        while k < n
            invariant
                k <= n,
                n == arena.entities@.len(),
                target <= n,
                target < n ==> (arena.entities@[target as int].character.id
                    matches crate::character::CharacterId::Player(c) && c == name as char),
                target == n ==> forall|j: int|
                    0 <= j < k ==> (#[trigger] arena.entities@[j]).character.id
                        != crate::character::CharacterId::Player(name as char),
            decreases n - k,
        {
            if target == n {
                let is_target = match arena.entities[k].character.id {
                    crate::character::CharacterId::Player(c) => c == name as char,
                };
                if is_target {
                    target = k;
                }
            }
            k += 1;
        }
        let mut queued = false;
        let ghost entities0 = arena.entities@;
        if target < n {
            let e = &mut arena.entities[target];
            e.controller.push(action);
            queued = true;
            proof {
                assert(arena.entities@[target as int].controller.pending@ == entities0[
                    target as int
                ].controller.pending@.push(action));
                assert(arena.entities@ =~= entities0.update(
                    target as int,
                    crate::entity::Entity {
                        controller: crate::entity::Controller {
                            pending: arena.entities@[target as int].controller.pending,
                        },
                        ..entities0[target as int]
                    },
                ));
                assert(arena.wf());
            }
        }
        game.arena = Some(arena);
        self.game = Some(game);
        proof {
            if queued {
                let g = old(self).game.unwrap();
                let a = g.arena.unwrap();
                let g2 = self.game.unwrap();
                let a2 = g2.arena.unwrap();
                assert(0 <= target < a.entities@.len());
                assert(a2.entities@ == a.entities@.update(
                    target as int,
                    crate::entity::Entity {
                        controller: crate::entity::Controller {
                            pending: a2.entities@[target as int].controller.pending,
                        },
                        ..a.entities@[target as int]
                    },
                ));
                assert(a2.entities@[target as int].controller.pending@ == a.entities@[
                    target as int
                ].controller.pending@.push(action));
            }
        }
        queued
    }
}

impl ServerLogic {
    /// A reachability probe received on the unreliable channel: the
    /// session proving its identity with `token` gets `fast_endpoint`
    /// attached, and its reliable endpoint is told whether the realtime
    /// path is confirmed. A probe with an unknown token is answered to
    /// nobody.
    pub fn process_udp_probe(&mut self, token: SessionToken, fast_endpoint: u64) -> (r: Vec<
        ServerOutput,
    >)
        requires
            old(self).wf(),
        ensures
            final(self).wf(),
            final(self).config == old(self).config,
            final(self).game == old(self).game,
            final(self).room.capacity == old(self).room.capacity,
            ({
                let known = exists|k: int|
                    0 <= k < old(self).room.sessions@.len() && (#[trigger] old(
                        self,
                    ).room.sessions@[k]).token == token;
                if known {
                    exists|k: int|
                        {
                            &&& 0 <= k < old(self).room.sessions@.len()
                            &&& (#[trigger] old(self).room.sessions@[k]).token == token
                            &&& final(self).room.sessions@ == old(self).room.sessions@.update(
                                k,
                                crate::room::Session {
                                    fast_endpoint: Some(fast_endpoint),
                                    ..old(self).room.sessions@[k]
                                },
                            )
                            &&& match old(self).room.sessions@[k].safe_endpoint {
                                Some(safe) => r@ == seq![
                                    ServerOutput::SendSafe(
                                        safe,
                                        ServerMessage::UdpReachable(true),
                                    ),
                                ],
                                None => r@.len() == 0,
                            }
                        }
                } else {
                    final(self).room.sessions@ == old(self).room.sessions@ && r@.len() == 0
                }
            }),
    {
        let mut r: Vec<ServerOutput> = Vec::new();
        // Find the session's reliable endpoint before binding.
        let mut safe: Option<u64> = None;
        let mut known = false;
        let sessions = self.room.sessions();
        let mut i: usize = 0;
        while i < sessions.len()
            invariant
                i <= sessions@.len(),
                sessions@ == self.room.sessions@,
                !known ==> forall|k: int|
                    0 <= k < i ==> (#[trigger] sessions@[k]).token != token,
                known ==> exists|k: int|
                    0 <= k < sessions@.len() && (#[trigger] sessions@[k]).token == token && safe
                        == sessions@[k].safe_endpoint,
            decreases sessions@.len() - i,
        {
            if !known && sessions[i].token == token {
                safe = sessions[i].safe_endpoint;
                known = true;
            }
            i += 1;
        }
        if !known {
            return r;
        }
        let bound = self.room.bind_fast_endpoint(token, fast_endpoint);
        proof {
            assert(bound);
        }
        match safe {
            Some(endpoint) => {
                r.push(ServerOutput::SendSafe(endpoint, ServerMessage::UdpReachable(true)));
                proof {
                    assert(r@ =~= seq![
                        ServerOutput::SendSafe(endpoint, ServerMessage::UdpReachable(true)),
                    ]);
                }
            },
            None => {},
        }
        r
    }
}

} // verus!
