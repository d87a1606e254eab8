//! The client store: a reducer that turns one action (user input or a
//! server event) into the next state and a list of requested server
//! calls. The whole transition is the mathematical function
//! `spec_dispatch`, so replaying the same actions from the same state
//! always ends in the same state.

use vstd::prelude::*;

verus! {

use crate::client_state::Arena;
use crate::client_state::ArenaStatus;
use crate::client_state::ConnectionStatus;
use crate::client_state::GameStatus;
use crate::client_state::State;
use crate::client_state::StateView;
use crate::client_state::StaticGameInfo;
use crate::client_state::VersionInfo;
use crate::message::LoginStatus;
use crate::message::ServerInfo;
use crate::util::Direction;
use crate::version::Compatibility;

/// A call the store asks the connection layer to make. The version sent
/// by `CheckVersion` is always this library's own.
#[derive(Clone, Copy, PartialEq, Eq, Structural, Debug)]
pub enum ApiCall {
    Connect(u64),
    Disconnect,
    CheckVersion,
    SubscribeInfo,
    Login(char),
    Logout,
    MovePlayer(Direction),
    CastSkill(u64),
}

/// Outcome of a connection attempt, as the transport reports it.
#[derive(Clone, Copy, PartialEq, Eq, Structural, Debug)]
pub enum ConnectionResult {
    Connected,
    NotFound,
}

impl ConnectionResult {
    /// The connection status this outcome leaves the client in.
    pub fn status(&self) -> (r: ConnectionStatus)
        ensures
            *self is Connected <==> r == ConnectionStatus::Connected,
            *self is NotFound <==> r == ConnectionStatus::NotFound,
    {
        match *self {
            ConnectionResult::Connected => ConnectionStatus::Connected,
            ConnectionResult::NotFound => ConnectionStatus::NotFound,
        }
    }
}

/// The window-side controller the store can ask to close.
pub trait AppController {
    fn close(&mut self);
}

/// The connection layer the store's calls go to.
pub trait ServerApi {
    fn call(&mut self, api_call: ApiCall);
}

/// Anything that can receive actions for the store.
pub trait Dispatcher {
    fn dispatch(&mut self, action: Action);
}

/// A server→client event, as the connection layer reports it.
pub enum ServerEvent {
    ConnectionResult(ConnectionStatus),
    CheckedVersion(Vec<u8>, Compatibility),
    ServerInfo(ServerInfo),
    PlayerListUpdated(Vec<u8>),
    LoginStatus(LoginStatus),
    UdpReachable(bool),
    StartGame,
    FinishGame,
    PrepareArena(u64),
    StartArena(u64),
    FinishArena,
    ArenaStep,
}

/// An action dispatched to the store.
pub enum Action {
    StartApp,
    Connect(u64),
    Disconnect,
    Login(char),
    Logout,
    CloseGame,
    Close,
    ServerEvent(ServerEvent),
}

/// The state after a game ends: the lobby is forgotten and the user is
/// logged out.
pub open spec fn finish_game_view(s: StateView) -> StateView {
    StateView {
        game_status: GameStatus::Finished,
        logged_players: Seq::empty(),
        udp_confirmed: None,
        character: None,
        login_status: None,
        ..s
    }
}

/// The reducer as a function on state values: the next state, the calls
/// to make, and whether the application should close.
pub open spec fn spec_dispatch(s: StateView, action: Action, now_ms: u64) -> (
    StateView,
    Seq<ApiCall>,
    bool,
) {
    match action {
        Action::StartApp => (
            s,
            match s.addr {
                Some(a) => seq![ApiCall::Connect(a)],
                None => Seq::empty(),
            },
            false,
        ),
        Action::Connect(addr) => (
            StateView { addr: Some(addr), ..s },
            seq![ApiCall::Connect(addr)],
            false,
        ),
        Action::Disconnect => (StateView { addr: None, ..s }, seq![ApiCall::Disconnect], false),
        Action::Login(character) => (
            StateView { character: Some(character), ..s },
            seq![ApiCall::Login(character)],
            false,
        ),
        Action::Logout => (
            StateView { character: None, login_status: None, ..s },
            seq![ApiCall::Logout],
            false,
        ),
        Action::CloseGame => (
            StateView { game_status: GameStatus::NotStarted, arena: None, ..s },
            Seq::empty(),
            false,
        ),
        Action::Close => (s, Seq::empty(), true),
        Action::ServerEvent(event) => match event {
            ServerEvent::ConnectionResult(status) => {
                if status == ConnectionStatus::Connected {
                    (
                        StateView { connection_status: status, ..s },
                        seq![ApiCall::CheckVersion],
                        false,
                    )
                } else {
                    (
                        StateView {
                            arena: None,
                            ..finish_game_view(StateView { connection_status: status, ..s })
                        },
                        Seq::empty(),
                        false,
                    )
                }
            },
            ServerEvent::CheckedVersion(version, compatibility) => (
                StateView { version_info: Some((version@, compatibility)), ..s },
                if compatibility.spec_is_compatible() {
                    seq![ApiCall::SubscribeInfo]
                } else {
                    Seq::empty()
                },
                false,
            ),
            ServerEvent::ServerInfo(info) => (
                StateView {
                    udp_port: Some(info.udp_port),
                    game_info: Some(
                        StaticGameInfo {
                            players_number: info.players_number as usize,
                            map_size: info.map_size as usize,
                            winner_points: info.winner_points as usize,
                        },
                    ),
                    logged_players: info.logged_players@,
                    ..s
                },
                match s.character {
                    Some(c) => seq![ApiCall::Login(c)],
                    None => Seq::empty(),
                },
                false,
            ),
            ServerEvent::PlayerListUpdated(names) => (
                StateView { logged_players: names@, ..s },
                Seq::empty(),
                false,
            ),
            ServerEvent::LoginStatus(status) => (
                StateView { login_status: Some(status), ..s },
                Seq::empty(),
                false,
            ),
            ServerEvent::UdpReachable(value) => (
                StateView { udp_confirmed: Some(value), ..s },
                Seq::empty(),
                false,
            ),
            ServerEvent::StartGame => (
                StateView { game_status: GameStatus::Started, ..s },
                Seq::empty(),
                false,
            ),
            ServerEvent::FinishGame => (finish_game_view(s), Seq::empty(), false),
            ServerEvent::PrepareArena(duration) => (
                StateView {
                    next_arena_timestamp: Some(
                        if now_ms + duration <= u64::MAX {
                            (now_ms + duration) as u64
                        } else {
                            u64::MAX
                        },
                    ),
                    ..s
                },
                Seq::empty(),
                false,
            ),
            ServerEvent::StartArena(number) => (
                StateView {
                    next_arena_timestamp: None,
                    arena_number: number as usize,
                    arena: Some(Arena { number: number as usize, status: ArenaStatus::Playing }),
                    ..s
                },
                Seq::empty(),
                false,
            ),
            ServerEvent::FinishArena => (
                StateView {
                    arena: match s.arena {
                        Some(a) => Some(Arena { status: ArenaStatus::Finished, ..a }),
                        None => None,
                    },
                    ..s
                },
                Seq::empty(),
                false,
            ),
            ServerEvent::ArenaStep => (s, Seq::empty(), false),
        },
    }
}

/// Replaying a sequence of timestamped actions from a state value.
pub open spec fn replay(s: StateView, actions: Seq<(Action, u64)>) -> StateView
    decreases actions.len(),
{
    if actions.len() == 0 {
        s
    } else {
        replay(spec_dispatch(s, actions[0].0, actions[0].1).0, actions.drop_first())
    }
}

/// The reducer is deterministic: replaying the same actions from the same
/// state value ends in the same state value. Together with `dispatch`'s
/// contract, two stores fed the same actions stay equal.
pub proof fn lemma_reducer_deterministic(
    s1: StateView,
    s2: StateView,
    actions: Seq<(Action, u64)>,
)
    requires
        s1 == s2,
    ensures
        replay(s1, actions) == replay(s2, actions),
{
}

/// The store: the state, mutated only through `dispatch`.
pub struct Store {
    pub state: State,
}

impl Store {
    pub fn new(state: State) -> (r: Store)
        ensures
            r.state@ == state@,
    {
        Store { state }
    }

    pub fn state(&self) -> (r: &State)
        ensures
            r@ == self.state@,
    {
        &self.state
    }

    /// Applies one action: the state moves exactly as `spec_dispatch`
    /// says, and the requested calls and the close flag are returned for
    /// the connection layer and the window to perform.
    pub fn dispatch(&mut self, action: Action, now_ms: u64) -> (r: (Vec<ApiCall>, bool))
        ensures
            final(self).state@ == spec_dispatch(old(self).state@, action, now_ms).0,
            r.0@ == spec_dispatch(old(self).state@, action, now_ms).1,
            r.1 == spec_dispatch(old(self).state@, action, now_ms).2,
    {
        let mut calls: Vec<ApiCall> = Vec::new();
        let mut close = false;
        match action {
            Action::StartApp => {
                match self.state.server.addr {
                    Some(addr) => {
                        calls.push(ApiCall::Connect(addr));
                        proof {
                            assert(calls@ =~= seq![ApiCall::Connect(addr)]);
                        }
                    },
                    None => {},
                }
            },
            Action::Connect(addr) => {
                self.state.server.addr = Some(addr);
                calls.push(ApiCall::Connect(addr));
                proof {
                    assert(calls@ =~= seq![ApiCall::Connect(addr)]);
                }
            },
            Action::Disconnect => {
                self.state.server.addr = None;
                calls.push(ApiCall::Disconnect);
                proof {
                    assert(calls@ =~= seq![ApiCall::Disconnect]);
                }
            },
            Action::Login(character) => {
                self.state.user.character = Some(character);
                calls.push(ApiCall::Login(character));
                proof {
                    assert(calls@ =~= seq![ApiCall::Login(character)]);
                }
            },
            Action::Logout => {
                self.state.user.character = None;
                self.state.user.login_status = None;
                calls.push(ApiCall::Logout);
                proof {
                    assert(calls@ =~= seq![ApiCall::Logout]);
                }
            },
            Action::CloseGame => {
                self.state.server.game.status = GameStatus::NotStarted;
                self.state.server.game.arena = None;
            },
            Action::Close => {
                close = true;
            },
            Action::ServerEvent(event) => match event {
                ServerEvent::ConnectionResult(status) => {
                    self.state.server.connection_status = status;
                    match status {
                        ConnectionStatus::Connected => {
                            calls.push(ApiCall::CheckVersion);
                            proof {
                                assert(calls@ =~= seq![ApiCall::CheckVersion]);
                            }
                        },
                        _ => {
                            self.finish_game();
                            self.state.server.game.arena = None;
                        },
                    }
                },
                ServerEvent::CheckedVersion(version, compatibility) => {
                    let compatible = compatibility.is_compatible();
                    self.state.server.version_info = Some(
                        VersionInfo { version, compatibility },
                    );
                    if compatible {
                        calls.push(ApiCall::SubscribeInfo);
                        proof {
                            assert(calls@ =~= seq![ApiCall::SubscribeInfo]);
                        }
                    }
                },
                ServerEvent::ServerInfo(info) => {
                    self.state.server.udp_port = Some(info.udp_port);
                    self.state.server.game_info = Some(
                        StaticGameInfo {
                            players_number: info.players_number as usize,
                            map_size: info.map_size as usize,
                            winner_points: info.winner_points as usize,
                        },
                    );
                    self.state.server.logged_players = info.logged_players;
                    match self.state.user.character {
                        Some(c) => {
                            calls.push(ApiCall::Login(c));
                            proof {
                                assert(calls@ =~= seq![ApiCall::Login(c)]);
                            }
                        },
                        None => {},
                    }
                },
                ServerEvent::PlayerListUpdated(names) => {
                    self.state.server.logged_players = names;
                },
                ServerEvent::LoginStatus(status) => {
                    self.state.user.login_status = Some(status);
                },
                ServerEvent::UdpReachable(value) => {
                    self.state.server.udp_confirmed = Some(value);
                },
                ServerEvent::StartGame => {
                    self.state.server.game.status = GameStatus::Started;
                },
                ServerEvent::FinishGame => {
                    self.finish_game();
                },
                ServerEvent::PrepareArena(duration) => {
                    self.state.server.game.next_arena_timestamp = Some(
                        now_ms.saturating_add(duration),
                    );
                },
                ServerEvent::StartArena(number) => {
                    self.state.server.game.next_arena_timestamp = None;
                    self.state.server.game.arena_number = number as usize;
                    self.state.server.game.arena = Some(
                        Arena { number: number as usize, status: ArenaStatus::Playing },
                    );
                },
                ServerEvent::FinishArena => {
                    match self.state.server.game.arena {
                        Some(a) => {
                            self.state.server.game.arena = Some(
                                Arena { number: a.number, status: ArenaStatus::Finished },
                            );
                        },
                        None => {},
                    }
                },
                ServerEvent::ArenaStep => {},
            },
        }
        (calls, close)
    }

    /// The shared effect of a finished game: forget the lobby and log the
    /// user out.
    fn finish_game(&mut self)
        ensures
            final(self).state@ == finish_game_view(old(self).state@),
    {
        self.state.server.game.status = GameStatus::Finished;
        self.state.server.logged_players = Vec::new();
        self.state.server.udp_confirmed = None;
        self.state.user.character = None;
        self.state.user.login_status = None;
    }
}

} // verus!
