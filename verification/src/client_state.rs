//! The client-side mirror of server state: what the user chose, what the
//! server reported, and where the current game stands. Mutated only by the
//! store's reducer, read by the renderer.

use vstd::prelude::*;

verus! {

use crate::message::LoginStatus;
use crate::message::ServerInfo;
use crate::version::Compatibility;

/// The transport state of the connection to the server.
#[derive(Clone, Copy, PartialEq, Eq, Structural, Debug)]
pub enum ConnectionStatus {
    NotConnected,
    Connected,
    NotFound,
    Lost,
}

pub struct User {
    pub character: Option<char>,
    pub login_status: Option<LoginStatus>,
}

impl User {
    /// Whether this user holds a fresh (not reconnected) session.
    pub open spec fn spec_is_logged(self) -> bool {
        self.login_status matches Some(LoginStatus::Logged(_))
    }

    pub fn is_logged(&self) -> (r: bool)
        ensures
            r == self.spec_is_logged(),
    {
        if let Some(LoginStatus::Logged(..)) = self.login_status {
            return true;
        }
        false
    }
}

/// The server's version string (as bytes) and its compatibility with
/// this client.
pub struct VersionInfo {
    pub version: Vec<u8>,
    pub compatibility: Compatibility,
}

pub struct StaticGameInfo {
    pub players_number: usize,
    pub map_size: usize,
    pub winner_points: usize,
}

#[derive(Clone, Copy, PartialEq, Eq, Structural, Debug)]
pub enum ArenaStatus {
    Playing,
    Finished,
}

/// The client's view of the current arena.
#[derive(Clone, Copy, PartialEq, Eq, Structural, Debug)]
pub struct Arena {
    pub number: usize,
    pub status: ArenaStatus,
}

#[derive(Clone, Copy, PartialEq, Eq, Structural, Debug)]
pub enum GameStatus {
    NotStarted,
    Started,
    Finished,
}

pub struct Game {
    pub status: GameStatus,
    pub next_arena_timestamp: Option<u64>,
    pub arena_number: usize,
    pub arena: Option<Arena>,
}

impl Game {
    pub fn arena(&self) -> (r: &Option<Arena>)
        ensures
            r == self.arena,
    {
        &self.arena
    }

    pub fn arena_mut(&mut self) -> (r: &mut Option<Arena>)
        ensures
            *r == old(self).arena,
            *final(self) == (Game { arena: *final(r), ..*old(self) }),
    {
        &mut self.arena
    }
}

pub struct Server {
    /// An opaque handle for the server's address, chosen by the transport
    /// layer.
    pub addr: Option<u64>,
    pub connection_status: ConnectionStatus,
    pub udp_port: Option<u16>,
    pub udp_confirmed: Option<bool>,
    pub version_info: Option<VersionInfo>,
    pub game_info: Option<StaticGameInfo>,
    pub logged_players: Vec<u8>,
    pub game: Game,
}

impl Server {
    /// Whether as many players are logged as the game needs.
    pub open spec fn spec_is_full(self) -> bool {
        match self.game_info {
            Some(info) => info.players_number == self.logged_players@.len(),
            None => false,
        }
    }

    pub fn is_full(&self) -> (r: bool)
        ensures
            r == self.spec_is_full(),
    {
        if let Some(StaticGameInfo { players_number, .. }) = self.game_info {
            if players_number == self.logged_players.len() {
                return true;
            }
        }
        false
    }

    pub open spec fn spec_is_connected(self) -> bool {
        self.connection_status == ConnectionStatus::Connected
    }

    pub fn is_connected(&self) -> (r: bool)
        ensures
            r == self.spec_is_connected(),
    {
        match self.connection_status {
            ConnectionStatus::Connected => true,
            _ => false,
        }
    }

    pub open spec fn spec_has_compatible_version(self) -> bool {
        match self.version_info {
            Some(info) => info.compatibility.spec_is_compatible(),
            None => false,
        }
    }

    pub fn has_compatible_version(&self) -> (r: bool)
        ensures
            r == self.spec_has_compatible_version(),
    {
        match &self.version_info {
            Some(info) => info.compatibility.is_compatible(),
            None => false,
        }
    }
}

pub struct State {
    pub user: User,
    pub server: Server,
}

/// What a client is started with: where to connect and which letter to
/// play.
pub struct ClientConfig {
    pub server_addr: Option<u64>,
    pub character: Option<char>,
}

impl State {
    pub fn new(config: &ClientConfig) -> (r: State)
        ensures
            r.user.character == config.character,
            r.user.login_status is None,
            r.server.addr == config.server_addr,
            r.server.connection_status == ConnectionStatus::NotConnected,
            r.server.udp_port is None,
            r.server.udp_confirmed is None,
            r.server.version_info is None,
            r.server.game_info is None,
            r.server.logged_players@.len() == 0,
            r.server.game.status == GameStatus::NotStarted,
            r.server.game.next_arena_timestamp is None,
            r.server.game.arena_number == 0,
            r.server.game.arena is None,
    {
        State {
            user: User { character: config.character, login_status: None },
            server: Server {
                addr: config.server_addr,
                connection_status: ConnectionStatus::NotConnected,
                udp_port: None,
                udp_confirmed: None,
                version_info: None,
                game_info: None,
                logged_players: Vec::new(),
                game: Game {
                    status: GameStatus::NotStarted,
                    arena_number: 0,
                    next_arena_timestamp: None,
                    arena: None,
                },
            },
        }
    }
}

/// The mathematical value of a client state: the same fields with
/// sequences for the vectors, so that the reducer can be given as a
/// function on values.
pub ghost struct StateView {
    pub character: Option<char>,
    pub login_status: Option<LoginStatus>,
    pub addr: Option<u64>,
    pub connection_status: ConnectionStatus,
    pub udp_port: Option<u16>,
    pub udp_confirmed: Option<bool>,
    pub version_info: Option<(Seq<u8>, Compatibility)>,
    pub game_info: Option<StaticGameInfo>,
    pub logged_players: Seq<u8>,
    pub game_status: GameStatus,
    pub next_arena_timestamp: Option<u64>,
    pub arena_number: usize,
    pub arena: Option<Arena>,
}

impl View for State {
    type V = StateView;

    open spec fn view(&self) -> StateView {
        StateView {
            character: self.user.character,
            login_status: self.user.login_status,
            addr: self.server.addr,
            connection_status: self.server.connection_status,
            udp_port: self.server.udp_port,
            udp_confirmed: self.server.udp_confirmed,
            version_info: match self.server.version_info {
                Some(info) => Some((info.version@, info.compatibility)),
                None => None,
            },
            game_info: self.server.game_info,
            logged_players: self.server.logged_players@,
            game_status: self.server.game.status,
            next_arena_timestamp: self.server.game.next_arena_timestamp,
            arena_number: self.server.game.arena_number,
            arena: self.server.game.arena,
        }
    }
}

} // verus!
