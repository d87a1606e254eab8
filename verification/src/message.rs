//! The typed wire messages of both directions, their byte encoding at the
//! specification level, and the validity bounds under which every defined
//! message has exactly one encoding.

use vstd::prelude::*;

verus! {

use crate::util::Direction;
use crate::util::SessionToken;
use crate::version::Compatibility;

/// Result of a login attempt, sent back on the reliable channel.
#[derive(Clone, Copy, PartialEq, Eq, Structural, Debug)]
pub enum LoginStatus {
    Logged(SessionToken),
    Reconnected(SessionToken),
    InvalidPlayerName,
    AlreadyLogged,
    PlayerLimit,
}

impl LoginStatus {
    /// Whether the login gave the client a usable session.
    pub open spec fn spec_is_logged(self) -> bool {
        self is Logged || self is Reconnected
    }

    pub fn is_logged(&self) -> (r: bool)
        ensures
            r == self.spec_is_logged(),
    {
        match *self {
            LoginStatus::Logged(_) => true,
            LoginStatus::Reconnected(_) => true,
            _ => false,
        }
    }
}

/// The static game facts a client asks for before logging in.
#[derive(Clone, PartialEq, Eq, Debug)]
pub struct ServerInfo {
    pub udp_port: u16,
    pub players_number: u8,
    pub map_size: u16,
    pub winner_points: u16,
    pub logged_players: Vec<u8>,
}

/// Client → server messages.
#[derive(Clone, PartialEq, Eq, Debug)]
pub enum ClientMessage {
    /// The client's version string, as bytes.
    Version(Vec<u8>),
    RequestServerInfo,
    /// The requested player name, as bytes.
    Login(Vec<u8>),
    Move(Direction),
    Skill(u64),
}

/// Server → client messages.
#[derive(Clone, PartialEq, Eq, Debug)]
pub enum ServerMessage {
    /// The server's version string and the computed compatibility.
    Version(Vec<u8>, Compatibility),
    ServerInfo(ServerInfo),
    PlayerListUpdated(Vec<u8>),
    LoginStatus(LoginStatus),
    UdpReachable(bool),
    StartGame,
    EndGame,
    /// Milliseconds until the arena starts.
    PrepareArena(u64),
    /// The arena number.
    StartArena(u64),
    EndArena,
    Step,
}

/// `x` written as `n` little-endian bytes.
pub open spec fn enc_le(x: nat, n: nat) -> Seq<u8>
    decreases n,
{
    if n == 0 {
        Seq::empty()
    } else {
        seq![(x % 256) as u8] + enc_le(x / 256, (n - 1) as nat)
    }
}

/// The value of a little-endian byte string.
pub open spec fn dec_le(s: Seq<u8>) -> nat
    decreases s.len(),
{
    if s.len() == 0 {
        0
    } else {
        (s[0] + 256 * dec_le(s.drop_first())) as nat
    }
}

/// `256^n`.
pub open spec fn pow256(n: nat) -> nat
    decreases n,
{
    if n == 0 {
        1
    } else {
        256 * pow256((n - 1) as nat)
    }
}

pub proof fn lemma_enc_le_len(x: nat, n: nat)
    ensures
        enc_le(x, n).len() == n,
    decreases n,
{
    if n > 0 {
        lemma_enc_le_len(x / 256, (n - 1) as nat);
    }
}

/// Writing and reading back `n` little-endian bytes is the identity for
/// values below `256^n`.
pub proof fn lemma_le_round_trip(x: nat, n: nat)
    requires
        x < pow256(n),
    ensures
        dec_le(enc_le(x, n)) == x,
    decreases n,
{
    if n > 0 {
        lemma_enc_le_len(x / 256, (n - 1) as nat);
        vstd::arithmetic::div_mod::lemma_fundamental_div_mod(x as int, 256);
        vstd::arithmetic::div_mod::lemma_mod_bound(x as int, 256);
        assert(x / 256 < pow256((n - 1) as nat)) by {
            vstd::arithmetic::div_mod::lemma_multiply_divide_lt(x as int, 256, pow256((n - 1) as nat) as int);
        }
        lemma_le_round_trip(x / 256, (n - 1) as nat);
        assert(enc_le(x, n).drop_first() =~= enc_le(x / 256, (n - 1) as nat));
    }
}

/// A byte-vector payload: two length bytes, then the bytes themselves.
pub open spec fn enc_bytes(s: Seq<u8>) -> Seq<u8> {
    enc_le(s.len() as nat, 2) + s
}

/// The payload bound: a byte-vector payload must fit its two length bytes.
pub open spec fn fits_len(s: Seq<u8>) -> bool {
    s.len() <= 65535
}

pub open spec fn enc_direction(d: Direction) -> u8 {
    match d {
        Direction::Up => 0u8,
        Direction::Down => 1u8,
        Direction::Left => 2u8,
        Direction::Right => 3u8,
        Direction::Still => 4u8,
    }
}

pub open spec fn enc_compatibility(c: Compatibility) -> u8 {
    match c {
        Compatibility::Fully => 0u8,
        Compatibility::OkOutdated => 1u8,
        Compatibility::Incompatible => 2u8,
    }
}

pub open spec fn enc_login_status(s: LoginStatus) -> Seq<u8> {
    match s {
        LoginStatus::Logged(t) => seq![0u8] + enc_le(t as nat, 8),
        LoginStatus::Reconnected(t) => seq![1u8] + enc_le(t as nat, 8),
        LoginStatus::InvalidPlayerName => seq![2u8],
        LoginStatus::AlreadyLogged => seq![3u8],
        LoginStatus::PlayerLimit => seq![4u8],
    }
}

/// Validity of a client message: every byte-vector payload fits its
/// length prefix.
pub open spec fn valid_client_message(m: ClientMessage) -> bool {
    match m {
        ClientMessage::Version(v) => fits_len(v@),
        ClientMessage::RequestServerInfo => true,
        ClientMessage::Login(name) => fits_len(name@),
        ClientMessage::Move(_) => true,
        ClientMessage::Skill(_) => true,
    }
}

/// The encoding of a client message: a tag byte, then the payload.
pub open spec fn spec_encode_client(m: ClientMessage) -> Seq<u8> {
    match m {
        ClientMessage::Version(v) => seq![1u8] + enc_bytes(v@),
        ClientMessage::RequestServerInfo => seq![2u8],
        ClientMessage::Login(name) => seq![3u8] + enc_bytes(name@),
        ClientMessage::Move(d) => seq![4u8, enc_direction(d)],
        ClientMessage::Skill(id) => seq![5u8] + enc_le(id as nat, 8),
    }
}

/// Validity of a server message.
pub open spec fn valid_server_message(m: ServerMessage) -> bool {
    match m {
        ServerMessage::Version(v, _) => fits_len(v@),
        ServerMessage::ServerInfo(info) => fits_len(info.logged_players@),
        ServerMessage::PlayerListUpdated(names) => fits_len(names@),
        _ => true,
    }
}

/// The encoding of a server message: a tag byte, then the payload.
pub open spec fn spec_encode_server(m: ServerMessage) -> Seq<u8> {
    match m {
        ServerMessage::Version(v, c) => seq![1u8] + enc_bytes(v@) + seq![enc_compatibility(c)],
        ServerMessage::ServerInfo(info) => seq![2u8] + enc_le(info.udp_port as nat, 2) + seq![
            info.players_number,
        ] + enc_le(info.map_size as nat, 2) + enc_le(info.winner_points as nat, 2) + enc_bytes(
            info.logged_players@,
        ),
        ServerMessage::PlayerListUpdated(names) => seq![3u8] + enc_bytes(names@),
        ServerMessage::LoginStatus(s) => seq![4u8] + enc_login_status(s),
        ServerMessage::UdpReachable(b) => seq![
            5u8,
            if b {
                1u8
            } else {
                0u8
            },
        ],
        ServerMessage::StartGame => seq![6u8],
        ServerMessage::EndGame => seq![7u8],
        ServerMessage::PrepareArena(ms) => seq![8u8] + enc_le(ms as nat, 8),
        ServerMessage::StartArena(n) => seq![9u8] + enc_le(n as nat, 8),
        ServerMessage::EndArena => seq![10u8],
        ServerMessage::Step => seq![11u8],
    }
}

/// Equality of two client messages up to the representation of their
/// byte-vector payloads.
pub open spec fn client_message_equiv(a: ClientMessage, b: ClientMessage) -> bool {
    match (a, b) {
        (ClientMessage::Version(x), ClientMessage::Version(y)) => x@ == y@,
        (ClientMessage::RequestServerInfo, ClientMessage::RequestServerInfo) => true,
        (ClientMessage::Login(x), ClientMessage::Login(y)) => x@ == y@,
        (ClientMessage::Move(x), ClientMessage::Move(y)) => x == y,
        (ClientMessage::Skill(x), ClientMessage::Skill(y)) => x == y,
        _ => false,
    }
}

/// Equality of two server messages up to the representation of their
/// byte-vector payloads.
pub open spec fn server_message_equiv(a: ServerMessage, b: ServerMessage) -> bool {
    match (a, b) {
        (ServerMessage::Version(x, c), ServerMessage::Version(y, d)) => x@ == y@ && c == d,
        (ServerMessage::ServerInfo(x), ServerMessage::ServerInfo(y)) => x.udp_port == y.udp_port
            && x.players_number == y.players_number && x.map_size == y.map_size
            && x.winner_points == y.winner_points && x.logged_players@ == y.logged_players@,
        (ServerMessage::PlayerListUpdated(x), ServerMessage::PlayerListUpdated(y)) => x@ == y@,
        (ServerMessage::LoginStatus(x), ServerMessage::LoginStatus(y)) => x == y,
        (ServerMessage::UdpReachable(x), ServerMessage::UdpReachable(y)) => x == y,
        (ServerMessage::StartGame, ServerMessage::StartGame) => true,
        (ServerMessage::EndGame, ServerMessage::EndGame) => true,
        (ServerMessage::PrepareArena(x), ServerMessage::PrepareArena(y)) => x == y,
        (ServerMessage::StartArena(x), ServerMessage::StartArena(y)) => x == y,
        (ServerMessage::EndArena, ServerMessage::EndArena) => true,
        (ServerMessage::Step, ServerMessage::Step) => true,
        _ => false,
    }
}

} // verus!
