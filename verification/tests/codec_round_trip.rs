use asciiarena::codec::{
    decode_client_message, decode_server_message, encode_client_message, encode_server_message,
};
use asciiarena::message::{ClientMessage, LoginStatus, ServerInfo, ServerMessage};
use asciiarena::util::Direction;
use asciiarena::version::Compatibility;

fn client_round_trip(m: ClientMessage) -> ClientMessage {
    let bytes = encode_client_message(&m);
    decode_client_message(bytes.as_slice()).expect("a defined message must decode")
}

fn server_round_trip(m: ServerMessage) -> ServerMessage {
    let bytes = encode_server_message(&m);
    decode_server_message(bytes.as_slice()).expect("a defined message must decode")
}

#[test]
fn client_messages_round_trip() {
    let cases = vec![
        ClientMessage::Version(b"0.2.0".to_vec()),
        ClientMessage::Version(Vec::new()),
        ClientMessage::RequestServerInfo,
        ClientMessage::Login(b"A".to_vec()),
        ClientMessage::Login(b"AA".to_vec()),
        ClientMessage::Move(Direction::Up),
        ClientMessage::Move(Direction::Still),
        ClientMessage::Skill(0),
        ClientMessage::Skill(u64::MAX),
    ];
    for m in cases {
        assert_eq!(client_round_trip(m.clone()), m);
    }
}

#[test]
fn server_messages_round_trip() {
    let cases = vec![
        ServerMessage::Version(b"0.2.0".to_vec(), Compatibility::Fully),
        ServerMessage::Version(b"9.9.9".to_vec(), Compatibility::Incompatible),
        ServerMessage::ServerInfo(ServerInfo {
            udp_port: 3456,
            players_number: 4,
            map_size: 30,
            winner_points: 15,
            logged_players: vec![b'A', b'B'],
        }),
        ServerMessage::PlayerListUpdated(vec![b'A', b'B', b'C']),
        ServerMessage::PlayerListUpdated(Vec::new()),
        ServerMessage::LoginStatus(LoginStatus::Logged(7)),
        ServerMessage::LoginStatus(LoginStatus::Reconnected(u64::MAX)),
        ServerMessage::LoginStatus(LoginStatus::InvalidPlayerName),
        ServerMessage::LoginStatus(LoginStatus::AlreadyLogged),
        ServerMessage::LoginStatus(LoginStatus::PlayerLimit),
        ServerMessage::UdpReachable(true),
        ServerMessage::UdpReachable(false),
        ServerMessage::StartGame,
        ServerMessage::EndGame,
        ServerMessage::PrepareArena(2500),
        ServerMessage::StartArena(3),
        ServerMessage::EndArena,
        ServerMessage::Step,
    ];
    for m in cases {
        assert_eq!(server_round_trip(m.clone()), m);
    }
}

#[test]
fn malformed_frames_are_rejected() {
    assert_eq!(decode_client_message(&[]), None);
    assert_eq!(decode_client_message(&[0]), None);
    assert_eq!(decode_client_message(&[99]), None);
    // Version frame with a wrong length prefix.
    assert_eq!(decode_client_message(&[1, 5, 0, b'x']), None);
    // Move with an unknown direction byte.
    assert_eq!(decode_client_message(&[4, 9]), None);
    assert_eq!(decode_server_message(&[]), None);
    assert_eq!(decode_server_message(&[12]), None);
    // LoginStatus with an unknown status byte.
    assert_eq!(decode_server_message(&[4, 9]), None);
    // Truncated Skill payload.
    assert_eq!(decode_client_message(&[5, 1, 2, 3]), None);
}

#[test]
fn encoding_is_tagged_and_framed() {
    // The byte layout is pinned: tag byte, two length bytes, payload.
    let bytes = encode_client_message(&ClientMessage::Login(b"A".to_vec()));
    assert_eq!(bytes, vec![3, 1, 0, b'A']);
    let bytes = encode_server_message(&ServerMessage::UdpReachable(true));
    assert_eq!(bytes, vec![5, 1]);
}
