use asciiarena::message::{LoginStatus, ServerMessage};
use asciiarena::server_logic::{Event, ServerConfig, ServerLogic, ServerOutput};
use asciiarena::version::Compatibility;

fn config(players: usize, winner_points: usize) -> ServerConfig {
    ServerConfig {
        tcp_port: 3000,
        udp_port: 3001,
        players_number: players,
        map_size: 10,
        winner_points,
        arena_waiting_ms: 2000,
    }
}

fn login_status_of(output: &ServerOutput) -> LoginStatus {
    match output {
        ServerOutput::SendSafe(_, ServerMessage::LoginStatus(s)) => *s,
        other => panic!("expected a login status send, got {:?}", other),
    }
}

#[test]
fn name_validation_rejects_before_the_room() {
    let mut logic = ServerLogic::new(config(2, 5));
    let r = logic.process_login(10, "AA", 0);
    assert_eq!(login_status_of(&r[0]), LoginStatus::InvalidPlayerName);
    let r = logic.process_login(10, "a", 0);
    assert_eq!(login_status_of(&r[0]), LoginStatus::InvalidPlayerName);
    let r = logic.process_login(10, "A", 0);
    assert!(matches!(login_status_of(&r[0]), LoginStatus::Logged(_)));
}

#[test]
fn room_fill_starts_the_game() {
    let mut logic = ServerLogic::new(config(2, 5));
    let r = logic.process_login(10, "A", 0);
    assert!(matches!(login_status_of(&r[0]), LoginStatus::Logged(_)));
    assert_eq!(r.len(), 2);

    let r = logic.process_login(11, "B", 0);
    assert!(matches!(login_status_of(&r[0]), LoginStatus::Logged(_)));
    // The room just became full: the game creation is queued.
    assert_eq!(r.len(), 3);
    assert_eq!(r[2], ServerOutput::Enqueue(Event::CreateGame));

    let r = logic.process_login(12, "C", 0);
    assert_eq!(login_status_of(&r[0]), LoginStatus::PlayerLimit);
}

#[test]
fn reconnect_keeps_the_token_and_replays_lifecycle() {
    let mut logic = ServerLogic::new(config(2, 5));
    let r = logic.process_login(10, "A", 0);
    let first_token = match login_status_of(&r[0]) {
        LoginStatus::Logged(t) => t,
        other => panic!("expected Logged, got {:?}", other),
    };
    logic.process_login(11, "B", 0);
    logic.process_create_game();
    logic.process_create_arena(1000);

    // The transport drops during the game: the session stays as a ghost.
    let r = logic.process_disconnection(10);
    assert!(r.is_empty());

    // Reconnecting within the prepare window replays StartGame and the
    // remaining waiting time.
    let r = logic.process_login(30, "A", 1500);
    match login_status_of(&r[0]) {
        LoginStatus::Reconnected(t) => assert_eq!(t, first_token),
        other => panic!("expected Reconnected, got {:?}", other),
    }
    assert_eq!(r[1], ServerOutput::SendSafe(30, ServerMessage::StartGame));
    assert_eq!(
        r[2],
        ServerOutput::SendSafe(30, ServerMessage::PrepareArena(1500))
    );

    // A reconnect after the window announces the running arena instead.
    logic.process_disconnection(30);
    let r = logic.process_login(40, "A", 5000);
    assert!(matches!(login_status_of(&r[0]), LoginStatus::Reconnected(_)));
    assert_eq!(r[1], ServerOutput::SendSafe(40, ServerMessage::StartGame));
    assert_eq!(
        r[2],
        ServerOutput::SendSafe(40, ServerMessage::StartArena(1))
    );
}

#[test]
fn incompatible_version_is_dropped() {
    let mut logic = ServerLogic::new(config(2, 5));
    let r = logic.process_version(10, &b"2.0.0".to_vec());
    assert_eq!(r.len(), 2);
    match &r[0] {
        ServerOutput::SendSafe(ep, ServerMessage::Version(_, c)) => {
            assert_eq!(*ep, 10);
            assert_eq!(*c, Compatibility::Incompatible);
        },
        other => panic!("expected a version send, got {:?}", other),
    }
    assert_eq!(r[1], ServerOutput::DropEndpoint(10));

    // The server's own version is fully compatible and keeps the endpoint.
    let r = logic.process_version(10, &b"0.2.0".to_vec());
    assert_eq!(r.len(), 1);
}

#[test]
fn server_info_reports_the_lobby() {
    let mut logic = ServerLogic::new(config(2, 5));
    logic.process_login(10, "B", 0);
    let r = logic.process_request_server_info(12);
    match &r[0] {
        ServerOutput::SendSafe(12, ServerMessage::ServerInfo(info)) => {
            assert_eq!(info.udp_port, 3001);
            assert_eq!(info.players_number, 2);
            assert_eq!(info.map_size, 10);
            assert_eq!(info.winner_points, 5);
            assert_eq!(info.logged_players, vec![b'B']);
        },
        other => panic!("expected server info, got {:?}", other),
    }
}

#[test]
fn arena_finish_cascades_to_game_end_and_reset() {
    // One player and one winner point: the first step finds a finished
    // arena, the surviving player scores, and the game ends.
    let mut logic = ServerLogic::new(config(1, 1));
    let r = logic.process_login(10, "A", 0);
    assert_eq!(*r.last().unwrap(), ServerOutput::Enqueue(Event::CreateGame));
    let r = logic.process_create_game();
    assert_eq!(r[1], ServerOutput::Enqueue(Event::CreateArena));
    let r = logic.process_create_arena(0);
    assert_eq!(
        r[1],
        ServerOutput::EnqueueTimed(Event::StartArena, 2000)
    );
    let r = logic.process_start_arena();
    assert_eq!(r[1], ServerOutput::Enqueue(Event::GameStep));

    let r = logic.process_game_step(2100);
    assert!(matches!(
        &r[0],
        ServerOutput::BroadcastFast(_, ServerMessage::Step)
    ));
    assert!(matches!(
        &r[1],
        ServerOutput::BroadcastSafe(_, ServerMessage::EndArena)
    ));
    assert!(matches!(
        &r[2],
        ServerOutput::BroadcastSafe(_, ServerMessage::EndGame)
    ));
    assert_eq!(r[3], ServerOutput::Enqueue(Event::Reset));

    logic.process_reset();
    assert_eq!(logic.room.sessions().len(), 0);
}

#[test]
fn disconnection_outside_a_game_removes_the_session() {
    let mut logic = ServerLogic::new(config(2, 5));
    logic.process_login(10, "A", 0);
    logic.process_login(11, "B", 0);
    let r = logic.process_disconnection(10);
    assert_eq!(r.len(), 1);
    match &r[0] {
        ServerOutput::BroadcastSafe(eps, ServerMessage::PlayerListUpdated(names)) => {
            assert_eq!(*eps, vec![11]);
            assert_eq!(*names, vec![b'B']);
        },
        other => panic!("expected a player list update, got {:?}", other),
    }
    // The slot is free again.
    let r = logic.process_login(12, "A", 0);
    assert!(matches!(login_status_of(&r[0]), LoginStatus::Logged(_)));
}

#[test]
fn player_actions_reach_the_entity_queue() {
    let mut logic = ServerLogic::new(config(1, 5));
    logic.process_login(10, "A", 0);
    logic.process_create_game();
    logic.process_create_arena(0);
    let queued = logic.process_player_action(
        10,
        asciiarena::entity::EntityAction::Walk(asciiarena::util::Direction::Right),
    );
    assert!(queued);
    // An unknown endpoint queues nothing.
    assert!(!logic.process_player_action(
        99,
        asciiarena::entity::EntityAction::Walk(asciiarena::util::Direction::Up)
    ));
}

#[test]
fn udp_probe_confirms_the_realtime_path() {
    let mut logic = ServerLogic::new(config(2, 5));
    let r = logic.process_login(10, "A", 0);
    let token = match login_status_of(&r[0]) {
        LoginStatus::Logged(t) => t,
        other => panic!("expected Logged, got {:?}", other),
    };
    // A probe with the right token binds the fast endpoint and confirms
    // reachability on the reliable channel.
    let r = logic.process_udp_probe(token, 110);
    assert_eq!(
        r,
        vec![ServerOutput::SendSafe(10, ServerMessage::UdpReachable(true))]
    );
    assert_eq!(logic.room.fast_endpoints(), vec![110]);
    // An unknown token binds nothing and answers nobody.
    let r = logic.process_udp_probe(token + 999, 111);
    assert!(r.is_empty());
}
