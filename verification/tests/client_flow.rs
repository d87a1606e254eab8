use asciiarena::client_state::{
    ArenaStatus, ClientConfig, ConnectionStatus, GameStatus, State,
};
use asciiarena::client_store::{Action, ApiCall, ServerEvent, Store};
use asciiarena::message::{LoginStatus, ServerInfo};
use asciiarena::version::Compatibility;

fn new_store() -> Store {
    Store::new(State::new(&ClientConfig {
        server_addr: Some(1),
        character: Some('A'),
    }))
}

fn server_info() -> ServerInfo {
    ServerInfo {
        udp_port: 3001,
        players_number: 2,
        map_size: 10,
        winner_points: 5,
        logged_players: vec![b'A'],
    }
}

#[test]
fn connection_flow_issues_the_expected_calls() {
    let mut store = new_store();
    let (calls, close) = store.dispatch(Action::StartApp, 0);
    assert_eq!(calls, vec![ApiCall::Connect(1)]);
    assert!(!close);

    let (calls, _) = store.dispatch(
        Action::ServerEvent(ServerEvent::ConnectionResult(ConnectionStatus::Connected)),
        0,
    );
    assert_eq!(calls, vec![ApiCall::CheckVersion]);
    assert!(store.state().server.is_connected());

    let (calls, _) = store.dispatch(
        Action::ServerEvent(ServerEvent::CheckedVersion(
            b"0.2.0".to_vec(),
            Compatibility::Fully,
        )),
        0,
    );
    assert_eq!(calls, vec![ApiCall::SubscribeInfo]);
    assert!(store.state().server.has_compatible_version());

    // A chosen character logs in as soon as the server facts arrive.
    let (calls, _) = store.dispatch(
        Action::ServerEvent(ServerEvent::ServerInfo(server_info())),
        0,
    );
    assert_eq!(calls, vec![ApiCall::Login('A')]);
    assert_eq!(store.state().server.udp_port, Some(3001));
    assert_eq!(store.state().server.logged_players, vec![b'A']);

    let (calls, _) = store.dispatch(
        Action::ServerEvent(ServerEvent::LoginStatus(LoginStatus::Logged(1))),
        0,
    );
    assert!(calls.is_empty());
    assert!(store.state().user.is_logged());
}

#[test]
fn game_lifecycle_updates_the_mirror() {
    let mut store = new_store();
    store.dispatch(Action::ServerEvent(ServerEvent::StartGame), 0);
    assert_eq!(store.state().server.game.status, GameStatus::Started);

    store.dispatch(Action::ServerEvent(ServerEvent::PrepareArena(2000)), 500);
    assert_eq!(store.state().server.game.next_arena_timestamp, Some(2500));

    store.dispatch(Action::ServerEvent(ServerEvent::StartArena(1)), 600);
    assert_eq!(store.state().server.game.next_arena_timestamp, None);
    let arena = store.state().server.game.arena.unwrap();
    assert_eq!(arena.number, 1);
    assert_eq!(arena.status, ArenaStatus::Playing);

    store.dispatch(Action::ServerEvent(ServerEvent::FinishArena), 700);
    let arena = store.state().server.game.arena.unwrap();
    assert_eq!(arena.status, ArenaStatus::Finished);

    store.dispatch(Action::ServerEvent(ServerEvent::FinishGame), 800);
    assert_eq!(store.state().server.game.status, GameStatus::Finished);
    assert!(store.state().server.logged_players.is_empty());
    assert_eq!(store.state().user.character, None);
    assert_eq!(store.state().user.login_status, None);
}

#[test]
fn close_action_reports_close() {
    let mut store = new_store();
    let (calls, close) = store.dispatch(Action::Close, 0);
    assert!(calls.is_empty());
    assert!(close);
}

#[test]
fn replaying_the_same_actions_gives_the_same_state() {
    // The reducer is a function of (state, action, time): two stores fed
    // the same sequence stay field-for-field equal.
    let run = || {
        let mut store = new_store();
        store.dispatch(Action::StartApp, 0);
        store.dispatch(
            Action::ServerEvent(ServerEvent::ConnectionResult(ConnectionStatus::Connected)),
            1,
        );
        store.dispatch(
            Action::ServerEvent(ServerEvent::CheckedVersion(
                b"0.2.0".to_vec(),
                Compatibility::Fully,
            )),
            2,
        );
        store.dispatch(Action::ServerEvent(ServerEvent::ServerInfo(server_info())), 3);
        store.dispatch(Action::ServerEvent(ServerEvent::StartGame), 4);
        store.dispatch(Action::ServerEvent(ServerEvent::PrepareArena(100)), 5);
        store.dispatch(Action::ServerEvent(ServerEvent::StartArena(1)), 6);
        store
    };
    let a = run();
    let b = run();
    assert_eq!(a.state().user.character, b.state().user.character);
    assert_eq!(a.state().user.login_status, b.state().user.login_status);
    assert_eq!(
        a.state().server.connection_status,
        b.state().server.connection_status
    );
    assert_eq!(a.state().server.udp_port, b.state().server.udp_port);
    assert_eq!(
        a.state().server.logged_players,
        b.state().server.logged_players
    );
    assert_eq!(a.state().server.game.status, b.state().server.game.status);
    assert_eq!(
        a.state().server.game.next_arena_timestamp,
        b.state().server.game.next_arena_timestamp
    );
    assert_eq!(a.state().server.game.arena, b.state().server.game.arena);
}

#[test]
fn lost_connection_ends_the_game() {
    let mut store = new_store();
    store.dispatch(Action::ServerEvent(ServerEvent::StartGame), 0);
    store.dispatch(Action::ServerEvent(ServerEvent::StartArena(1)), 1);
    let (calls, _) = store.dispatch(
        Action::ServerEvent(ServerEvent::ConnectionResult(ConnectionStatus::Lost)),
        2,
    );
    assert!(calls.is_empty());
    assert_eq!(store.state().server.game.status, GameStatus::Finished);
    assert_eq!(store.state().server.game.arena, None);
    assert_eq!(
        store.state().server.connection_status,
        ConnectionStatus::Lost
    );
}
