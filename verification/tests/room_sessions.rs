use asciiarena::room::{Room, SessionCreationResult};

#[test]
fn create_and_fill_room() {
    let mut room = Room::new(2);
    let t_a = match room.create_session(b'A', 10) {
        SessionCreationResult::Created(t) => t,
        other => panic!("expected Created, got {:?}", other),
    };
    let t_b = match room.create_session(b'B', 11) {
        SessionCreationResult::Created(t) => t,
        other => panic!("expected Created, got {:?}", other),
    };
    assert_ne!(t_a, t_b);
    assert!(room.is_full());
    assert_eq!(
        room.create_session(b'C', 12),
        SessionCreationResult::Full
    );
    // Names are unique inside a room.
    assert_eq!(
        room.create_session(b'A', 13),
        SessionCreationResult::AlreadyLogged
    );
    // Sessions iterate in name order; the name set is as large as the list.
    assert_eq!(room.session_names(), vec![b'A', b'B']);
}

#[test]
fn token_is_stable_across_recycles() {
    let mut room = Room::new(2);
    let t_first = match room.create_session(b'A', 10) {
        SessionCreationResult::Created(t) => t,
        other => panic!("expected Created, got {:?}", other),
    };
    // First transport loss and reconnect.
    assert!(room.notify_lost_endpoint(10).is_some());
    match room.create_session(b'A', 20) {
        SessionCreationResult::Recycled(t) => assert_eq!(t, t_first),
        other => panic!("expected Recycled, got {:?}", other),
    }
    // Second loss and reconnect: still the same token.
    assert!(room.notify_lost_endpoint(20).is_some());
    match room.create_session(b'A', 30) {
        SessionCreationResult::Recycled(t) => assert_eq!(t, t_first),
        other => panic!("expected Recycled, got {:?}", other),
    }
}

#[test]
fn bound_name_cannot_be_recycled() {
    let mut room = Room::new(2);
    room.create_session(b'A', 10);
    assert_eq!(
        room.create_session(b'A', 11),
        SessionCreationResult::AlreadyLogged
    );
}

#[test]
fn removing_a_session_frees_its_slot() {
    let mut room = Room::new(1);
    room.create_session(b'A', 10);
    assert!(room.remove_session_by_endpoint(10).is_some());
    assert!(matches!(
        room.create_session(b'B', 11),
        SessionCreationResult::Created(_)
    ));
}

#[test]
fn endpoints_are_listed_per_channel() {
    let mut room = Room::new(3);
    room.create_session(b'B', 11);
    room.create_session(b'A', 10);
    let token = match room.create_session(b'C', 12) {
        SessionCreationResult::Created(t) => t,
        other => panic!("expected Created, got {:?}", other),
    };
    assert_eq!(room.safe_endpoints(), vec![10, 11, 12]);
    assert_eq!(room.fast_endpoints(), Vec::<u64>::new());
    assert!(room.bind_fast_endpoint(token, 112));
    assert_eq!(room.fast_endpoints(), vec![112]);
    room.clear();
    assert_eq!(room.sessions().len(), 0);
}
