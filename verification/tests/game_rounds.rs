use asciiarena::entity::EntityAction;
use asciiarena::game::Game;

#[test]
fn survivor_scores_and_game_finishes_at_winner_points() {
    let mut game = Game::new(2, 10, vec![b'A', b'B']);
    assert!(!game.has_finished());

    // First arena: B's entity dies; A survives and scores.
    game.create_new_arena();
    if let Some(arena) = &mut game.arena {
        assert_eq!(arena.entities().len(), 2);
        arena.enqueue_entity_action(1, EntityAction::Destroy);
    } else {
        panic!("the game must hold an arena after creating one");
    }
    game.step(1000);
    assert_eq!(game.points, vec![1, 0]);
    assert!(!game.has_finished());

    // Second arena: the same again reaches the winner score.
    game.create_new_arena();
    if let Some(arena) = &mut game.arena {
        arena.enqueue_entity_action(1, EntityAction::Destroy);
    }
    game.step(2000);
    assert_eq!(game.points, vec![2, 0]);
    assert!(game.has_finished());
}

#[test]
fn arenas_are_numbered_and_spawn_one_entity_per_player() {
    let mut game = Game::new(5, 10, vec![b'A', b'B', b'C']);
    game.create_new_arena();
    assert_eq!(game.arena_count, 1);
    game.create_new_arena();
    assert_eq!(game.arena_count, 2);
    let arena = game.arena().as_ref().unwrap();
    assert_eq!(arena.id(), 2);
    assert_eq!(arena.entities().len(), 3);
    // Entities spawn on distinct passable cells.
    for i in 0..3 {
        for j in 0..3 {
            if i != j {
                assert_ne!(
                    arena.entities()[i].position(),
                    arena.entities()[j].position()
                );
            }
        }
    }
}
