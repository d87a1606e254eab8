use asciiarena::arena::Arena;
use asciiarena::character::{Character, CharacterId};
use asciiarena::entity::EntityAction;
use asciiarena::util::{Direction, Vec2};

fn test_character(letter: char, max_live: usize) -> Character {
    Character::new(CharacterId::Player(letter), letter, max_live, 10, 100)
}

#[test]
fn walk_into_wall_updates_facing_only() {
    let mut arena = Arena::new(1, 10, 2);
    arena.create_entity(test_character('A', 5), Vec2 { x: 1, y: 1 });
    // Walking left from x == 1 would enter the border wall.
    arena.entity_walk(0, Direction::Left, 1000);
    assert_eq!(arena.entities()[0].position(), Vec2 { x: 1, y: 1 });
    assert_eq!(arena.entities()[0].direction(), Direction::Left);
}

#[test]
fn walk_before_next_walk_time_is_rejected() {
    let mut arena = Arena::new(1, 10, 2);
    arena.create_entity(test_character('A', 5), Vec2 { x: 3, y: 3 });
    arena.entity_walk(0, Direction::Right, 1000);
    assert_eq!(arena.entities()[0].position(), Vec2 { x: 4, y: 3 });
    // The next walk is only allowed after the walking period (100 ms).
    arena.entity_walk(0, Direction::Right, 1050);
    assert_eq!(arena.entities()[0].position(), Vec2 { x: 4, y: 3 });
    arena.entity_walk(0, Direction::Right, 1101);
    assert_eq!(arena.entities()[0].position(), Vec2 { x: 5, y: 3 });
}

#[test]
fn walk_into_occupied_cell_is_rejected() {
    let mut arena = Arena::new(1, 10, 2);
    arena.create_entity(test_character('A', 5), Vec2 { x: 3, y: 3 });
    arena.create_entity(test_character('B', 5), Vec2 { x: 4, y: 3 });
    arena.entity_walk(0, Direction::Right, 1000);
    assert_eq!(arena.entities()[0].position(), Vec2 { x: 3, y: 3 });
    assert_eq!(arena.entities()[0].direction(), Direction::Right);
}

#[test]
fn spell_hits_an_entity_once() {
    let mut arena = Arena::new(1, 10, 2);
    // The caster at (2,3) faces right; the victim stands at (3,3) with 5
    // health; the spell's damage is 2.
    arena.create_entity(test_character('A', 5), Vec2 { x: 2, y: 3 });
    let victim_id = arena.create_entity(test_character('B', 5), Vec2 { x: 3, y: 3 });
    arena.entity_set_direction(0, Direction::Right);
    assert!(arena.create_spell(1, 0));
    assert_eq!(arena.spells()[0].position(), Vec2 { x: 2, y: 3 });

    arena.spell_move(0, 1000);
    assert_eq!(arena.spells()[0].position(), Vec2 { x: 3, y: 3 });
    assert_eq!(arena.entities()[1].live(), 3);
    assert!(arena.spells()[0].is_affected_entity(victim_id));

    // Moving away and back onto the same entity does not damage again.
    arena.spell_set_direction(0, Direction::Left);
    arena.spell_move(0, 1100);
    arena.spell_set_direction(0, Direction::Right);
    arena.spell_move(0, 1200);
    assert_eq!(arena.spells()[0].position(), Vec2 { x: 3, y: 3 });
    assert_eq!(arena.entities()[1].live(), 3);
}

#[test]
fn spell_leaving_the_map_is_destroyed_and_collected() {
    let mut arena = Arena::new(1, 5, 2);
    // The caster stands next to the wall and fires into it: the spell is
    // created and leaves the map within the same tick.
    arena.create_entity(test_character('A', 5), Vec2 { x: 1, y: 1 });
    arena.entity_set_direction(0, Direction::Left);
    arena.create_spell(7, 0);
    arena.spell_move(0, 1000);
    assert!(arena.spells()[0].is_destroyed());
    assert_eq!(arena.spells()[0].position(), Vec2 { x: 0, y: 1 });
    // The destroyed spell is absent after the next tick.
    arena.update(2000);
    assert_eq!(arena.spells().len(), 0);
}

#[test]
fn tick_runs_queued_intents_and_removes_the_dead() {
    let mut arena = Arena::new(1, 10, 3);
    arena.create_entity(test_character('A', 5), Vec2 { x: 2, y: 2 });
    arena.create_entity(test_character('B', 5), Vec2 { x: 5, y: 5 });
    // A walks right and casts; B self-destructs.
    arena.enqueue_entity_action(0, EntityAction::Walk(Direction::Right));
    arena.enqueue_entity_action(0, EntityAction::Cast(1));
    arena.enqueue_entity_action(1, EntityAction::Destroy);
    arena.update(1000);
    // B is gone at the end of the tick, everyone left is alive, and the
    // cast spell exists and moved within the tick.
    assert_eq!(arena.entities().len(), 1);
    assert_eq!(arena.entities()[0].position(), Vec2 { x: 3, y: 2 });
    assert!(arena.entities()[0].is_alive());
    assert_eq!(arena.spells().len(), 1);
}
