use asciiarena::util::{format_player_names, is_valid_player_name, Direction, Vec2};
use asciiarena::version::{check, current, parse_version, Compatibility, Version};

#[test]
fn version_check_equal_is_fully() {
    let v = Version { major: 1, minor: 2, patch: 3 };
    assert_eq!(check(&v, &v), Compatibility::Fully);
    assert_eq!(check(&current(), &current()), Compatibility::Fully);
}

#[test]
fn version_check_same_minor_is_ok_outdated() {
    let a = Version { major: 1, minor: 2, patch: 3 };
    let b = Version { major: 1, minor: 2, patch: 9 };
    assert_eq!(check(&a, &b), Compatibility::OkOutdated);
}

#[test]
fn version_check_different_major_rejects() {
    let a = Version { major: 1, minor: 2, patch: 3 };
    let b = Version { major: 2, minor: 0, patch: 0 };
    assert_eq!(check(&a, &b), Compatibility::Incompatible);
    let c = Version { major: 1, minor: 3, patch: 3 };
    assert_eq!(check(&a, &c), Compatibility::Incompatible);
}

#[test]
fn version_parsing() {
    assert_eq!(
        parse_version("1.2.3"),
        Some(Version { major: 1, minor: 2, patch: 3 })
    );
    assert_eq!(
        parse_version("0.20.0"),
        Some(Version { major: 0, minor: 20, patch: 0 })
    );
    assert_eq!(parse_version(""), None);
    assert_eq!(parse_version("1.2"), None);
    assert_eq!(parse_version("1.2.3.4"), None);
    assert_eq!(parse_version("1.x.3"), None);
    assert_eq!(parse_version("1..3"), None);
    assert_eq!(parse_version("1.2.1234567890"), None);
}

#[test]
fn player_name_validation() {
    assert!(is_valid_player_name("A"));
    assert!(is_valid_player_name("Z"));
    assert!(!is_valid_player_name("AA"));
    assert!(!is_valid_player_name("a"));
    assert!(!is_valid_player_name(""));
    assert!(!is_valid_player_name("1"));
}

#[test]
fn player_names_formatting_sorts() {
    assert_eq!(format_player_names(&vec![b'C', b'A', b'B']), "A, B, C");
    assert_eq!(format_player_names(&vec![b'Z']), "Z");
    assert_eq!(format_player_names(&vec![]), "");
}

#[test]
fn direction_vectors_and_opposites() {
    assert_eq!(Direction::Up.vec2(), Vec2 { x: 0, y: -1 });
    assert_eq!(Direction::Down.vec2(), Vec2 { x: 0, y: 1 });
    assert_eq!(Direction::Left.vec2(), Vec2 { x: -1, y: 0 });
    assert_eq!(Direction::Right.vec2(), Vec2 { x: 1, y: 0 });
    assert_eq!(Direction::Still.vec2(), Vec2::zero());
    assert_eq!(Direction::Up.opposite(), Direction::Down);
    assert_eq!(Direction::Left.opposite(), Direction::Right);
    assert_eq!(Direction::Still.opposite(), Direction::Still);
}
