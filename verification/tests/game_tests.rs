use rust_diablo::engine::direction::Direction;
use rust_diablo::entity::WalkState;
use rust_diablo::game::{apply_movement_input, direction_from_keys, switch_scene, SceneType};
use rust_diablo::math::point::Point;

#[test]
fn test_direction_from_single_keys() {
    assert_eq!(direction_from_keys(true, false, false, false), Direction::North);
    assert_eq!(direction_from_keys(false, true, false, false), Direction::South);
    assert_eq!(direction_from_keys(false, false, true, false), Direction::West);
    assert_eq!(direction_from_keys(false, false, false, true), Direction::East);
    assert_eq!(direction_from_keys(false, false, false, false), Direction::Idle);
}

#[test]
fn test_direction_from_diagonal_keys() {
    assert_eq!(direction_from_keys(true, false, true, false), Direction::NorthWest);
    assert_eq!(direction_from_keys(true, false, false, true), Direction::NorthEast);
    assert_eq!(direction_from_keys(false, true, true, false), Direction::SouthWest);
    assert_eq!(direction_from_keys(false, true, false, true), Direction::SouthEast);
}

#[test]
fn test_direction_from_opposite_keys() {
    // Up wins over down, left over right.
    assert_eq!(direction_from_keys(true, true, false, false), Direction::North);
    assert_eq!(direction_from_keys(false, false, true, true), Direction::West);
    assert_eq!(direction_from_keys(true, true, true, true), Direction::NorthWest);
}

#[test]
fn test_camera_follows_only_in_world() {
    assert!(SceneType::TestWorld.camera_follows_player());
    assert!(!SceneType::TownPreview.camera_follows_player());
}

#[test]
fn test_switch_scene_resets_walk() {
    let mut scene = SceneType::TestWorld;
    let mut player = WalkState::new(Point::new(5, 5));
    assert!(player.start_walk::<fn(i32, i32) -> bool>(Direction::East, None));
    assert!(switch_scene(&mut scene, &mut player, SceneType::TownPreview));
    assert_eq!(scene, SceneType::TownPreview);
    assert!(!player.walking);
    assert_eq!(player.walk_direction, None);
    assert_eq!(player.tile_position, Point::new(5, 5));
}

#[test]
fn test_switch_to_same_scene_keeps_walk() {
    let mut scene = SceneType::TownPreview;
    let mut player = WalkState::new(Point::new(5, 5));
    assert!(player.start_walk::<fn(i32, i32) -> bool>(Direction::South, None));
    let before = player;
    assert!(!switch_scene(&mut scene, &mut player, SceneType::TownPreview));
    assert_eq!(scene, SceneType::TownPreview);
    assert_eq!(player, before);
}

#[test]
fn test_movement_input_starts_step() {
    let mut player = WalkState::new(Point::new(3, 4));
    assert!(apply_movement_input(&mut player, Direction::NorthEast, |_x: i32, _y: i32| true));
    assert!(player.walking);
    assert_eq!(player.direction, Direction::NorthEast);
    assert_eq!(player.walk_target_tile, Some(Point::new(3, 3)));
    assert_eq!(player.tile_position, Point::new(3, 4));
}

#[test]
fn test_movement_input_blocked() {
    let mut player = WalkState::new(Point::new(3, 4));
    let before = player;
    assert!(!apply_movement_input(&mut player, Direction::West, |x: i32, _y: i32| x != 2));
    assert_eq!(player, before);
}

#[test]
fn test_movement_input_while_walking() {
    let mut player = WalkState::new(Point::new(3, 4));
    assert!(apply_movement_input(&mut player, Direction::South, |_x: i32, _y: i32| true));
    let walking = player;
    assert!(!apply_movement_input(&mut player, Direction::North, |_x: i32, _y: i32| true));
    assert_eq!(player, walking);
}

#[test]
fn test_no_input_faces_idle() {
    let mut player = WalkState::new(Point::new(3, 4));
    player.set_direction(Direction::East);
    assert!(!apply_movement_input(&mut player, Direction::Idle, |_x: i32, _y: i32| true));
    assert_eq!(player.direction, Direction::Idle);
    assert!(!player.walking);
}
