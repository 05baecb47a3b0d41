use rust_diablo::engine::direction::Direction;
use rust_diablo::entity::{EntityType, WalkOutcome, WalkState};
use rust_diablo::math::point::Point;
use rust_diablo::sprite::{next_frame, resolve_animation_key, AnimationState};

#[test]
fn walk_starts_and_arrives_one_tile_away() {
    let mut s = WalkState::new(Point::new(10, 10));
    assert!(s.start_walk(Direction::South, Some(|_x: i32, _y: i32| true)));
    assert!(s.walking);
    assert_eq!(s.tile_position, Point::new(10, 10));
    assert_eq!(s.walk_target_tile, Some(Point::new(11, 11)));
    assert_eq!(s.render_direction(), Direction::South);
    assert_eq!(s.finish_step(false, None::<fn(i32, i32) -> bool>), WalkOutcome::InProgress);
    assert_eq!(s.finish_step(true, None::<fn(i32, i32) -> bool>), WalkOutcome::Arrived);
    assert!(!s.walking);
    assert_eq!(s.tile_position, Point::new(11, 11));
    assert_eq!(s.finish_step(true, None::<fn(i32, i32) -> bool>), WalkOutcome::NotWalking);
}

#[test]
fn blocked_targets_do_not_change_state() {
    let mut s = WalkState::new(Point::new(5, 5));
    let before = s;
    assert!(!s.start_walk(Direction::East, Some(|x: i32, y: i32| !(x == 6 && y == 4))));
    assert_eq!(s, before);
    assert!(!s.start_walk(Direction::Idle, None::<fn(i32, i32) -> bool>));
    assert!(s.can_walk(Direction::West, Some(|x: i32, _y: i32| x == 4)));
    assert_eq!(s.calculate_target_tile(Direction::West), Point::new(4, 6));
}

#[test]
fn step_is_called_off_when_target_blocks() {
    let mut s = WalkState::new(Point::new(5, 5));
    assert!(s.start_walk(Direction::North, None::<fn(i32, i32) -> bool>));
    assert_eq!(s.finish_step(true, Some(|_x: i32, _y: i32| false)), WalkOutcome::Blocked);
    assert!(!s.walking);
    assert_eq!(s.tile_position, Point::new(5, 5));
    assert_eq!(s.direction, Direction::North);
}

#[test]
fn facing_and_collisions() {
    let mut a = WalkState::new(Point::new(1, 1));
    let b = WalkState::new(Point::new(1, 1));
    assert!(a.collides_with_tile(&b));
    assert_eq!(a.render_direction(), Direction::South);
    a.set_direction(Direction::West);
    assert_eq!(a.render_direction(), Direction::West);
    a.move_by_tile(Point::new(2, -1));
    assert_eq!(a.tile_position, Point::new(3, 0));
    assert!(!a.collides_with_tile(&b));
    a.cancel_walk();
    assert!(!a.walking);
    assert_ne!(EntityType::Player, EntityType::Monster);
}

#[test]
fn frames_advance_loop_or_finish() {
    assert_eq!(next_frame(0, 3, false), (1, false));
    assert_eq!(next_frame(2, 3, true), (0, false));
    assert_eq!(next_frame(2, 3, false), (2, true));
}

#[test]
fn animation_keys_fall_back() {
    let keys = [
        (AnimationState::Walk, Direction::East),
        (AnimationState::Idle, Direction::North),
        (AnimationState::Idle, Direction::South),
    ];
    assert_eq!(
        resolve_animation_key(&keys, AnimationState::Idle, Direction::North),
        Some((AnimationState::Idle, Direction::North))
    );
    assert_eq!(
        resolve_animation_key(&keys, AnimationState::Idle, Direction::West),
        Some((AnimationState::Idle, Direction::South))
    );
    assert_eq!(
        resolve_animation_key(&keys, AnimationState::Walk, Direction::West),
        Some((AnimationState::Walk, Direction::East))
    );
    assert_eq!(resolve_animation_key(&keys, AnimationState::Death, Direction::West), None);
}

#[test]
fn east_step_records_target_without_moving() {
    let mut s = WalkState::new(Point::new(10, 10));
    assert!(s.start_walk::<fn(i32, i32) -> bool>(Direction::East, None));
    assert!(s.walking);
    assert_eq!(s.direction, Direction::East);
    assert_eq!(s.walk_direction, Some(Direction::East));
    assert_eq!(s.walk_start_tile, Some(Point::new(10, 10)));
    assert_eq!(s.walk_target_tile, Some(Point::new(11, 9)));
    assert_eq!(s.tile_position, Point::new(10, 10));
    assert_eq!(s.finish_step::<fn(i32, i32) -> bool>(true, None), WalkOutcome::Arrived);
    assert_eq!(s.tile_position, Point::new(11, 9));
    assert_eq!(s.walk_target_tile, None);
}
