use rust_diablo::engine::direction::Direction;

#[test]
fn test_is_moving() {
    assert!(!Direction::Idle.is_moving());
    assert!(Direction::North.is_moving());
    assert!(Direction::NorthEast.is_moving());
}

#[test]
fn test_is_diagonal() {
    assert!(!Direction::Idle.is_diagonal());
    assert!(!Direction::North.is_diagonal());
    assert!(Direction::NorthEast.is_diagonal());
    assert!(Direction::SouthEast.is_diagonal());
    assert!(Direction::SouthWest.is_diagonal());
    assert!(Direction::NorthWest.is_diagonal());
}

#[test]
fn test_default() {
    assert_eq!(Direction::default(), Direction::Idle);
}

#[test]
fn test_walk_animation_index_roundtrip() {
    let order = Direction::walk_animation_order();
    assert_eq!(order[0], Direction::South);
    assert_eq!(order[4], Direction::North);
    assert_eq!(Direction::Idle.to_walk_animation_index(), None);

    for (index, direction) in order.iter().enumerate() {
        assert_eq!(direction.to_walk_animation_index(), Some(index));
        assert_eq!(Direction::from_walk_animation_index(index), Some(*direction));
    }

    assert_eq!(Direction::from_walk_animation_index(8), None);
}

#[test]
fn test_animation_suffixes() {
    assert_eq!(Direction::South.animation_suffix(), "south");
    assert_eq!(Direction::NorthEast.animation_suffix(), "north_east");
    assert_eq!(Direction::Idle.animation_suffix(), "none");
}

#[test]
fn test_diablo_tile_offsets() {
    assert_eq!(Direction::South.to_tile_offset(), (1, 1));
    assert_eq!(Direction::SouthWest.to_tile_offset(), (0, 1));
    assert_eq!(Direction::West.to_tile_offset(), (-1, 1));
    assert_eq!(Direction::NorthWest.to_tile_offset(), (-1, 0));
    assert_eq!(Direction::North.to_tile_offset(), (-1, -1));
    assert_eq!(Direction::NorthEast.to_tile_offset(), (0, -1));
    assert_eq!(Direction::East.to_tile_offset(), (1, -1));
    assert_eq!(Direction::SouthEast.to_tile_offset(), (1, 0));
    assert_eq!(Direction::Idle.to_tile_offset(), (0, 0));
}

#[test]
fn walk_order_round_trips_every_index() {
    for index in 0..8 {
        let d = Direction::from_walk_animation_index(index).unwrap();
        assert_eq!(d.to_walk_animation_index(), Some(index));
    }
}

#[test]
fn opposite_offsets_cancel() {
    let (ax, ay) = Direction::North.to_tile_offset();
    let (bx, by) = Direction::South.to_tile_offset();
    assert_eq!((ax + bx, ay + by), (0, 0));
    let (ax, ay) = Direction::East.to_tile_offset();
    let (bx, by) = Direction::West.to_tile_offset();
    assert_eq!((ax + bx, ay + by), (0, 0));
}

#[test]
fn velocity_signs_round_trip() {
    let all = [
        Direction::Idle,
        Direction::North,
        Direction::NorthEast,
        Direction::East,
        Direction::SouthEast,
        Direction::South,
        Direction::SouthWest,
        Direction::West,
        Direction::NorthWest,
    ];
    for d in all.iter() {
        let (sx, sy) = d.velocity_signs();
        assert_eq!(Direction::from_velocity_signs(sx, sy), *d);
    }
    assert_eq!(Direction::NorthEast.velocity_signs(), (1, -1));
    assert_eq!(Direction::from_velocity_signs(0, 0), Direction::Idle);
}
