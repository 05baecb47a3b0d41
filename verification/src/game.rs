use vstd::prelude::*;
use crate::engine::direction::Direction;
use crate::entity::{WalkState, neighbours_fit, target_of};

verus! {

/// The scene the game shows.
#[derive(Debug, Clone, Copy, PartialEq, Eq, Structural)]
pub enum SceneType {
    /// The generated dungeon level, with the camera following the player.
    TestWorld,
    /// The town preview, drawn over a fixed background.
    TownPreview,
}

/// The direction that the held arrow keys ask for: a diagonal when a vertical
/// and a horizontal key are held (up before down, left before right), else the
/// single held key (in the order up, down, left, right), else none.
pub open spec fn spec_direction_from_keys(up: bool, down: bool, left: bool, right: bool) -> Direction {
    if up && left {
        Direction::NorthWest
    } else if up && right {
        Direction::NorthEast
    } else if down && left {
        Direction::SouthWest
    } else if down && right {
        Direction::SouthEast
    } else if up {
        Direction::North
    } else if down {
        Direction::South
    } else if left {
        Direction::West
    } else if right {
        Direction::East
    } else {
        Direction::Idle
    }
}

/// The direction that the held arrow keys ask for.
pub fn direction_from_keys(up: bool, down: bool, left: bool, right: bool) -> (d: Direction)
    ensures
        d == spec_direction_from_keys(up, down, left, right),
{
    if up && left {
        Direction::NorthWest
    } else if up && right {
        Direction::NorthEast
    } else if down && left {
        Direction::SouthWest
    } else if down && right {
        Direction::SouthEast
    } else if up {
        Direction::North
    } else if down {
        Direction::South
    } else if left {
        Direction::West
    } else if right {
        Direction::East
    } else {
        Direction::Idle
    }
}

impl SceneType {
    /// Whether the camera follows the player in this scene (the town background
    /// stays fixed).
    pub fn camera_follows_player(&self) -> (b: bool)
        ensures
            b == (*self == SceneType::TestWorld),
    {
        match self {
            SceneType::TestWorld => true,
            SceneType::TownPreview => false,
        }
    }
}

/// Switch to `scene`. When it is another scene than the current one, the
/// player's step under way is called off (its start and target are left as they
/// were). Gives whether the scene changed.
pub fn switch_scene(current: &mut SceneType, player: &mut WalkState, scene: SceneType) -> (switched: bool)
    ensures
        switched == (*old(current) != scene),
        *final(current) == scene,
        switched ==> *final(player) == (WalkState { walking: false, walk_direction: None, ..*old(player) }),
        !switched ==> *final(player) == *old(player),
{
    if *current != scene {
        *current = scene;
        player.walking = false;
        player.walk_direction = None;
        true
    } else {
        false
    }
}

/// Apply the direction asked for this frame to the player: a movement starts a
/// step when none is under way and the target tile is walkable (as
/// `is_walkable_fn` says); no movement turns the player to face `Idle`. Gives
/// whether a step started.
pub fn apply_movement_input<F: Fn(i32, i32) -> bool>(player: &mut WalkState, direction: Direction, is_walkable_fn: F) -> (started: bool)
    requires
        neighbours_fit(old(player).tile_position),
        forall|x: i32, y: i32| is_walkable_fn.requires((x, y)),
    ensures
        ({
            let t = target_of(old(player).tile_position, direction);
            &&& direction == Direction::Idle ==> !started && *final(player) == (WalkState {
                direction,
                ..*old(player)
            })
            &&& direction != Direction::Idle && old(player).walking ==> !started && *final(player) == *old(player)
            &&& started ==> !old(player).walking && direction != Direction::Idle
                && is_walkable_fn.ensures((t.0 as i32, t.1 as i32), true)
            &&& !started && !old(player).walking && direction != Direction::Idle
                ==> is_walkable_fn.ensures((t.0 as i32, t.1 as i32), false)
            &&& started ==> final(player).walking && final(player).direction == direction
                && final(player).walk_direction == Some(direction)
                && final(player).walk_start_tile == Some(old(player).tile_position)
                && (final(player).walk_target_tile matches Some(p) && (p.x as int, p.y as int) == t)
                && final(player).tile_position == old(player).tile_position
            &&& !started && direction != Direction::Idle ==> *final(player) == *old(player)
        }),
{
    if direction.is_moving() {
        if player.walking {
            false
        } else {
            player.start_walk(direction, Some(is_walkable_fn))
        }
    } else {
        player.set_direction(direction);
        false
    }
}

} // verus!
