use vstd::prelude::*;
use crate::engine::direction::{Direction, spec_tile_offset};
use crate::math::point::{Point, fits_i32};

verus! {

/// What kind of thing an entity is.
#[derive(Debug, Clone, Copy, PartialEq, Eq, Structural)]
pub enum EntityType {
    Player,
    Monster,
    Item,
    Object,
}

/// Where an entity stands and how it walks from tile to tile: a walk goes from
/// the start tile to the neighbouring target tile and is committed when the step
/// is over.
#[derive(Debug, Clone, Copy, PartialEq, Eq)]
pub struct WalkState {
    /// The tile the entity stands on (during a walk, the tile it left).
    pub tile_position: Point,
    /// The direction it faces.
    pub direction: Direction,
    /// Whether a step is under way.
    pub walking: bool,
    /// The direction of the step under way.
    pub walk_direction: Option<Direction>,
    /// The tile the step started from.
    pub walk_start_tile: Option<Point>,
    /// The tile the step goes to.
    pub walk_target_tile: Option<Point>,
}

/// What a step check decided.
#[derive(Debug, Clone, Copy, PartialEq, Eq, Structural)]
pub enum WalkOutcome {
    /// No step is under way.
    NotWalking,
    /// The step goes on.
    InProgress,
    /// The step is over: the entity now stands on the target tile.
    Arrived,
    /// The target became blocked: the step was called off.
    Blocked,
}

/// The neighbouring tile of `tile` in `direction`.
pub open spec fn target_of(tile: Point, direction: Direction) -> (int, int) {
    (tile.x + spec_tile_offset(direction).0, tile.y + spec_tile_offset(direction).1)
}

/// The neighbour of `tile` in any direction fits in `i32`.
pub open spec fn neighbours_fit(tile: Point) -> bool {
    fits_i32(tile.x - 1) && fits_i32(tile.x + 1) && fits_i32(tile.y - 1) && fits_i32(tile.y + 1)
}

/// `s` with no step under way.
pub open spec fn stopped(s: WalkState) -> WalkState {
    WalkState { walking: false, walk_direction: None, walk_start_tile: None, walk_target_tile: None, ..s }
}

impl WalkState {
    /// Standing on `tile_position`, facing no direction.
    pub fn new(tile_position: Point) -> (s: WalkState)
        ensures
            s == (WalkState {
                tile_position,
                direction: Direction::Idle,
                walking: false,
                walk_direction: None,
                walk_start_tile: None,
                walk_target_tile: None,
            }),
    {
        WalkState {
            tile_position,
            direction: Direction::Idle,
            walking: false,
            walk_direction: None,
            walk_start_tile: None,
            walk_target_tile: None,
        }
    }

    /// The neighbouring tile in `direction`.
    pub fn calculate_target_tile(&self, direction: Direction) -> (p: Point)
        requires
            neighbours_fit(self.tile_position),
        ensures
            (p.x as int, p.y as int) == target_of(self.tile_position, direction),
    {
        let (dx, dy) = direction.to_tile_offset();
        Point::new(self.tile_position.x + dx, self.tile_position.y + dy)
    }

    /// Move the tile position by `delta`.
    pub fn move_by_tile(&mut self, delta: Point)
        requires
            fits_i32(old(self).tile_position.x + delta.x),
            fits_i32(old(self).tile_position.y + delta.y),
        ensures
            final(self).tile_position.x == old(self).tile_position.x + delta.x,
            final(self).tile_position.y == old(self).tile_position.y + delta.y,
            final(self).direction == old(self).direction,
            final(self).walking == old(self).walking,
            final(self).walk_direction == old(self).walk_direction,
            final(self).walk_start_tile == old(self).walk_start_tile,
            final(self).walk_target_tile == old(self).walk_target_tile,
    {
        self.tile_position = self.tile_position.add(delta);
    }

    /// Whether two entities stand on the same tile.
    pub fn collides_with_tile(&self, other: &WalkState) -> (b: bool)
        ensures
            b == (self.tile_position == other.tile_position),
    {
        self.tile_position.x == other.tile_position.x && self.tile_position.y == other.tile_position.y
    }

    /// Start a step in `direction` when none is under way, the direction is a
    /// movement and the target tile is walkable (as `is_walkable_fn` says, when
    /// given). Gives whether the step started; when it did not, nothing changes.
    pub fn start_walk<F: Fn(i32, i32) -> bool>(&mut self, direction: Direction, is_walkable_fn: Option<F>) -> (started: bool)
        requires
            neighbours_fit(old(self).tile_position),
            is_walkable_fn matches Some(f) ==> forall|x: i32, y: i32| f.requires((x, y)),
        ensures
            ({
                let t = target_of(old(self).tile_position, direction);
                &&& started ==> !old(self).walking && direction != Direction::Idle && (is_walkable_fn matches Some(f)
                    ==> f.ensures((t.0 as i32, t.1 as i32), true))
                &&& started ==> final(self).direction == direction && final(self).walking
                    && final(self).walk_direction == Some(direction)
                    && final(self).walk_start_tile == Some(old(self).tile_position)
                    && (final(self).walk_target_tile matches Some(p) && (p.x as int, p.y as int) == t)
                    && final(self).tile_position == old(self).tile_position
                &&& !started ==> *final(self) == *old(self)
                &&& !started && !old(self).walking && direction != Direction::Idle ==> (is_walkable_fn matches Some(f)
                    && f.ensures((t.0 as i32, t.1 as i32), false))
            }),
    {
        if self.walking || !direction.is_moving() {
            return false;
        }
        let start_tile = self.tile_position;
        let target_tile = self.calculate_target_tile(direction);
        let can_walk = match &is_walkable_fn {
            Some(check) => check(target_tile.x, target_tile.y),
            None => true,
        };
        if !can_walk {
            return false;
        }
        self.direction = direction;
        self.walking = true;
        self.walk_direction = Some(direction);
        self.walk_start_tile = Some(start_tile);
        self.walk_target_tile = Some(target_tile);
        true
    }

    /// Whether the neighbouring tile in `direction` is walkable (as `is_walkable_fn`
    /// says; without it, always).
    pub fn can_walk<F: Fn(i32, i32) -> bool>(&self, direction: Direction, is_walkable_fn: Option<F>) -> (b: bool)
        requires
            neighbours_fit(self.tile_position),
            is_walkable_fn matches Some(f) ==> forall|x: i32, y: i32| f.requires((x, y)),
        ensures
            ({
                let t = target_of(self.tile_position, direction);
                match is_walkable_fn {
                    Some(f) => f.ensures((t.0 as i32, t.1 as i32), b),
                    None => b,
                }
            }),
    {
        let target_tile = self.calculate_target_tile(direction);
        match &is_walkable_fn {
            Some(check) => check(target_tile.x, target_tile.y),
            None => true,
        }
    }

    /// Check the step under way: when the target is still walkable (as
    /// `is_walkable_fn` says, when given) and the step is done, the entity arrives on
    /// the target tile; when the target is blocked, the step is called off.
    pub fn finish_step<F: Fn(i32, i32) -> bool>(&mut self, step_done: bool, is_walkable_fn: Option<F>) -> (outcome: WalkOutcome)
        requires
            is_walkable_fn matches Some(f) ==> forall|x: i32, y: i32| f.requires((x, y)),
        ensures
            !old(self).walking || old(self).walk_target_tile is None ==> outcome == WalkOutcome::NotWalking
                && *final(self) == *old(self),
            old(self).walking && old(self).walk_target_tile is Some ==> outcome != WalkOutcome::NotWalking,
            outcome == WalkOutcome::Arrived ==> old(self).walking && (old(self).walk_target_tile matches Some(t)
                && *final(self) == (WalkState { tile_position: t, ..stopped(*old(self)) }) && step_done
                && (is_walkable_fn matches Some(f) ==> f.ensures((t.x, t.y), true))),
            outcome == WalkOutcome::Blocked ==> old(self).walking && (old(self).walk_target_tile matches Some(t)
                && *final(self) == stopped(*old(self)) && (is_walkable_fn matches Some(f) && f.ensures(
                (t.x, t.y),
                false,
            ))),
            outcome == WalkOutcome::InProgress ==> old(self).walking && (old(self).walk_target_tile matches Some(t)
                && *final(self) == *old(self) && !step_done && (is_walkable_fn matches Some(f) ==> f.ensures(
                (t.x, t.y),
                true,
            ))),
    {
        if !self.walking {
            return WalkOutcome::NotWalking;
        }
        match self.walk_target_tile {
            None => WalkOutcome::NotWalking,
            Some(target) => {
                let can_move = match &is_walkable_fn {
                    Some(check) => check(target.x, target.y),
                    None => true,
                };
                if can_move && step_done {
                    self.tile_position = target;
                    self.cancel_walk();
                    WalkOutcome::Arrived
                } else if !can_move {
                    self.cancel_walk();
                    WalkOutcome::Blocked
                } else {
                    WalkOutcome::InProgress
                }
            },
        }
    }

    /// Face `direction` without moving.
    pub fn set_direction(&mut self, direction: Direction)
        ensures
            *final(self) == (WalkState { direction, ..*old(self) }),
    {
        self.direction = direction;
    }

    /// The direction to draw the entity in: that of the step under way or the one it
    /// faces, and south when that is no movement.
    pub fn render_direction(&self) -> (d: Direction)
        ensures
            ({
                let wanted = if self.walking {
                    match self.walk_direction {
                        Some(w) => w,
                        None => self.direction,
                    }
                } else {
                    self.direction
                };
                d == if wanted != Direction::Idle { wanted } else { Direction::South }
            }),
    {
        let direction = if self.walking {
            match self.walk_direction {
                Some(w) => w,
                None => self.direction,
            }
        } else {
            self.direction
        };
        if direction.is_moving() {
            direction
        } else {
            Direction::South
        }
    }

    /// Call off any step under way; the entity stays on its tile.
    pub fn cancel_walk(&mut self)
        ensures
            *final(self) == stopped(*old(self)),
    {
        self.walking = false;
        self.walk_direction = None;
        self.walk_start_tile = None;
        self.walk_target_tile = None;
    }
}

/// A step that starts and is then done ends on the neighbouring tile, with no step
/// under way: walking moves the entity exactly one tile in the chosen direction.
pub proof fn lemma_step_moves_one_tile(s: WalkState, direction: Direction, started: WalkState, t: Point, done: WalkState)
    requires
        !s.walking,
        direction != Direction::Idle,
        started.walking,
        started.walk_target_tile == Some(t),
        (t.x as int, t.y as int) == target_of(s.tile_position, direction),
        done == (WalkState { tile_position: t, ..stopped(started) }),
    ensures
        !done.walking,
        done.tile_position.x == s.tile_position.x + spec_tile_offset(direction).0,
        done.tile_position.y == s.tile_position.y + spec_tile_offset(direction).1,
        -1 <= done.tile_position.x - s.tile_position.x <= 1,
        -1 <= done.tile_position.y - s.tile_position.y <= 1,
{
}

} // verus!
