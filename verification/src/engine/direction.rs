use vstd::prelude::*;
use crate::math::point::Point;

verus! {

/// One of the eight movement directions, or standing still (`Idle`).
#[derive(Debug, Clone, Copy, PartialEq, Eq, Hash, Structural)]
pub enum Direction {
    Idle,
    North,
    NorthEast,
    East,
    SouthEast,
    South,
    SouthWest,
    West,
    NorthWest,
}

/// The index of a direction in Diablo's player walk sheets:
/// South, SouthWest, West, NorthWest, North, NorthEast, East, SouthEast.
pub open spec fn spec_walk_index(d: Direction) -> Option<usize> {
    match d {
        Direction::South => Some(0usize),
        Direction::SouthWest => Some(1usize),
        Direction::West => Some(2usize),
        Direction::NorthWest => Some(3usize),
        Direction::North => Some(4usize),
        Direction::NorthEast => Some(5usize),
        Direction::East => Some(6usize),
        Direction::SouthEast => Some(7usize),
        Direction::Idle => None,
    }
}

/// The direction at a walk sheet index.
pub open spec fn spec_walk_direction(index: usize) -> Option<Direction> {
    if index == 0 {
        Some(Direction::South)
    } else if index == 1 {
        Some(Direction::SouthWest)
    } else if index == 2 {
        Some(Direction::West)
    } else if index == 3 {
        Some(Direction::NorthWest)
    } else if index == 4 {
        Some(Direction::North)
    } else if index == 5 {
        Some(Direction::NorthEast)
    } else if index == 6 {
        Some(Direction::East)
    } else if index == 7 {
        Some(Direction::SouthEast)
    } else {
        None
    }
}

/// The isometric tile step of a direction.
pub open spec fn spec_tile_offset(d: Direction) -> (int, int) {
    match d {
        Direction::Idle => (0, 0),
        Direction::South => (1, 1),
        Direction::SouthWest => (0, 1),
        Direction::West => (-1, 1),
        Direction::NorthWest => (-1, 0),
        Direction::North => (-1, -1),
        Direction::NorthEast => (0, -1),
        Direction::East => (1, -1),
        Direction::SouthEast => (1, 0),
    }
}

/// The screen offset of a full walking step, per walk sheet index.
pub open spec fn spec_walking_render_offset(index: int) -> (int, int) {
    if index == 0 {
        (0, 32)
    } else if index == 1 {
        (-32, 16)
    } else if index == 2 {
        (-64, 0)
    } else if index == 3 {
        (-32, -16)
    } else if index == 4 {
        (0, -32)
    } else if index == 5 {
        (32, -16)
    } else if index == 6 {
        (64, 0)
    } else {
        (32, 16)
    }
}

/// The walk sheet order of directions.
pub fn walk_animation_order_table() -> (order: [Direction; 8])
    ensures
        forall|i: int| 0 <= i < 8 ==> Some(#[trigger] order@[i]) == spec_walk_direction(i as usize),
{
    [
        Direction::South,
        Direction::SouthWest,
        Direction::West,
        Direction::NorthWest,
        Direction::North,
        Direction::NorthEast,
        Direction::East,
        Direction::SouthEast,
    ]
}

/// The screen offsets of a full walking step, in walk sheet order.
pub fn walking_render_offsets() -> (offsets: [Point; 8])
    ensures
        forall|i: int|
            0 <= i < 8 ==> ((#[trigger] offsets@[i]).x as int, offsets@[i].y as int) == spec_walking_render_offset(i),
{
    [
        Point { x: 0, y: 32 },
        Point { x: -32, y: 16 },
        Point { x: -64, y: 0 },
        Point { x: -32, y: -16 },
        Point { x: 0, y: -32 },
        Point { x: 32, y: -16 },
        Point { x: 64, y: 0 },
        Point { x: 32, y: 16 },
    ]
}

impl Direction {
    /// The walk sheet order of directions.
    pub fn walk_animation_order() -> (order: [Direction; 8])
        ensures
            forall|i: int| 0 <= i < 8 ==> Some(#[trigger] order@[i]) == spec_walk_direction(i as usize),
    {
        walk_animation_order_table()
    }

    /// The walk sheet index of this direction; `Idle` has none.
    pub fn to_walk_animation_index(self) -> (r: Option<usize>)
        ensures
            r == spec_walk_index(self),
    {
        match self {
            Direction::South => Some(0),
            Direction::SouthWest => Some(1),
            Direction::West => Some(2),
            Direction::NorthWest => Some(3),
            Direction::North => Some(4),
            Direction::NorthEast => Some(5),
            Direction::East => Some(6),
            Direction::SouthEast => Some(7),
            Direction::Idle => None,
        }
    }

    /// The direction at a walk sheet index; indices from 8 on have none.
    pub fn from_walk_animation_index(index: usize) -> (r: Option<Direction>)
        ensures
            r == spec_walk_direction(index),
    {
        match index {
            0 => Some(Direction::South),
            1 => Some(Direction::SouthWest),
            2 => Some(Direction::West),
            3 => Some(Direction::NorthWest),
            4 => Some(Direction::North),
            5 => Some(Direction::NorthEast),
            6 => Some(Direction::East),
            7 => Some(Direction::SouthEast),
            _ => None,
        }
    }

    /// A lowercase suffix for texture ids and debug output.
    pub fn animation_suffix(self) -> (s: &'static str)
        ensures
            s@ == spec_suffix(self),
    {
        match self {
            Direction::Idle => "none",
            Direction::North => "north",
            Direction::NorthEast => "north_east",
            Direction::East => "east",
            Direction::SouthEast => "south_east",
            Direction::South => "south",
            Direction::SouthWest => "south_west",
            Direction::West => "west",
            Direction::NorthWest => "north_west",
        }
    }

    /// Whether this is a movement direction (anything but `Idle`).
    pub fn is_moving(&self) -> (b: bool)
        ensures
            b == (*self != Direction::Idle),
    {
        !matches!(self, Direction::Idle)
    }

    /// Whether this is one of the four diagonal directions.
    pub fn is_diagonal(&self) -> (b: bool)
        ensures
            b == (*self == Direction::NorthEast || *self == Direction::SouthEast || *self
                == Direction::SouthWest || *self == Direction::NorthWest),
    {
        matches!(
            self,
            Direction::NorthEast | Direction::SouthEast | Direction::SouthWest | Direction::NorthWest
        )
    }

    /// The step on Diablo's isometric tile grid that this direction takes.
    pub fn to_tile_offset(&self) -> (r: (i32, i32))
        ensures
            (r.0 as int, r.1 as int) == spec_tile_offset(*self),
    {
        match self {
            Direction::Idle => (0, 0),
            Direction::South => (1, 1),
            Direction::SouthWest => (0, 1),
            Direction::West => (-1, 1),
            Direction::NorthWest => (-1, 0),
            Direction::North => (-1, -1),
            Direction::NorthEast => (0, -1),
            Direction::East => (1, -1),
            Direction::SouthEast => (1, 0),
        }
    }
}

/// The screen velocity of a direction, each component -1, 0 or 1 (y grows downward).
pub open spec fn spec_velocity(d: Direction) -> (int, int) {
    match d {
        Direction::Idle => (0, 0),
        Direction::North => (0, -1),
        Direction::NorthEast => (1, -1),
        Direction::East => (1, 0),
        Direction::SouthEast => (1, 1),
        Direction::South => (0, 1),
        Direction::SouthWest => (-1, 1),
        Direction::West => (-1, 0),
        Direction::NorthWest => (-1, -1),
    }
}

/// The direction of a screen velocity with the given component signs.
pub open spec fn spec_from_signs(sx: int, sy: int) -> Direction {
    if sx == 0 && sy == -1 {
        Direction::North
    } else if sx == 1 && sy == 0 {
        Direction::East
    } else if sx == 0 && sy == 1 {
        Direction::South
    } else if sx == -1 && sy == 0 {
        Direction::West
    } else if sx == 1 && sy == -1 {
        Direction::NorthEast
    } else if sx == 1 && sy == 1 {
        Direction::SouthEast
    } else if sx == -1 && sy == 1 {
        Direction::SouthWest
    } else if sx == -1 && sy == -1 {
        Direction::NorthWest
    } else {
        Direction::Idle
    }
}

impl Direction {
    /// The screen velocity of this direction, each component -1, 0 or 1.
    pub fn velocity_signs(&self) -> (r: (i32, i32))
        ensures
            (r.0 as int, r.1 as int) == spec_velocity(*self),
    {
        match self {
            Direction::Idle => (0, 0),
            Direction::North => (0, -1),
            Direction::NorthEast => (1, -1),
            Direction::East => (1, 0),
            Direction::SouthEast => (1, 1),
            Direction::South => (0, 1),
            Direction::SouthWest => (-1, 1),
            Direction::West => (-1, 0),
            Direction::NorthWest => (-1, -1),
        }
    }

    /// The direction of a screen velocity from the signs of its components: -1
    /// (left or up), 0 (still) or 1 (right or down); all still is `Idle`.
    pub fn from_velocity_signs(sx: i32, sy: i32) -> (d: Direction)
        ensures
            d == spec_from_signs(sx as int, sy as int),
    {
        if sx == 0 && sy == -1 {
            Direction::North
        } else if sx == 1 && sy == 0 {
            Direction::East
        } else if sx == 0 && sy == 1 {
            Direction::South
        } else if sx == -1 && sy == 0 {
            Direction::West
        } else if sx == 1 && sy == -1 {
            Direction::NorthEast
        } else if sx == 1 && sy == 1 {
            Direction::SouthEast
        } else if sx == -1 && sy == 1 {
            Direction::SouthWest
        } else if sx == -1 && sy == -1 {
            Direction::NorthWest
        } else {
            Direction::Idle
        }
    }
}

/// A direction's velocity gives the direction back.
pub proof fn lemma_velocity_round_trip(d: Direction)
    ensures
        spec_from_signs(spec_velocity(d).0, spec_velocity(d).1) == d,
{
}

/// The texture suffix of each direction.
pub open spec fn spec_suffix(d: Direction) -> Seq<char> {
    match d {
        Direction::Idle => "none"@,
        Direction::North => "north"@,
        Direction::NorthEast => "north_east"@,
        Direction::East => "east"@,
        Direction::SouthEast => "south_east"@,
        Direction::South => "south"@,
        Direction::SouthWest => "south_west"@,
        Direction::West => "west"@,
        Direction::NorthWest => "north_west"@,
    }
}

impl Default for Direction {
    /// Standing still.
    fn default() -> (d: Direction)
        ensures
            d == Direction::Idle,
    {
        Direction::Idle
    }
}

/// The walk sheet index and the direction at it undo each other: every moving
/// direction has an index below 8 that maps back to it, and every index below 8
/// maps to a moving direction whose index it is.
pub proof fn lemma_walk_index_round_trip(d: Direction, index: usize)
    ensures
        d != Direction::Idle ==> (spec_walk_index(d) matches Some(i) && i < 8
            && spec_walk_direction(i) == Some(d)),
        d == Direction::Idle ==> spec_walk_index(d) is None,
        index < 8 ==> (spec_walk_direction(index) matches Some(e) && e != Direction::Idle
            && spec_walk_index(e) == Some(index)),
        index >= 8 ==> spec_walk_direction(index) is None,
{
}

/// Opposite directions take opposite tile steps, and only `Idle` stays in place.
pub proof fn lemma_tile_offsets(d: Direction)
    ensures
        (spec_tile_offset(d) == (0int, 0int)) == (d == Direction::Idle),
        spec_tile_offset(Direction::North).0 == -spec_tile_offset(Direction::South).0,
        spec_tile_offset(Direction::North).1 == -spec_tile_offset(Direction::South).1,
        spec_tile_offset(Direction::East).0 == -spec_tile_offset(Direction::West).0,
        spec_tile_offset(Direction::East).1 == -spec_tile_offset(Direction::West).1,
        spec_tile_offset(Direction::NorthEast).0 == -spec_tile_offset(Direction::SouthWest).0,
        spec_tile_offset(Direction::NorthEast).1 == -spec_tile_offset(Direction::SouthWest).1,
        spec_tile_offset(Direction::NorthWest).0 == -spec_tile_offset(Direction::SouthEast).0,
        spec_tile_offset(Direction::NorthWest).1 == -spec_tile_offset(Direction::SouthEast).1,
{
}

} // verus!
