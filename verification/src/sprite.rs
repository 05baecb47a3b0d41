use vstd::prelude::*;
use crate::engine::direction::Direction;

verus! {

/// What an animated entity is doing.
#[derive(Debug, Clone, Copy, PartialEq, Eq, Hash, Structural)]
pub enum AnimationState {
    Idle,
    Walk,
    Attack,
    Hit,
    Death,
    Cast,
}

/// The frame after `current` in an animation of `frame_count` frames, and whether
/// the animation just finished: past the last frame a looping animation starts
/// over, and one that does not loop stays on its last frame and finishes.
pub fn next_frame(current: usize, frame_count: usize, looping: bool) -> (r: (usize, bool))
    requires
        current < frame_count,
    ensures
        current + 1 < frame_count ==> r == ((current + 1) as usize, false),
        current + 1 >= frame_count && looping ==> r == (0usize, false),
        current + 1 >= frame_count && !looping ==> r == ((frame_count - 1) as usize, true),
{
    let next = current + 1;
    if next >= frame_count {
        if looping {
            (0, false)
        } else {
            (frame_count - 1, true)
        }
    } else {
        (next, false)
    }
}

/// Whether `keys` holds `key`.
pub open spec fn has_key(keys: Seq<(AnimationState, Direction)>, key: (AnimationState, Direction)) -> bool {
    exists|i: int| 0 <= i < keys.len() && keys[i] == key
}

/// The first position in `keys` of an animation of `state`, if there is one.
pub open spec fn first_of_state(keys: Seq<(AnimationState, Direction)>, state: AnimationState) -> Option<int> {
    if exists|i: int| 0 <= i < keys.len() && keys[i].0 == state {
        Some(choose|i: int| 0 <= i < keys.len() && keys[i].0 == state && forall|j: int| 0 <= j < i ==> keys[j].0 != state)
    } else {
        None
    }
}

/// Which animation to play for `state` facing `direction`, among the animations
/// `keys` (in the order they are listed): the exact one, else that state facing
/// south, else the first of that state, else none.
pub fn resolve_animation_key(
    keys: &[(AnimationState, Direction)],
    state: AnimationState,
    direction: Direction,
) -> (r: Option<(AnimationState, Direction)>)
    ensures
        has_key(keys@, (state, direction)) ==> r == Some((state, direction)),
        !has_key(keys@, (state, direction)) && has_key(keys@, (state, Direction::South)) ==> r == Some(
            (state, Direction::South),
        ),
        !has_key(keys@, (state, direction)) && !has_key(keys@, (state, Direction::South)) ==> match first_of_state(
            keys@,
            state,
        ) {
            Some(i) => r == Some(keys@[i]),
            None => r is None,
        },
{
    let mut exact = false;
    let mut south = false;
    let mut first: Option<usize> = None;
    let mut i: usize = 0;
    while i < keys.len()
        invariant
            i <= keys@.len(),
            exact == exists|k: int| 0 <= k < i && keys@[k] == (state, direction),
            south == exists|k: int| 0 <= k < i && keys@[k] == (state, Direction::South),
            match first {
                Some(f) => f < i && keys@[f as int].0 == state && forall|j: int| 0 <= j < f ==> keys@[j].0 != state,
                None => forall|j: int| 0 <= j < i ==> keys@[j].0 != state,
            },
        decreases keys@.len() - i,
    {
        let (s, d) = keys[i];
        if s == state && d == direction {
            exact = true;
        }
        if s == state && d == Direction::South {
            south = true;
        }
        if first.is_none() && s == state {
            first = Some(i);
        }
        i += 1;
    }
    if exact {
        Some((state, direction))
    } else if south {
        Some((state, Direction::South))
    } else {
        match first {
            Some(f) => {
                proof {
                    let c = choose|i: int| 0 <= i < keys@.len() && keys@[i].0 == state && forall|j: int| 0 <= j < i ==> keys@[j].0 != state;
                    assert(0 <= f < keys@.len() && keys@[f as int].0 == state);
                    if c < f {
                        assert(keys@[c].0 != state);
                    } else if c > f {
                        assert(keys@[f as int].0 != state);
                    }
                }
                Some(keys[f])
            },
            None => None,
        }
    }
}

} // verus!
