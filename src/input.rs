use vstd::prelude::*;

use crate::component::{opposite, Direction};

verus! {

/// Which arrow keys are held down this frame.
#[derive(Debug, Clone, Copy, PartialEq, Eq, Structural, Default)]
pub struct Keys {
    pub up: bool,
    pub down: bool,
    pub left: bool,
    pub right: bool,
}

/// The direction the held keys ask for: Up, Down, Left, Right in that order
/// of priority, or `current` when none is held.
pub open spec fn desired(keys: Keys, current: Direction) -> Direction {
    if keys.up {
        Direction::North
    } else if keys.down {
        Direction::South
    } else if keys.left {
        Direction::West
    } else if keys.right {
        Direction::East
    } else {
        current
    }
}

/// The direction the head takes when `wanted` is asked for while it travels
/// in `current`: a reversal is refused.
pub open spec fn steered(current: Direction, wanted: Direction) -> Direction {
    if wanted == opposite(current) {
        current
    } else {
        wanted
    }
}

/// The direction the held keys ask for.
pub fn desired_direction(keys: Keys, current: Direction) -> (r: Direction)
    ensures
        r == desired(keys, current),
{
    if keys.up {
        Direction::North
    } else if keys.down {
        Direction::South
    } else if keys.left {
        Direction::West
    } else if keys.right {
        Direction::East
    } else {
        current
    }
}

/// Turns a head travelling in `current` towards `wanted`, unless that would
/// reverse it. The result is never the opposite of `current`.
pub fn steer(current: Direction, wanted: Direction) -> (r: Direction)
    ensures
        r == steered(current, wanted),
        r != opposite(current),
{
    if wanted == current.opposite() {
        current
    } else {
        wanted
    }
}

} // verus!
