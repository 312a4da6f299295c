//! From keys and swipes to what the player asks of the snake.

use crate::game::InputsActions;
use vstd::prelude::*;

verus! {

/// How far, in pixels, a finger has to travel along an axis for the touch
/// to count as a swipe.
pub const SWIPE_THRESHOLD: u32 = 50;

/// The absolute value of a number.
pub open spec fn magnitude(v: int) -> int {
    if v < 0 {
        -v
    } else {
        v
    }
}

/// The action that the arrow keys pressed in a frame ask for: the first
/// pressed of up, down, left, right.
pub open spec fn key_action(up: bool, down: bool, left: bool, right: bool) -> Option<
    InputsActions,
> {
    if up {
        Some(InputsActions::Up)
    } else if down {
        Some(InputsActions::Down)
    } else if left {
        Some(InputsActions::Left)
    } else if right {
        Some(InputsActions::Right)
    } else {
        None
    }
}

/// The action that a finger asks for which was lifted `dx` pixels to the
/// right of, and `dy` pixels below, where it touched down: a swipe goes
/// along the axis on which it went farther and counts only beyond
/// [`SWIPE_THRESHOLD`]; the screen's y axis points down.
pub open spec fn swipe_action(dx: i32, dy: i32) -> Option<InputsActions> {
    if magnitude(dx as int) > magnitude(dy as int) && magnitude(dx as int) > SWIPE_THRESHOLD {
        if dx > 0 {
            Some(InputsActions::Right)
        } else {
            Some(InputsActions::Left)
        }
    } else if magnitude(dy as int) > SWIPE_THRESHOLD {
        if dy > 0 {
            Some(InputsActions::Down)
        } else {
            Some(InputsActions::Up)
        }
    } else {
        None
    }
}

/// The action that the arrow keys pressed in a frame ask for.
pub fn keyboard_input(up: bool, down: bool, left: bool, right: bool) -> (r: Option<InputsActions>)
    ensures
        r == key_action(up, down, left, right),
{
    if up {
        Some(InputsActions::Up)
    } else if down {
        Some(InputsActions::Down)
    } else if left {
        Some(InputsActions::Left)
    } else if right {
        Some(InputsActions::Right)
    } else {
        None
    }
}

/// The action that a released touch asks for.
pub fn handle_touch(dx: i32, dy: i32) -> (r: Option<InputsActions>)
    ensures
        r == swipe_action(dx, dy),
{
    let ax: i64 = if dx < 0 {
        -(dx as i64)
    } else {
        dx as i64
    };
    let ay: i64 = if dy < 0 {
        -(dy as i64)
    } else {
        dy as i64
    };
    if ax > ay && ax > SWIPE_THRESHOLD as i64 {
        if dx > 0 {
            Some(InputsActions::Right)
        } else {
            Some(InputsActions::Left)
        }
    } else if ay > SWIPE_THRESHOLD as i64 {
        if dy > 0 {
            Some(InputsActions::Down)
        } else {
            Some(InputsActions::Up)
        }
    } else {
        None
    }
}

} // verus!
