//! The player's movement input.
use vstd::prelude::*;

verus! {

/// A direction on the grid of unit steps: each component is -1, 0 or 1.
#[derive(Clone, Copy, Debug, PartialEq, Eq, Structural)]
pub struct MoveDirection {
    pub x: i8,
    pub y: i8,
}

/// The direction that the held movement keys ask for: up adds one to `y`,
/// down takes one away, left takes one from `x`, right adds one; opposite
/// keys cancel out.
pub open spec fn direction_of(up: bool, down: bool, left: bool, right: bool) -> MoveDirection {
    MoveDirection {
        x: ((if right { 1int } else { 0int }) - (if left { 1int } else { 0int })) as i8,
        y: ((if up { 1int } else { 0int }) - (if down { 1int } else { 0int })) as i8,
    }
}

/// Each movement key acts on its own axis, whatever else is held: up adds
/// one to `y` and down takes one away; right adds one to `x` and left
/// takes one away.
pub proof fn lemma_keys_act_independently(up: bool, down: bool, left: bool, right: bool)
    ensures
        direction_of(up, down, left, right).x as int == (if right { 1int } else { 0int }) - (if left {
            1int
        } else {
            0int
        }),
        direction_of(up, down, left, right).y as int == (if up { 1int } else { 0int }) - (if down {
            1int
        } else {
            0int
        }),
        up && !down ==> direction_of(up, down, left, right).y == 1,
        down && !up ==> direction_of(up, down, left, right).y == -1,
        right && !left ==> direction_of(up, down, left, right).x == 1,
        left && !right ==> direction_of(up, down, left, right).x == -1,
{
}

/// Combine the held movement keys (`W`/up arrow, `S`/down arrow, `A`/left
/// arrow, `D`/right arrow) into the direction the player moves in. The
/// player does not move when it is zero.
pub fn move_direction(up: bool, down: bool, left: bool, right: bool) -> (d: MoveDirection)
    ensures
        d == direction_of(up, down, left, right),
        d.x as int == (if right { 1int } else { 0int }) - (if left { 1int } else { 0int }),
        d.y as int == (if up { 1int } else { 0int }) - (if down { 1int } else { 0int }),
        -1 <= d.x <= 1,
        -1 <= d.y <= 1,
        (d.x == 0 && d.y == 0) <==> (up == down && left == right),
{
    let mut x: i8 = 0;
    let mut y: i8 = 0;
    if up {
        y = y + 1;
    }
    if down {
        y = y - 1;
    }
    if left {
        x = x - 1;
    }
    if right {
        x = x + 1;
    }
    MoveDirection { x, y }
}

} // verus!
