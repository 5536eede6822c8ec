//! Turning camera-relative intent into grid vectors and rotation axes.
//!
//! The camera looks at the bag from one of four sides, numbered by a view
//! index from 0 to 3. Horizontal moves index the cycle north, west, south,
//! east (`(0, 0, -1)`, `(-1, 0, 0)`, `(0, 0, 1)`, `(1, 0, 0)`) at an offset
//! that depends on the view, so that each on-screen direction keeps its
//! meaning whichever side the camera is on.
use vstd::prelude::*;
use crate::geometry::{Axis, IVec3, Point};

verus! {

/// A camera-relative move.
#[derive(Clone, Copy, Debug, PartialEq, Eq, Structural, Hash)]
pub enum ItemDirection {
    Left,
    Right,
    Up,
    Down,
    Forward,
    Backwards,
}

/// A camera-relative rotation gesture.
#[derive(Clone, Copy, Debug, PartialEq, Eq, Structural, Hash)]
pub enum RotateGesture {
    YawLeft,
    YawRight,
    PitchForward,
    PitchBackwards,
}

/// Entry `i` of the horizontal cycle north, west, south, east.
pub open spec fn cycle_vector(i: int) -> Point {
    if i == 0 {
        (0, 0, -1)
    } else if i == 1 {
        (-1, 0, 0)
    } else if i == 2 {
        (0, 0, 1)
    } else {
        (1, 0, 0)
    }
}

/// The grid vector of `dir` seen from view `view`: right is entry
/// `(4 - view) mod 4` of the cycle, forward the next one, left the one after
/// and backwards the last; up and down are vertical whatever the view.
pub open spec fn direction_vector(dir: ItemDirection, view: int) -> Point {
    match dir {
        ItemDirection::Right => cycle_vector((4 - view) % 4),
        ItemDirection::Forward => cycle_vector((5 - view) % 4),
        ItemDirection::Left => cycle_vector((6 - view) % 4),
        ItemDirection::Backwards => cycle_vector((7 - view) % 4),
        ItemDirection::Up => (0, 1, 0),
        ItemDirection::Down => (0, -1, 0),
    }
}

/// The quarter turn (axis, counterclockwise) of `gesture` seen from view
/// `view`. Yaw is about the vertical axis from every view; pitch is about
/// the axis that runs across the screen, Z from views 0 and 2 and X from
/// views 1 and 3, in the sense that tilts the item the same way on screen.
pub open spec fn gesture_turn(gesture: RotateGesture, view: int) -> (Axis, bool) {
    match gesture {
        RotateGesture::YawLeft => (Axis::Y, true),
        RotateGesture::YawRight => (Axis::Y, false),
        RotateGesture::PitchBackwards => if view == 3 {
            (Axis::X, false)
        } else if view == 2 {
            (Axis::Z, true)
        } else if view % 2 == 0 {
            (Axis::Z, false)
        } else {
            (Axis::X, true)
        },
        RotateGesture::PitchForward => if view == 3 {
            (Axis::X, true)
        } else if view == 2 {
            (Axis::Z, false)
        } else if view % 2 == 0 {
            (Axis::Z, true)
        } else {
            (Axis::X, false)
        },
    }
}

/// The view after the camera steps one side to the left.
pub open spec fn view_turned_left(view: int) -> int {
    if view == 0 { 3 } else { view - 1 }
}

/// The view after the camera steps one side to the right.
pub open spec fn view_turned_right(view: int) -> int {
    (view + 1) % 4
}

/// The grid vector of `dir` from view `view_index`.
pub fn direction_to_vector(dir: ItemDirection, view_index: usize) -> (r: IVec3)
    requires
        view_index < 4,
    ensures
        r@ == direction_vector(dir, view_index as int),
{
    let trans: [IVec3; 4] = [
        IVec3 { x: 0, y: 0, z: -1 },
        IVec3 { x: -1, y: 0, z: 0 },
        IVec3 { x: 0, y: 0, z: 1 },
        IVec3 { x: 1, y: 0, z: 0 },
    ];
    match dir {
        ItemDirection::Right => trans[(4 - view_index) % 4],
        ItemDirection::Forward => trans[(5 - view_index) % 4],
        ItemDirection::Left => trans[(6 - view_index) % 4],
        ItemDirection::Backwards => trans[(7 - view_index) % 4],
        ItemDirection::Up => IVec3 { x: 0, y: 1, z: 0 },
        ItemDirection::Down => IVec3 { x: 0, y: -1, z: 0 },
    }
}

/// The quarter turn of `gesture` from view `view_index`.
pub fn gesture_to_turn(gesture: RotateGesture, view_index: usize) -> (r: (Axis, bool))
    requires
        view_index < 4,
    ensures
        r == gesture_turn(gesture, view_index as int),
{
    match gesture {
        RotateGesture::YawLeft => (Axis::Y, true),
        RotateGesture::YawRight => (Axis::Y, false),
        RotateGesture::PitchBackwards => if view_index == 3 {
            (Axis::X, false)
        } else if view_index == 2 {
            (Axis::Z, true)
        } else if view_index % 2 == 0 {
            (Axis::Z, false)
        } else {
            (Axis::X, true)
        },
        RotateGesture::PitchForward => if view_index == 3 {
            (Axis::X, true)
        } else if view_index == 2 {
            (Axis::Z, false)
        } else if view_index % 2 == 0 {
            (Axis::Z, true)
        } else {
            (Axis::X, false)
        },
    }
}

/// The view after stepping one side to the left.
pub fn turn_view_left(view_index: usize) -> (r: usize)
    requires
        view_index < 4,
    ensures
        r as int == view_turned_left(view_index as int),
        r < 4,
{
    if view_index == 0 { 3 } else { view_index - 1 }
}

/// The view after stepping one side to the right.
pub fn turn_view_right(view_index: usize) -> (r: usize)
    requires
        view_index < 4,
    ensures
        r as int == view_turned_right(view_index as int),
        r < 4,
{
    (view_index + 1) % 4
}

/// Right and left are opposite, and so are forward and backwards, from
/// every view; the four horizontal moves are the four directions of the
/// cycle, each once.
pub proof fn lemma_directions_opposite(view: int)
    requires
        0 <= view < 4,
    ensures
        direction_vector(ItemDirection::Right, view).0 == -direction_vector(ItemDirection::Left, view).0,
        direction_vector(ItemDirection::Right, view).2 == -direction_vector(ItemDirection::Left, view).2,
        direction_vector(ItemDirection::Forward, view).0 == -direction_vector(ItemDirection::Backwards, view).0,
        direction_vector(ItemDirection::Forward, view).2 == -direction_vector(ItemDirection::Backwards, view).2,
        direction_vector(ItemDirection::Right, view) != direction_vector(ItemDirection::Forward, view),
        direction_vector(ItemDirection::Right, view) != direction_vector(ItemDirection::Backwards, view),
{
}

/// Stepping the camera right turns every horizontal move one entry back
/// along the cycle: what was "forward" from view `v` is "right" from view
/// `v + 1`, and so on round the cycle.
pub proof fn lemma_view_step_rotates_moves(view: int)
    requires
        0 <= view < 4,
    ensures
        direction_vector(ItemDirection::Right, view_turned_right(view)) == direction_vector(ItemDirection::Backwards, view),
        direction_vector(ItemDirection::Forward, view_turned_right(view)) == direction_vector(ItemDirection::Right, view),
        direction_vector(ItemDirection::Left, view_turned_right(view)) == direction_vector(ItemDirection::Forward, view),
        direction_vector(ItemDirection::Backwards, view_turned_right(view)) == direction_vector(ItemDirection::Left, view),
{
}

} // verus!
