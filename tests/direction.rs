use voxel_bag::direction::{
    ItemDirection, RotateGesture, direction_to_vector, gesture_to_turn, turn_view_left,
    turn_view_right,
};
use voxel_bag::geometry::{Axis, IVec3};

const NORTH: (i32, i32, i32) = (0, 0, -1);
const WEST: (i32, i32, i32) = (-1, 0, 0);
const SOUTH: (i32, i32, i32) = (0, 0, 1);
const EAST: (i32, i32, i32) = (1, 0, 0);

fn t(v: IVec3) -> (i32, i32, i32) {
    (v.x, v.y, v.z)
}

#[test]
fn direction_table_matches_for_every_view() {
    // rows: view 0..3; columns: right, forward, left, backwards
    let table = [
        [NORTH, WEST, SOUTH, EAST],
        [EAST, NORTH, WEST, SOUTH],
        [SOUTH, EAST, NORTH, WEST],
        [WEST, SOUTH, EAST, NORTH],
    ];
    let dirs = [ItemDirection::Right, ItemDirection::Forward, ItemDirection::Left, ItemDirection::Backwards];
    for view in 0..4usize {
        for (col, dir) in dirs.iter().enumerate() {
            assert_eq!(t(direction_to_vector(*dir, view)), table[view][col], "view {} dir {:?}", view, dir);
        }
        assert_eq!(t(direction_to_vector(ItemDirection::Up, view)), (0, 1, 0));
        assert_eq!(t(direction_to_vector(ItemDirection::Down, view)), (0, -1, 0));
    }
}

#[test]
fn gesture_table_matches_for_every_view() {
    let expected_backwards = [(Axis::Z, false), (Axis::X, true), (Axis::Z, true), (Axis::X, false)];
    let expected_forward = [(Axis::Z, true), (Axis::X, false), (Axis::Z, false), (Axis::X, true)];
    for view in 0..4usize {
        assert_eq!(gesture_to_turn(RotateGesture::YawLeft, view), (Axis::Y, true));
        assert_eq!(gesture_to_turn(RotateGesture::YawRight, view), (Axis::Y, false));
        assert_eq!(gesture_to_turn(RotateGesture::PitchBackwards, view), expected_backwards[view]);
        assert_eq!(gesture_to_turn(RotateGesture::PitchForward, view), expected_forward[view]);
    }
}

#[test]
fn view_index_wraps_both_ways() {
    assert_eq!(turn_view_left(0), 3);
    assert_eq!(turn_view_left(3), 2);
    assert_eq!(turn_view_right(3), 0);
    assert_eq!(turn_view_right(1), 2);
    let mut v = 0;
    for _ in 0..4 {
        v = turn_view_right(v);
    }
    assert_eq!(v, 0);
}
