use zombie_arena::player::{move_direction, MoveDirection};

#[test]
fn single_keys() {
    assert_eq!(move_direction(true, false, false, false), MoveDirection { x: 0, y: 1 });
    assert_eq!(move_direction(false, true, false, false), MoveDirection { x: 0, y: -1 });
    assert_eq!(move_direction(false, false, true, false), MoveDirection { x: -1, y: 0 });
    assert_eq!(move_direction(false, false, false, true), MoveDirection { x: 1, y: 0 });
}

#[test]
fn diagonals_and_cancelling_keys() {
    assert_eq!(move_direction(true, false, false, true), MoveDirection { x: 1, y: 1 });
    assert_eq!(move_direction(false, true, true, false), MoveDirection { x: -1, y: -1 });
    assert_eq!(move_direction(true, true, false, false), MoveDirection { x: 0, y: 0 });
    assert_eq!(move_direction(true, true, true, true), MoveDirection { x: 0, y: 0 });
    assert_eq!(move_direction(false, false, false, false), MoveDirection { x: 0, y: 0 });
}
