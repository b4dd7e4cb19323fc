use snake::components::{Direction, GridPos};

#[test]
fn opposite_up_is_down() {
    assert_eq!(Direction::Up.opposite(), Direction::Down);
}

#[test]
fn opposite_down_is_up() {
    assert_eq!(Direction::Down.opposite(), Direction::Up);
}

#[test]
fn opposite_left_is_right() {
    assert_eq!(Direction::Left.opposite(), Direction::Right);
}

#[test]
fn opposite_right_is_left() {
    assert_eq!(Direction::Right.opposite(), Direction::Left);
}

#[test]
fn opposite_twice_is_identity() {
    for d in [Direction::Up, Direction::Down, Direction::Left, Direction::Right] {
        assert_eq!(d.opposite().opposite(), d);
        assert_ne!(d.opposite(), d);
    }
}

#[test]
fn grid_pos_equality_is_by_coordinates() {
    assert_eq!(GridPos { x: 3, y: 4 }, GridPos { x: 3, y: 4 });
    assert_ne!(GridPos { x: 3, y: 4 }, GridPos { x: 4, y: 3 });
}
