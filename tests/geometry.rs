use cellwars::{Direction, Position};

#[test]
fn position_accessors_and_translation() {
    let p = Position::new(3, -2);
    assert_eq!(p.x(), 3);
    assert_eq!(p.y(), -2);
    assert_eq!(p.translated_by_offset(-5, 7), Position::new(-2, 5));
    assert_eq!(p.translated_by_direction(&Direction::North), Position::new(3, -3));
    assert_eq!(p.translated_by_direction(&Direction::South), Position::new(3, -1));
    assert_eq!(p.translated_by_direction(&Direction::East), Position::new(4, -2));
    assert_eq!(p.translated_by_direction(&Direction::West), Position::new(2, -2));
}

#[test]
fn manhattan_distance() {
    assert_eq!(Position::new(0, 0).distance(&Position::new(3, -4)), 7);
    assert_eq!(Position::new(2, 2).distance(&Position::new(2, 2)), 0);
    assert_eq!(
        Position::new(i32::MIN, i32::MIN).distance(&Position::new(i32::MAX, i32::MAX)),
        2 * (u32::MAX as u64)
    );
}

#[test]
fn direction_offsets() {
    assert_eq!(Direction::North.as_position_offset(), (0, -1));
    assert_eq!(Direction::South.as_position_offset(), (0, 1));
    assert_eq!(Direction::East.as_position_offset(), (1, 0));
    assert_eq!(Direction::West.as_position_offset(), (-1, 0));
}

#[test]
fn position_from_pair() {
    let p: Position = (4, -9).into();
    assert_eq!(p, Position::new(4, -9));
    assert_eq!(Position::from((0, 1)).y(), 1);
}
