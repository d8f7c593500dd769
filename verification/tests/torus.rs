use wasm_game_of_life::torus::wrap_coordinate;

#[test]
fn wrap_coordinate_keeps_a_coordinate_on_the_axis() {
    for coordinate in 0..7 {
        assert_eq!(wrap_coordinate(coordinate, 7), coordinate as u32);
    }
}

#[test]
fn wrap_coordinate_brings_a_coordinate_past_the_end_back() {
    assert_eq!(wrap_coordinate(7, 7), 0);
    assert_eq!(wrap_coordinate(8, 7), 1);
    assert_eq!(wrap_coordinate(20, 7), 6);
    assert_eq!(wrap_coordinate(21, 7), 0);
}

#[test]
fn wrap_coordinate_brings_a_negative_coordinate_to_the_far_end() {
    assert_eq!(wrap_coordinate(-1, 7), 6);
    assert_eq!(wrap_coordinate(-7, 7), 0);
    assert_eq!(wrap_coordinate(-8, 7), 6);
    assert_eq!(wrap_coordinate(-15, 7), 6);
}

#[test]
fn wrap_coordinate_takes_the_widest_inputs() {
    assert_eq!(wrap_coordinate(i64::MAX, 10), 7);
    assert_eq!(wrap_coordinate(i64::MIN, 10), 2);
    assert_eq!(wrap_coordinate(i64::MIN, 1), 0);
    assert_eq!(wrap_coordinate(-1, u32::MAX), u32::MAX - 1);
    assert_eq!(wrap_coordinate(u32::MAX as i64, u32::MAX), 0);
}
