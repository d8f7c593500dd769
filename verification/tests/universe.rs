use wasm_game_of_life::universe::{CERTAIN, DEFAULT_EXTENT};
use wasm_game_of_life::{SizeMismatch, Universe};

fn dead(width: u32, height: u32) -> Universe {
    Universe::new(Some(width), Some(height), None)
}

fn with_cells(width: u32, height: u32, cells: Vec<u8>) -> Universe {
    let mut universe = dead(width, height);
    universe.set_cells(cells);
    universe
}

#[test]
fn tick() {
    let mut universe = Universe::new(Some(5), Some(5), None);
    // Build a line
    universe.set_cells(vec![
        0, 0, 0, 0, 0,
        0, 0, 0, 0, 0,
        0, 1, 1, 1, 0,
        0, 0, 0, 0, 0,
        0, 0, 0, 0, 0,
    ]);

    println!("{}", universe.render());
    // Run a tick
    universe.tick();
    println!("{}", universe.render());

    // Check the state of the universe
    assert_eq!(
        universe.get_cells(),
        vec![
            0, 0, 0, 0, 0,
            0, 0, 1, 0, 0,
            0, 0, 1, 0, 0,
            0, 0, 1, 0, 0,
            0, 0, 0, 0, 0,
        ]
    );
}

#[test]
fn test_wrapping() {
    let mut universe = Universe::new(Some(5), Some(5), Some(0));
    // Blinker at the edge of the universe
    universe.set_cells(vec![
        0, 0, 0, 0, 0,
        0, 0, 0, 0, 0,
        0, 0, 0, 0, 0,
        0, 0, 0, 0, 0,
        1, 0, 0, 1, 1,
    ]);
    println!("{}", universe.render());
    universe.tick();
    println!("{}", universe.render());
    assert_eq!(
        universe.get_cells(),
        vec![
            0, 0, 0, 0, 1,
            0, 0, 0, 0, 0,
            0, 0, 0, 0, 0,
            0, 0, 0, 0, 1,
            0, 0, 0, 0, 1,
        ]
    );
}

#[test]
fn new_uses_the_default_extent_and_starts_dead() {
    let universe = Universe::new(None, None, None);
    assert_eq!(DEFAULT_EXTENT, 64);
    assert_eq!(universe.width(), 64);
    assert_eq!(universe.height(), 64);
    assert_eq!(universe.generation(), 0);
    assert_eq!(universe.population(), 0);
    assert_eq!(universe.get_cells(), vec![0u8; 64 * 64]);
}

#[test]
fn new_takes_each_extent_on_its_own() {
    let wide = Universe::new(Some(7), None, None);
    assert_eq!((wide.width(), wide.height()), (7, 64));
    let tall = Universe::new(None, Some(3), None);
    assert_eq!((tall.width(), tall.height()), (64, 3));
}

#[test]
fn new_with_a_chance_of_nothing_leaves_every_cell_dead() {
    let universe = Universe::new(Some(10), Some(10), Some(0));
    assert_eq!(universe.get_cells(), vec![0u8; 100]);
}

#[test]
fn new_with_certainty_makes_every_cell_alive() {
    let universe = Universe::new(Some(10), Some(10), Some(CERTAIN));
    assert_eq!(universe.get_cells(), vec![1u8; 100]);
    assert_eq!(universe.population(), 100);
}

#[test]
fn new_with_an_even_chance_makes_some_cells_alive_and_leaves_some_dead() {
    let universe = Universe::new(Some(10), Some(10), Some(CERTAIN / 2));
    assert_eq!(universe.width(), 10);
    assert_eq!(universe.height(), 10);
    assert!(universe.population() > 0);
    assert!(universe.population() < 100);
    assert_eq!(universe.generation(), 0);
}

#[test]
fn new_without_rows_or_columns_is_empty_and_harmless() {
    for (width, height) in [(0, 0), (0, 5), (5, 0)] {
        let mut universe = Universe::new(Some(width), Some(height), Some(CERTAIN));
        assert_eq!(universe.get_cells(), Vec::<u8>::new());
        assert_eq!(universe.population(), 0);
        universe.set_cells(Vec::new());
        universe.tick();
        assert_eq!(universe.generation(), 1);
        assert_eq!(universe.get_cells(), Vec::<u8>::new());
    }
}

#[test]
fn population_counts_the_cells_that_were_set() {
    let mut universe = Universe::new(Some(10), Some(10), None);
    universe.set_cell(1, 1, true);
    universe.set_cell(1, 2, true);
    assert_eq!(universe.population(), 2);
}

#[test]
fn population_is_the_number_of_ones_in_the_cells() {
    let universe = with_cells(4, 3, vec![1, 0, 0, 1, 0, 0, 1, 0, 1, 1, 0, 1]);
    let ones = universe.get_cells().iter().filter(|&&cell| cell == 1).count();
    assert_eq!(universe.population() as usize, ones);
    assert_eq!(universe.population(), 6);
    assert!(universe.population() <= universe.width() * universe.height());
}

#[test]
fn set_cell_writes_one_cell() {
    let mut universe = Universe::new(Some(3), Some(3), None);
    universe.set_cell(1, 1, true);
    assert_eq!(universe.get_cells(), vec![0, 0, 0, 0, 1, 0, 0, 0, 0]);
    universe.set_cell(1, 1, true);
    assert_eq!(universe.get_cells(), vec![0, 0, 0, 0, 1, 0, 0, 0, 0]);
    universe.set_cell(1, 1, false);
    assert_eq!(universe.get_cells(), vec![0u8; 9]);
}

#[test]
fn set_cell_wraps_around_the_edges() {
    let mut universe = dead(4, 3);
    universe.set_cell(-1, -1, true);
    universe.set_cell(3, 4, true);
    universe.set_cell(-5, 9, true);
    assert_eq!(universe.get_cells(), vec![1, 0, 0, 0, 0, 1, 0, 0, 0, 0, 0, 1]);
}

#[test]
fn toggle_cell_flips_one_cell() {
    let mut universe = Universe::new(Some(3), Some(3), None);
    universe.set_cell(1, 1, true);
    universe.toggle_cell(1, 1);
    assert_eq!(universe.get_cells(), vec![0, 0, 0, 0, 0, 0, 0, 0, 0]);
    universe.toggle_cell(-1, 3);
    assert_eq!(universe.get_cells(), vec![0, 0, 0, 0, 0, 0, 1, 0, 0]);
}

#[test]
fn set_cells_accepts_one_byte_for_each_cell() {
    let mut universe = Universe::new(Some(3), Some(3), None);
    universe.set_cells(vec![1; 3 * 3]);
    assert_eq!(universe.get_cells(), vec![1u8; 9]);
    assert_eq!(universe.generation(), 0);
    assert_eq!((universe.width(), universe.height()), (3, 3));
}

#[test]
fn set_cells_takes_any_byte_but_zero_for_alive() {
    let universe = with_cells(3, 2, vec![0, 1, 2, 255, 0, 7]);
    assert_eq!(universe.get_cells(), vec![0, 1, 1, 1, 0, 1]);
}

#[test]
fn try_set_cells_takes_one_byte_for_each_cell() {
    let mut universe = dead(3, 2);
    assert_eq!(universe.try_set_cells(vec![0, 9, 0, 1, 0, 0]), Ok(()));
    assert_eq!(universe.get_cells(), vec![0, 1, 0, 1, 0, 0]);
}

#[test]
fn try_set_cells_refuses_too_few_bytes_and_too_many() {
    let mut universe = with_cells(3, 2, vec![1, 0, 0, 0, 1, 1]);
    assert_eq!(
        universe.try_set_cells(vec![1; 5]),
        Err(SizeMismatch { expected: 6, found: 5 })
    );
    assert_eq!(universe.get_cells(), vec![1, 0, 0, 0, 1, 1]);
    assert_eq!(
        universe.try_set_cells(vec![1; 7]),
        Err(SizeMismatch { expected: 6, found: 7 })
    );
    assert_eq!(universe.get_cells(), vec![1, 0, 0, 0, 1, 1]);
    assert_eq!(
        universe.try_set_cells(Vec::new()),
        Err(SizeMismatch { expected: 6, found: 0 })
    );
    assert_eq!(universe.get_cells(), vec![1, 0, 0, 0, 1, 1]);
    assert_eq!(universe.generation(), 0);
}

#[test]
fn set_cells_of_get_cells_changes_nothing() {
    let mut universe = with_cells(4, 3, vec![1, 0, 0, 1, 0, 0, 1, 0, 1, 1, 0, 1]);
    let before = universe.get_cells();
    universe.set_cells(before.clone());
    assert_eq!(universe.get_cells(), before);
}

#[test]
fn get_cells_has_one_byte_for_each_cell() {
    for (width, height) in [(1, 1), (3, 7), (64, 64), (5, 0)] {
        let mut universe = dead(width, height);
        assert_eq!(universe.get_cells().len() as u32, width * height);
        universe.tick();
        assert_eq!(universe.get_cells().len() as u32, width * height);
    }
}

#[test]
fn generation_counts_the_ticks() {
    let mut universe = dead(4, 4);
    assert_eq!(universe.generation(), 0);
    for ticks in 1..=10 {
        universe.tick();
        assert_eq!(universe.generation(), ticks);
    }
}

#[test]
fn get_index_is_row_major_inside_the_grid() {
    let universe = dead(5, 4);
    assert_eq!(universe.get_index(0, 0), 0);
    assert_eq!(universe.get_index(0, 4), 4);
    assert_eq!(universe.get_index(1, 0), 5);
    assert_eq!(universe.get_index(3, 4), 19);
}

#[test]
fn get_index_wraps_coordinates_off_the_grid() {
    let universe = dead(5, 4);
    assert_eq!(universe.get_index(-1, -1), 19);
    assert_eq!(universe.get_index(4, 5), 0);
    assert_eq!(universe.get_index(-4, -5), 0);
    assert_eq!(universe.get_index(-9, -11), 3 * 5 + 4);
    assert_eq!(universe.get_index(i32::MAX, i32::MAX), 3 * 5 + 2);
    assert_eq!(universe.get_index(i32::MIN, i32::MIN), 0 * 5 + 2);
}

#[test]
fn get_index_is_the_same_after_whole_turns_round_the_torus() {
    let universe = dead(5, 4);
    for row in -6..6 {
        for column in -7..7 {
            for turns in -3..=3 {
                assert_eq!(
                    universe.get_index(row + turns * 4, column + turns * 5),
                    universe.get_index(row, column)
                );
            }
        }
    }
}

#[test]
fn count_living_neighbours_counts_the_eight_cells_around() {
    let universe = with_cells(
        4,
        4,
        vec![
            1, 1, 0, 0,
            0, 1, 0, 0,
            0, 0, 1, 0,
            0, 0, 0, 0,
        ],
    );
    assert_eq!(universe.count_living_neighbours(1, 1), 3);
    assert_eq!(universe.count_living_neighbours(0, 0), 2);
    assert_eq!(universe.count_living_neighbours(2, 2), 1);
    assert_eq!(universe.count_living_neighbours(3, 3), 2);
    assert_eq!(universe.count_living_neighbours(3, 0), 2);
    assert_eq!(universe.count_living_neighbours(2, 0), 1);
}

#[test]
fn count_living_neighbours_counts_a_cell_once_for_each_way_round_a_small_torus() {
    let single = with_cells(1, 1, vec![1]);
    assert_eq!(single.count_living_neighbours(0, 0), 8);
    let pair = with_cells(2, 1, vec![1, 0]);
    assert_eq!(pair.count_living_neighbours(0, 0), 2);
    assert_eq!(pair.count_living_neighbours(0, 1), 6);
    let square = with_cells(2, 2, vec![1, 0, 0, 0]);
    assert_eq!(square.count_living_neighbours(1, 1), 4);
}

#[test]
fn get_next_cell_state_follows_the_rule() {
    let universe = dead(1, 1);
    for count in 0..=8u8 {
        assert_eq!(universe.get_next_cell_state(count, true), count == 2 || count == 3);
        assert_eq!(universe.get_next_cell_state(count, false), count == 3);
    }
}

#[test]
fn a_block_is_a_still_life() {
    let block = vec![
        0, 0, 0, 0,
        0, 1, 1, 0,
        0, 1, 1, 0,
        0, 0, 0, 0,
    ];
    let mut universe = with_cells(4, 4, block.clone());
    universe.tick();
    assert_eq!(universe.get_cells(), block);
    universe.tick();
    assert_eq!(universe.get_cells(), block);
}

#[test]
fn a_block_across_the_edges_is_a_still_life() {
    let block = vec![
        1, 0, 0, 0, 1,
        0, 0, 0, 0, 0,
        0, 0, 0, 0, 0,
        0, 0, 0, 0, 0,
        0, 0, 0, 0, 0,
        1, 0, 0, 0, 1,
    ];
    let mut universe = with_cells(5, 6, block.clone());
    universe.tick();
    assert_eq!(universe.get_cells(), block);
}

#[test]
fn a_blinker_turns_and_turns_back() {
    let horizontal = vec![
        0, 0, 0, 0, 0,
        0, 0, 0, 0, 0,
        0, 1, 1, 1, 0,
        0, 0, 0, 0, 0,
        0, 0, 0, 0, 0,
    ];
    let vertical = vec![
        0, 0, 0, 0, 0,
        0, 0, 1, 0, 0,
        0, 0, 1, 0, 0,
        0, 0, 1, 0, 0,
        0, 0, 0, 0, 0,
    ];
    let mut universe = with_cells(5, 5, horizontal.clone());
    universe.tick();
    assert_eq!(universe.get_cells(), vertical);
    universe.tick();
    assert_eq!(universe.get_cells(), horizontal);
    assert_eq!(universe.generation(), 2);
}

#[test]
fn a_lonely_cell_dies_and_a_crowded_one_too() {
    let mut lonely = with_cells(3, 3, vec![0, 0, 0, 0, 1, 0, 0, 0, 0]);
    lonely.tick();
    assert_eq!(lonely.get_cells(), vec![0u8; 9]);
    let mut crowded = with_cells(4, 4, vec![1u8; 16]);
    crowded.tick();
    assert_eq!(crowded.get_cells(), vec![0u8; 16]);
}

#[test]
fn render_writes_one_line_for_each_row() {
    let universe = with_cells(3, 2, vec![1, 0, 0, 0, 1, 1]);
    assert_eq!(
        universe.render(),
        "\u{25FC} \u{25FB} \u{25FB} \n\u{25FB} \u{25FC} \u{25FC} \n"
    );
}

#[test]
fn render_of_an_empty_universe_is_empty() {
    assert_eq!(dead(0, 3).render(), "");
    assert_eq!(dead(3, 0).render(), "");
}
