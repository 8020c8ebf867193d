use game_of_life::load::extract_world;
use game_of_life::load::LoadError;
use game_of_life::matrix::BidimensionalMatrix;
use game_of_life::world::World;

fn load(text: &str) -> World {
    match extract_world(text) {
        Ok(world) => world,
        Err(_) => panic!("the text describes a valid grid"),
    }
}

// Tests carried over from the simulation engine.

#[test]
fn test_get_next_for_rule_1() {
    let world = World::new(
        3,
        3,
        vec![false, false, false, false, true, true, false, false, false],
    );

    assert!(!world.get_next_value(1, 1));
}

#[test]
fn test_get_next_for_rule_2() {
    let world = World::new(
        3,
        3,
        vec![false, false, false, false, true, true, false, false, true],
    );

    assert!(world.get_next_value(1, 1));
}

#[test]
fn test_get_next_for_rule_3() {
    let world = World::new(
        3,
        3,
        vec![true, true, true, false, true, true, false, false, false],
    );

    assert!(!world.get_next_value(1, 1));
}

#[test]
fn test_get_next_for_rule_4() {
    let world = World::new(
        3,
        3,
        vec![false, true, true, false, false, true, false, false, false],
    );

    assert!(world.get_next_value(1, 1));
}

#[test]
fn test_calculate_alives() {
    let world = World::new(
        5,
        5,
        vec![
            false, false, true, false, true, false, false, true, false, true, false, true, true,
            false, true, false, true, true, true, true, false, true, true, false, true,
        ],
    );
    assert!(world.get_alive_neighbors(1, 1) == 4);
    assert!(world.get_alive_neighbors(2, 2) == 5);
    assert!(world.get_alive_neighbors(3, 3) == 6);
}

#[test]
fn game_of_life_test_get_next_for_rule_1() {
    let world = World::new(
        3,
        3,
        vec![false, false, false, false, true, true, false, false, false],
    );

    assert!(!world.get_next_value(1, 1));
}

#[test]
fn game_of_life_test_get_next_for_rule_2() {
    let world = World::new(
        3,
        3,
        vec![false, false, false, false, true, true, false, false, true],
    );

    assert!(world.get_next_value(1, 1));
}

#[test]
fn game_of_life_test_get_next_for_rule_3() {
    let world = World::new(
        3,
        3,
        vec![true, true, true, false, true, true, false, false, false],
    );

    assert!(!world.get_next_value(1, 1));
}

#[test]
fn game_of_life_test_get_next_for_rule_4() {
    let world = World::new(
        3,
        3,
        vec![false, true, true, false, false, true, false, false, false],
    );

    assert!(world.get_next_value(1, 1));
}

#[test]
fn game_of_life_test_calculate_alives() {
    let world = World::new(
        5,
        5,
        vec![
            false, false, true, false, true, false, false, true, false, true, false, true, true,
            false, true, false, true, true, true, true, false, true, true, false, true,
        ],
    );
    assert!(world.get_alive_neighbors(1, 1) == 4);
    assert!(world.get_alive_neighbors(2, 2) == 5);
    assert!(world.get_alive_neighbors(3, 3) == 6);
}

// Tests carried over from the loader.

#[test]
fn test_extract_world() {
    let world = load("01\n11");
    println!("Number of rows {}", world.num_of_rows);
    assert!(world.num_of_rows == 2);
    assert!(world.num_of_columns == 2);
}

#[test]
fn test_extract_world_with_empty_line_at_the_end() {
    let world = load("01\n11\n");
    println!("Number of rows {}", world.num_of_rows);
    assert!(world.num_of_rows == 2);
    assert!(world.num_of_columns == 2);
}

// Tests carried over from the matrix.

#[test]
fn test_get_element() {
    let array = BidimensionalMatrix::new(2, 2, vec![true, false, true, false]);
    assert!(array.get(0, 0) == true);
    assert!(array.get(0, 1) == false);
    assert!(array.get(1, 0) == true);
    assert!(array.get(1, 1) == false);
}

#[test]
fn test_set_elements() {
    let mut array = BidimensionalMatrix::new(2, 2, vec![true, false, true, false]);
    assert!(array.get(0, 1) == false);
    array.set(0, 1, true);
    assert!(array.get(0, 1) == true);
}

// Further tests of the matrix.

#[test]
fn test_matrix_clone_is_independent() {
    let mut array = BidimensionalMatrix::new(2, 2, vec![true, false, true, false]);
    let copy = array.clone();
    array.set(0, 0, false);
    assert!(copy.get(0, 0) == true);
    assert!(array.get(0, 0) == false);
    assert!(copy.rows == 2);
    assert!(copy.columns == 2);
}

// Further tests of the loader.

#[test]
fn test_extract_world_cell_values() {
    let world = load("01\n11");
    assert_eq!(world.num_of_rows, 2);
    assert_eq!(world.num_of_columns, 2);
    assert!(world.current.get(0, 0) == false);
    assert!(world.current.get(0, 1) == true);
    assert!(world.current.get(1, 0) == true);
    assert!(world.current.get(1, 1) == true);

    // A trailing newline yields the identical grid.
    let again = load("01\n11\n");
    assert_eq!(again.num_of_rows, 2);
    assert_eq!(again.num_of_columns, 2);
    for i in 0..2 {
        for j in 0..2 {
            assert_eq!(again.current.get(i, j), world.current.get(i, j));
        }
    }
}

#[test]
fn test_extract_world_invalid_character() {
    assert!(matches!(extract_world("01\nx1"), Err(LoadError::InvalidCharacter)));
    assert!(matches!(extract_world("2"), Err(LoadError::InvalidCharacter)));
}

#[test]
fn test_extract_world_inconsistent_row_length() {
    // Detected at the row's terminating newline.
    assert!(matches!(
        extract_world("01\n111\n"),
        Err(LoadError::InconsistentRowLength)
    ));
    // Detected at the end of the text, on an unterminated final row.
    assert!(matches!(
        extract_world("01\n111"),
        Err(LoadError::InconsistentRowLength)
    ));
}

#[test]
fn test_extract_world_invalid_character_comes_first() {
    // The bad character stands before the short row's end, so it decides.
    assert!(matches!(extract_world("01\nx\n"), Err(LoadError::InvalidCharacter)));
}

#[test]
fn test_extract_world_empty_text() {
    let world = load("");
    assert_eq!(world.num_of_rows, 0);
    assert_eq!(world.num_of_columns, 0);
}

#[test]
fn test_extract_world_unterminated_single_row() {
    let world = load("011");
    assert_eq!(world.num_of_rows, 1);
    assert_eq!(world.num_of_columns, 3);
    assert!(world.current.get(0, 0) == false);
    assert!(world.current.get(0, 1) == true);
    assert!(world.current.get(0, 2) == true);
}

// Further tests of the engine.

#[test]
fn test_step_keeps_borders_dead() {
    // A 5x5 grid filled alive: after one step every border cell is dead.
    let mut world = World::new(5, 5, vec![true; 25]);
    world.step();
    for i in 0..5 {
        for j in 0..5 {
            if i == 0 || i == 4 || j == 0 || j == 4 {
                assert!(!world.current.get(i, j));
            }
        }
    }
}

#[test]
fn test_step_block_is_still() {
    // A 2x2 block in the interior of a 5x5 grid survives a step unchanged.
    let mut data = vec![false; 25];
    data[1 * 5 + 1] = true;
    data[1 * 5 + 2] = true;
    data[2 * 5 + 1] = true;
    data[2 * 5 + 2] = true;
    let mut world = World::new(5, 5, data);
    world.step();
    for i in 0..5 {
        for j in 0..5 {
            let expected = (i == 1 || i == 2) && (j == 1 || j == 2);
            assert_eq!(world.current.get(i, j), expected);
        }
    }
}

#[test]
fn test_step_all_dead_stays_dead() {
    let mut world = World::new(4, 3, vec![false; 12]);
    world.step();
    world.step();
    for i in 0..4 {
        for j in 0..3 {
            assert!(!world.current.get(i, j));
        }
    }
}

#[test]
fn test_step_is_deterministic() {
    let data = vec![
        false, false, true, false, true, false, false, true, false, true, false, true, true,
        false, true, false, true, true, true, true, false, true, true, false, true,
    ];
    let mut first = World::new(5, 5, data.clone());
    let mut second = World::new(5, 5, data);
    for _ in 0..4 {
        first.step();
        second.step();
        for i in 0..5 {
            for j in 0..5 {
                assert_eq!(first.current.get(i, j), second.current.get(i, j));
            }
        }
    }
}

#[test]
fn test_step_degenerate_grids() {
    // With two or fewer rows or columns every cell is a border cell,
    // so one step kills the whole grid.
    let mut narrow = World::new(2, 2, vec![true, true, true, true]);
    narrow.step();
    for i in 0..2 {
        for j in 0..2 {
            assert!(!narrow.current.get(i, j));
        }
    }
    let mut single = World::new(1, 1, vec![true]);
    single.step();
    assert!(!single.current.get(0, 0));
}

#[test]
fn test_alive_neighbors_wraparound() {
    // Neighbors of the corner (0, 0) wrap to the last row and column:
    // only (2, 2) and (0, 1) are alive among them.
    let mut data = vec![false; 9];
    data[2 * 3 + 2] = true;
    data[0 * 3 + 1] = true;
    let world = World::new(3, 3, data);
    assert_eq!(world.get_alive_neighbors(0, 0), 2);
}

#[test]
fn test_get_next_value_on_border() {
    // The center has three alive neighbors, but every border cell still
    // computes to dead.
    let world = World::new(
        3,
        3,
        vec![false, true, true, false, false, true, false, false, false],
    );
    for i in 0..3 {
        for j in 0..3 {
            if i == 0 || i == 2 || j == 0 || j == 2 {
                assert!(!world.get_next_value(i, j));
            }
        }
    }
}
