use wasm_game_of_life::universe::packed_bytes;
use wasm_game_of_life::{FillOptions, Universe};

fn states(universe: &Universe) -> Vec<bool> {
    let mut cells = Vec::new();
    for row in 0..universe.height() {
        for column in 0..universe.width() {
            cells.push(universe[(row, column)]);
        }
    }
    cells
}

#[test]
fn new_board_has_one_cell_per_position() {
    for (width, height) in [(1, 1), (3, 2), (6, 6), (7, 5), (64, 64), (33, 1)] {
        let universe = Universe::new(width, height, FillOptions::AllAlive);
        assert_eq!(universe.width(), width);
        assert_eq!(universe.height(), height);
        assert_eq!(states(&universe).len(), width * height);
        assert_eq!(universe.get_cells().len(), (width * height + 31) / 32);
        assert_eq!(universe.render().chars().count(), height * (width + 1));
    }
}

#[test]
fn get_index_is_row_major() {
    let universe = Universe::new(5, 3, FillOptions::AllDead);
    assert_eq!(universe.get_index(0, 0), 0);
    assert_eq!(universe.get_index(0, 4), 4);
    assert_eq!(universe.get_index(1, 0), 5);
    assert_eq!(universe.get_index(2, 3), 13);
}

#[test]
fn get_index_wraps_rows_and_columns() {
    let universe = Universe::new(5, 3, FillOptions::AllDead);
    for row in 0..20 {
        assert_eq!(universe.get_index(row, 0), universe.get_index(row % 3, 0));
        assert_eq!(universe.get_index(row, 0), (row % 3) * 5);
    }
    assert_eq!(universe.get_index(3, 0), 0);
    assert_eq!(universe.get_index(4, 7), 7);
    assert_eq!(universe.get_index(usize::MAX, usize::MAX), 0);
    for row in 0..10 {
        for column in 0..12 {
            assert!(universe.get_index(row, column) < 15);
        }
    }
}

#[test]
fn neighbour_count_sees_all_eight_sides() {
    let mut universe = Universe::new(5, 5, FillOptions::AllDead);
    universe.set_cells(true, &[2], &[2]);
    for (row, column) in [(1, 1), (1, 2), (1, 3), (2, 1), (2, 3), (3, 1), (3, 2), (3, 3)] {
        assert_eq!(universe.live_neighbours_count(row, column), 1);
    }
    assert_eq!(universe.live_neighbours_count(2, 2), 0);
    assert_eq!(universe.live_neighbours_count(0, 0), 0);
    assert_eq!(universe.live_neighbours_count(4, 2), 0);
}

#[test]
fn neighbour_count_wraps_around_the_edges() {
    let mut universe = Universe::new(4, 3, FillOptions::AllDead);
    universe.set_cells(true, &[2, 0, 2], &[3, 3, 0]);
    assert_eq!(universe.live_neighbours_count(0, 0), 3);
    assert_eq!(universe.live_neighbours_count(3, 4), 3);
    assert_eq!(universe.live_neighbours_count(1, 3), 3);
    assert_eq!(universe.live_neighbours_count(2, 3), 2);
    assert_eq!(
        universe.live_neighbours_count(usize::MAX, usize::MAX),
        universe.live_neighbours_count(usize::MAX % 3, usize::MAX % 4)
    );
}

#[test]
fn neighbour_count_is_at_most_eight() {
    let universe = Universe::new(6, 4, FillOptions::AllAlive);
    for row in 0..4 {
        for column in 0..6 {
            assert_eq!(universe.live_neighbours_count(row, column), 8);
        }
    }
    let patterned = Universe::new(6, 4, FillOptions::i2i7_Pattern);
    for row in 0..4 {
        for column in 0..6 {
            assert!(patterned.live_neighbours_count(row, column) <= 8);
        }
    }
}

#[test]
fn neighbours_on_a_narrow_board_count_a_cell_once_per_side() {
    // With two columns the cell to the west is also the cell to the east.
    let mut universe = Universe::new(2, 3, FillOptions::AllDead);
    universe.set_cells(true, &[1], &[1]);
    assert_eq!(universe.live_neighbours_count(1, 0), 2);
    assert_eq!(universe.live_neighbours_count(0, 0), 2);
    assert_eq!(universe.live_neighbours_count(0, 1), 1);
    assert_eq!(universe.live_neighbours_count(1, 1), 0);
}

#[test]
fn toggle_flips_one_cell() {
    let mut universe = Universe::new(4, 4, FillOptions::AllDead);
    universe.toggle_cell(1, 2);
    let mut expected = vec![false; 16];
    expected[6] = true;
    assert_eq!(states(&universe), expected);
}

#[test]
fn toggle_twice_restores_the_board() {
    let mut universe = Universe::new(7, 5, FillOptions::i2i7_Pattern);
    let before = states(&universe);
    for (row, column) in [(0, 0), (4, 6), (2, 3), (9, 20)] {
        let was = universe[(row, column)];
        universe.toggle_cell(row, column);
        assert_eq!(universe[(row, column)], !was);
        universe.toggle_cell(row, column);
        assert_eq!(universe[(row, column)], was);
        assert_eq!(states(&universe), before);
    }
}

#[test]
fn toggle_wraps_its_coordinates() {
    let mut universe = Universe::new(4, 3, FillOptions::AllDead);
    universe.toggle_cell(4, 6);
    assert!(universe[(1, 2)]);
    assert_eq!(states(&universe).iter().filter(|alive| **alive).count(), 1);
}

#[test]
fn set_cells_sets_each_named_cell() {
    let mut universe = Universe::new(4, 3, FillOptions::AllDead);
    universe.set_cells(true, &[0, 1, 2], &[1, 2, 3]);
    let alive: Vec<usize> = (0..12).filter(|i| states(&universe)[*i]).collect();
    assert_eq!(alive, vec![1, 6, 11]);
    universe.set_cells(false, &[1], &[2]);
    let alive: Vec<usize> = (0..12).filter(|i| states(&universe)[*i]).collect();
    assert_eq!(alive, vec![1, 11]);
}

#[test]
fn set_cells_takes_repeated_and_wrapped_coordinates() {
    let mut universe = Universe::new(4, 3, FillOptions::AllDead);
    universe.set_cells(true, &[1, 1, 4, 7], &[2, 2, 6, 10]);
    let alive: Vec<usize> = (0..12).filter(|i| states(&universe)[*i]).collect();
    assert_eq!(alive, vec![6]);
}

#[test]
fn set_cells_ignores_columns_without_a_row() {
    let mut universe = Universe::new(4, 3, FillOptions::AllDead);
    universe.set_cells(true, &[2], &[0, 1, 2, 3]);
    let alive: Vec<usize> = (0..12).filter(|i| states(&universe)[*i]).collect();
    assert_eq!(alive, vec![8]);
}

#[test]
fn set_cells_with_no_coordinates_changes_nothing() {
    let mut universe = Universe::new(4, 3, FillOptions::i2i7_Pattern);
    let before = states(&universe);
    universe.set_cells(true, &[], &[]);
    assert_eq!(states(&universe), before);
}

#[test]
fn index_reads_the_cell_on_the_torus() {
    let mut universe = Universe::new(3, 2, FillOptions::AllDead);
    universe.set_cells(true, &[1], &[2]);
    assert!(universe[(1, 2)]);
    assert!(universe[(3, 5)]);
    assert!(!universe[(0, 2)]);
    assert!(!universe[(1, 1)]);
}

#[test]
fn clone_is_independent_of_its_source() {
    let mut universe = Universe::new(3, 3, FillOptions::AllDead);
    universe.set_cells(true, &[1], &[1]);
    let copy = universe.clone();
    universe.toggle_cell(0, 0);
    assert_eq!(copy.width(), 3);
    assert_eq!(copy.height(), 3);
    assert!(copy[(1, 1)]);
    assert!(!copy[(0, 0)]);
    assert!(universe[(0, 0)]);
}

#[test]
fn render_draws_rows_of_glyphs() {
    let mut universe = Universe::new(3, 2, FillOptions::AllDead);
    universe.set_cells(true, &[0, 1], &[1, 2]);
    assert_eq!(
        universe.render(),
        "\u{25FB}\u{25FC}\u{25FB}\n\u{25FB}\u{25FB}\u{25FC}\n"
    );
}

#[test]
fn render_of_a_single_cell() {
    assert_eq!(
        Universe::new(1, 1, FillOptions::AllAlive).render(),
        "\u{25FC}\n"
    );
    assert_eq!(
        Universe::new(1, 1, FillOptions::AllDead).render(),
        "\u{25FB}\n"
    );
}

#[test]
fn get_cells_packs_cells_from_the_low_bit_up() {
    let mut universe = Universe::new(8, 5, FillOptions::AllDead);
    assert_eq!(universe.get_cells(), &[0, 0]);
    universe.set_cells(true, &[0, 0, 3, 4, 4], &[0, 3, 7, 0, 7]);
    assert_eq!(universe.get_cells(), &[0x8000_0009, 0x81]);
}

#[test]
fn get_cells_of_a_full_board() {
    let universe = Universe::new(6, 6, FillOptions::AllAlive);
    assert_eq!(universe.get_cells(), &[0xFFFF_FFFF, 0xF]);
}

#[test]
fn boards_with_the_same_cells_have_the_same_packed_cells() {
    let mut stepped = Universe::new(6, 6, FillOptions::AllDead);
    stepped.set_cells(true, &[1, 2, 3, 3, 3], &[2, 3, 1, 2, 3]);
    stepped.tick();
    let mut set = Universe::new(6, 6, FillOptions::AllDead);
    set.set_cells(true, &[2, 2, 3, 3, 4], &[1, 3, 2, 3, 2]);
    assert_eq!(stepped.get_cells(), set.get_cells());
    assert_eq!(set.get_cells(), &[0x0430_A000, 0]);

    let mut cleared = Universe::new(6, 6, FillOptions::AllAlive);
    cleared.fill(FillOptions::AllDead);
    cleared.set_cells(true, &[2, 2, 3, 3, 4], &[1, 3, 2, 3, 2]);
    assert_eq!(cleared.get_cells(), set.get_cells());
}

#[test]
fn packed_cells_hold_clear_bits_after_the_last_cell() {
    for (width, height) in [(1, 1), (5, 7), (6, 6), (9, 7), (8, 4), (11, 3)] {
        let mut universe = Universe::new(width, height, FillOptions::AllAlive);
        universe.toggle_cell(0, 0);
        universe.toggle_cell(0, 0);
        universe.tick();
        universe.fill(FillOptions::AllAlive);
        let cells = width * height;
        let blocks = universe.get_cells();
        assert_eq!(blocks.len(), (cells + 31) / 32);
        for bit in 0..32 * blocks.len() {
            assert_eq!(blocks[bit / 32] & (1 << (bit % 32)) != 0, bit < cells);
        }
    }
}

#[test]
fn packed_bytes_rounds_up() {
    assert_eq!(packed_bytes(0), 0);
    assert_eq!(packed_bytes(1), 1);
    assert_eq!(packed_bytes(8), 1);
    assert_eq!(packed_bytes(9), 2);
    assert_eq!(packed_bytes(36), 5);
    assert_eq!(packed_bytes(usize::MAX), usize::MAX / 8 + 1);
}
