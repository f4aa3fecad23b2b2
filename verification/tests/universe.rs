use wasm_game_of_life::{Cell, Universe};

fn dead_grid(width: u32, height: u32) -> Universe {
    let flags = vec![false; (width * height) as usize];
    Universe::new(width, height, &flags).expect("dimensions are positive")
}

fn grid_with(width: u32, height: u32, alive: &[(u32, u32)]) -> Universe {
    let mut universe = dead_grid(width, height);
    for &(row, column) in alive {
        universe.set_alive(row, column);
    }
    universe
}

fn alive_positions(universe: &Universe) -> Vec<(u32, u32)> {
    let mut found = Vec::new();
    for row in 0..universe.height() {
        for column in 0..universe.width() {
            if universe.cells()[universe.get_index(row, column)] == Cell::Alive {
                found.push((row, column));
            }
        }
    }
    found
}

#[test]
fn new_places_flags_in_row_major_order() {
    let universe = Universe::new(3, 2, &[true, false, false, false, true, true]).unwrap();
    assert_eq!(universe.width(), 3);
    assert_eq!(universe.height(), 2);
    assert_eq!(
        universe.cells(),
        &[Cell::Alive, Cell::Dead, Cell::Dead, Cell::Dead, Cell::Alive, Cell::Alive][..]
    );
    assert_eq!(alive_positions(&universe), vec![(0, 0), (1, 1), (1, 2)]);
}

#[test]
fn new_rejects_zero_width() {
    assert!(Universe::new(0, 4, &[]).is_none());
}

#[test]
fn new_rejects_zero_height() {
    assert!(Universe::new(4, 0, &[]).is_none());
}

#[test]
fn new_rejects_wrong_flag_count() {
    assert!(Universe::new(2, 2, &[true, false, true]).is_none());
    assert!(Universe::new(2, 2, &[true, false, true, false, true]).is_none());
    assert!(Universe::new(2, 2, &[]).is_none());
    assert!(Universe::new(2, 2, &[true, false, true, false]).is_some());
}

#[test]
fn new_rejects_grid_beyond_32_bits() {
    assert!(Universe::new(65536, 65536, &[]).is_none());
    assert!(Universe::new(u32::MAX, 2, &[true, true]).is_none());
}

#[test]
fn cell_count_is_width_times_height_in_every_state() {
    let mut universe = grid_with(7, 3, &[(0, 0), (1, 1), (2, 6), (1, 2), (1, 3)]);
    assert_eq!(universe.cells().len(), 21);
    for _ in 0..5 {
        universe.tick();
        assert_eq!(universe.cells().len(), 21);
        assert_eq!(universe.width(), 7);
        assert_eq!(universe.height(), 3);
    }
    universe.set_alive(2, 5);
    assert_eq!(universe.cells().len(), 21);
    universe.clear();
    assert_eq!(universe.cells().len(), 21);
    assert_eq!(universe.width(), 7);
    assert_eq!(universe.height(), 3);
}

#[test]
fn get_index_is_row_major() {
    let universe = dead_grid(5, 4);
    assert_eq!(universe.get_index(0, 0), 0);
    assert_eq!(universe.get_index(0, 4), 4);
    assert_eq!(universe.get_index(1, 0), 5);
    assert_eq!(universe.get_index(2, 3), 13);
    assert_eq!(universe.get_index(3, 4), 19);
}

#[test]
fn set_alive_writes_one_cell() {
    let mut universe = dead_grid(4, 3);
    universe.set_alive(1, 2);
    let mut expected = vec![Cell::Dead; 12];
    expected[6] = Cell::Alive;
    assert_eq!(universe.cells(), &expected[..]);
    universe.set_alive(1, 2);
    assert_eq!(universe.cells(), &expected[..]);
}

#[test]
fn neighbour_count_stays_within_eight() {
    let flags: Vec<bool> = (0..30).map(|i| i % 3 != 1).collect();
    let universe = Universe::new(6, 5, &flags).unwrap();
    for row in 0..5 {
        for column in 0..6 {
            assert!(universe.live_neighbour_count(row, column) <= 8);
        }
    }
    let full = Universe::new(6, 5, &vec![true; 30]).unwrap();
    for row in 0..5 {
        for column in 0..6 {
            assert_eq!(full.live_neighbour_count(row, column), 8);
        }
    }
    let empty = dead_grid(6, 5);
    for row in 0..5 {
        for column in 0..6 {
            assert_eq!(empty.live_neighbour_count(row, column), 0);
        }
    }
}

#[test]
fn neighbour_count_of_inner_cell() {
    let universe = grid_with(5, 5, &[(1, 1), (1, 2), (2, 3), (3, 3), (2, 2), (0, 0)]);
    assert_eq!(universe.live_neighbour_count(2, 2), 4);
    assert_eq!(universe.live_neighbour_count(1, 1), 3);
    assert_eq!(universe.live_neighbour_count(4, 4), 2);
}

#[test]
fn corner_counts_the_opposite_corner() {
    for &(width, height) in &[(3u32, 3u32), (4, 3), (3, 7), (5, 5), (8, 4)] {
        let universe = grid_with(width, height, &[(height - 1, width - 1)]);
        assert_eq!(universe.live_neighbour_count(0, 0), 1);
        assert_eq!(universe.live_neighbour_count(height - 1, width - 1), 0);
    }
}

#[test]
fn corner_counts_the_opposite_corner_in_two_by_two() {
    let universe = grid_with(2, 2, &[(1, 1)]);
    assert_eq!(universe.live_neighbour_count(0, 0), 4);
    assert_eq!(universe.live_neighbour_count(0, 1), 2);
    assert_eq!(universe.live_neighbour_count(1, 0), 2);
    assert_eq!(universe.live_neighbour_count(1, 1), 0);
}

#[test]
fn edges_wrap_on_both_axes() {
    let universe = grid_with(4, 4, &[(0, 1), (3, 0), (1, 3)]);
    // north of row 0 is row 3; west of column 0 is column 3
    assert_eq!(universe.live_neighbour_count(0, 0), 3);
    assert_eq!(universe.live_neighbour_count(3, 3), 1);
    assert_eq!(universe.live_neighbour_count(3, 1), 2);
    assert_eq!(universe.live_neighbour_count(1, 0), 2);
}

#[test]
fn one_wide_and_one_tall_grids_count_each_offset() {
    let single = grid_with(1, 1, &[(0, 0)]);
    assert_eq!(single.live_neighbour_count(0, 0), 8);

    let column = grid_with(1, 3, &[(1, 0)]);
    assert_eq!(column.live_neighbour_count(1, 0), 2);
    assert_eq!(column.live_neighbour_count(0, 0), 3);
    assert_eq!(column.live_neighbour_count(2, 0), 3);

    let row = grid_with(3, 1, &[(0, 0)]);
    assert_eq!(row.live_neighbour_count(0, 0), 2);
    assert_eq!(row.live_neighbour_count(0, 1), 3);
    assert_eq!(row.live_neighbour_count(0, 2), 3);
}

#[test]
fn blinker_oscillates_with_period_two() {
    let mut universe = grid_with(5, 5, &[(2, 1), (2, 2), (2, 3)]);
    assert_eq!(alive_positions(&universe), vec![(2, 1), (2, 2), (2, 3)]);
    universe.tick();
    assert_eq!(alive_positions(&universe), vec![(1, 2), (2, 2), (3, 2)]);
    universe.tick();
    assert_eq!(alive_positions(&universe), vec![(2, 1), (2, 2), (2, 3)]);
}

#[test]
fn blinker_restarts_from_the_same_state() {
    let mut first = grid_with(5, 5, &[(2, 1), (2, 2), (2, 3)]);
    let mut second = grid_with(5, 5, &[(2, 1), (2, 2), (2, 3)]);
    first.tick();
    first.tick();
    first.tick();
    second.tick();
    assert_eq!(first.cells(), second.cells());
}

#[test]
fn block_is_still() {
    let mut universe = grid_with(4, 4, &[(1, 1), (1, 2), (2, 1), (2, 2)]);
    universe.tick();
    assert_eq!(alive_positions(&universe), vec![(1, 1), (1, 2), (2, 1), (2, 2)]);
}

#[test]
fn three_neighbours_give_birth() {
    let mut universe = grid_with(5, 5, &[(1, 1), (1, 3), (3, 2)]);
    assert_eq!(universe.live_neighbour_count(2, 2), 3);
    universe.tick();
    assert_eq!(alive_positions(&universe), vec![(2, 2)]);
}

#[test]
fn isolated_cell_dies() {
    let mut universe = grid_with(5, 5, &[(2, 2)]);
    assert_eq!(universe.live_neighbour_count(2, 2), 0);
    universe.tick();
    assert_eq!(alive_positions(&universe), Vec::<(u32, u32)>::new());
}

#[test]
fn crowded_cell_dies() {
    let mut universe = grid_with(
        5,
        5,
        &[(1, 1), (1, 2), (1, 3), (2, 1), (2, 2), (2, 3), (3, 1), (3, 2), (3, 3)],
    );
    assert_eq!(universe.live_neighbour_count(2, 2), 8);
    universe.tick();
    assert_eq!(universe.cells()[universe.get_index(2, 2)], Cell::Dead);
    assert_eq!(
        alive_positions(&universe),
        vec![(0, 2), (1, 1), (1, 3), (2, 0), (2, 4), (3, 1), (3, 3), (4, 2)]
    );
}

#[test]
fn tick_reads_only_the_state_before_it() {
    // A glider after one generation; an update in place would differ.
    let mut universe = grid_with(6, 6, &[(0, 1), (1, 2), (2, 0), (2, 1), (2, 2)]);
    universe.tick();
    assert_eq!(alive_positions(&universe), vec![(1, 0), (1, 2), (2, 1), (2, 2), (3, 1)]);
}

#[test]
fn clear_twice_is_clear_once() {
    let mut once = grid_with(4, 3, &[(0, 0), (1, 2), (2, 3)]);
    let mut twice = grid_with(4, 3, &[(0, 0), (1, 2), (2, 3)]);
    once.clear();
    twice.clear();
    twice.clear();
    assert_eq!(once.cells(), &vec![Cell::Dead; 12][..]);
    assert_eq!(twice.cells(), once.cells());
    assert_eq!(twice.width(), 4);
    assert_eq!(twice.height(), 3);
}

#[test]
fn dead_grid_is_a_fixed_point() {
    let mut universe = grid_with(4, 3, &[(0, 0), (0, 1), (1, 0), (2, 3)]);
    universe.clear();
    for _ in 0..4 {
        universe.tick();
        assert_eq!(universe.cells(), &vec![Cell::Dead; 12][..]);
    }
}

#[test]
fn render_draws_each_row_on_its_own_line() {
    let universe = grid_with(3, 2, &[(0, 1), (1, 0), (1, 2)]);
    assert_eq!(universe.render(), "◻◼◻\n◼◻◼\n");
}

#[test]
fn render_has_height_lines_of_width_glyphs() {
    for &(width, height) in &[(1u32, 1u32), (1, 4), (4, 1), (3, 5), (6, 2)] {
        let mut universe = dead_grid(width, height);
        universe.set_alive(height - 1, 0);
        let text = universe.render();
        assert!(text.ends_with('\n'));
        let lines: Vec<&str> = text.lines().collect();
        assert_eq!(lines.len(), height as usize);
        for line in &lines {
            assert_eq!(line.chars().count(), width as usize);
            assert!(line.chars().all(|c| c == '◻' || c == '◼'));
        }
        assert_eq!(text.chars().count(), (height * (width + 1)) as usize);
    }
}

#[test]
fn render_of_single_cell_grids() {
    assert_eq!(dead_grid(1, 1).render(), "◻\n");
    assert_eq!(grid_with(1, 1, &[(0, 0)]).render(), "◼\n");
    assert_eq!(grid_with(1, 3, &[(1, 0)]).render(), "◻\n◼\n◻\n");
    assert_eq!(grid_with(3, 1, &[(0, 2)]).render(), "◻◻◼\n");
}

#[test]
fn render_does_not_change_the_grid() {
    let universe = grid_with(3, 3, &[(1, 1)]);
    let before: Vec<Cell> = universe.cells().to_vec();
    let first = universe.render();
    let second = universe.render();
    assert_eq!(first, second);
    assert_eq!(universe.cells(), &before[..]);
}

#[test]
fn rule_for_live_cells() {
    let expected = [
        Cell::Dead,
        Cell::Dead,
        Cell::Alive,
        Cell::Alive,
        Cell::Dead,
        Cell::Dead,
        Cell::Dead,
        Cell::Dead,
        Cell::Dead,
    ];
    for n in 0u8..=8 {
        assert_eq!(Cell::Alive.next(n), expected[n as usize]);
    }
}

#[test]
fn rule_for_dead_cells() {
    for n in 0u8..=8 {
        let expected = if n == 3 { Cell::Alive } else { Cell::Dead };
        assert_eq!(Cell::Dead.next(n), expected);
    }
}

#[test]
fn cell_values_and_glyphs() {
    assert_eq!(Cell::Dead.value(), 0);
    assert_eq!(Cell::Alive.value(), 1);
    assert_eq!(Cell::Dead.glyph(), "◻");
    assert_eq!(Cell::Alive.glyph(), "◼");
    assert_eq!(Cell::from_alive(true), Cell::Alive);
    assert_eq!(Cell::from_alive(false), Cell::Dead);
}
