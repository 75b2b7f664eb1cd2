use game_of_life::{next_state, CellState, Grid, HEIGHT, WIDTH};

fn grid_with(width: usize, height: usize, alive: &[(usize, usize)]) -> Grid {
    let mut grid = Grid::new(width, height);
    for &(x, y) in alive {
        grid.set(x, y, CellState::ALIVE);
    }
    grid
}

fn alive_cells(grid: &Grid) -> Vec<(usize, usize)> {
    let mut alive = Vec::new();
    for y in 0..grid.height() {
        for x in 0..grid.width() {
            if grid.get(x, y) == CellState::ALIVE {
                alive.push((x, y));
            }
        }
    }
    alive
}

/// Updates the cells one after the other in row-major order, each one
/// seeing the new states of the cells before it.
fn sweep_in_place(grid: &mut Grid) {
    for y in 0..grid.height() {
        for x in 0..grid.width() {
            let state = next_state(&grid.get(x, y), grid.count_alive_neighbors(x, y));
            grid.set(x, y, state);
        }
    }
}

#[test]
fn advance_keeps_the_size() {
    let grid = grid_with(WIDTH, HEIGHT, &[(1, 1), (2, 1), (3, 1)]);
    let next = grid.advance();
    assert_eq!(next.width(), WIDTH);
    assert_eq!(next.height(), HEIGHT);
    assert_eq!(next.render().chars().count(), HEIGHT * (WIDTH + 1));
}

#[test]
fn advance_gives_every_cell_the_rule_on_the_old_grid() {
    let grid = grid_with(
        7,
        6,
        &[(0, 0), (6, 0), (6, 5), (1, 1), (2, 1), (3, 2), (3, 3), (4, 3), (0, 4), (5, 5)],
    );
    let next = grid.advance();
    for y in 0..6 {
        for x in 0..7 {
            let expected = next_state(&grid.get(x, y), grid.count_alive_neighbors(x, y));
            assert_eq!(next.get(x, y), expected);
        }
    }
}

#[test]
fn advance_leaves_the_old_grid_as_it_was() {
    let grid = grid_with(5, 5, &[(1, 2), (2, 2), (3, 2)]);
    let _next = grid.advance();
    assert_eq!(alive_cells(&grid), vec![(1, 2), (2, 2), (3, 2)]);
}

#[test]
fn dead_grid_stays_dead() {
    let grid = Grid::new(WIDTH, HEIGHT);
    assert_eq!(alive_cells(&grid.advance()), vec![]);
}

#[test]
fn lone_cell_dies() {
    let grid = grid_with(5, 5, &[(2, 2)]);
    assert_eq!(alive_cells(&grid.advance()), vec![]);
}

#[test]
fn blinker_turns_from_row_to_column() {
    let grid = grid_with(5, 5, &[(1, 2), (2, 2), (3, 2)]);
    let next = grid.advance();
    assert_eq!(next.get(1, 2), CellState::DEAD);
    assert_eq!(next.get(3, 2), CellState::DEAD);
    assert_eq!(next.get(2, 1), CellState::ALIVE);
    assert_eq!(next.get(2, 2), CellState::ALIVE);
    assert_eq!(next.get(2, 3), CellState::ALIVE);
    assert_eq!(alive_cells(&next), vec![(2, 1), (2, 2), (2, 3)]);
}

#[test]
fn blinker_comes_back_after_two_steps() {
    let grid = grid_with(WIDTH, HEIGHT, &[(10, 10), (11, 10), (12, 10)]);
    let once = grid.advance();
    assert_eq!(alive_cells(&once), vec![(11, 9), (11, 10), (11, 11)]);
    let twice = once.advance();
    assert_eq!(alive_cells(&twice), vec![(10, 10), (11, 10), (12, 10)]);
}

#[test]
fn blinker_turns_across_the_edge() {
    let grid = grid_with(WIDTH, HEIGHT, &[(78, 0), (0, 0), (1, 0)]);
    let next = grid.advance();
    assert_eq!(alive_cells(&next), vec![(0, 0), (0, 1), (0, 19)]);
}

#[test]
fn update_is_simultaneous_not_in_place() {
    let grid = grid_with(5, 5, &[(1, 2), (2, 2), (3, 2)]);
    let next = grid.advance();
    assert_eq!(alive_cells(&next), vec![(2, 1), (2, 2), (2, 3)]);

    let mut swept = grid_with(5, 5, &[(1, 2), (2, 2), (3, 2)]);
    sweep_in_place(&mut swept);
    assert_ne!(alive_cells(&swept), alive_cells(&next));
}

#[test]
fn three_by_three_grid_with_a_bar_fills_up() {
    let grid = grid_with(3, 3, &[(0, 1), (1, 1), (2, 1)]);
    let next = grid.advance();
    assert_eq!(alive_cells(&next).len(), 9);
}

#[test]
fn block_is_stable() {
    let grid = grid_with(6, 6, &[(2, 2), (3, 2), (2, 3), (3, 3)]);
    for (x, y) in [(2, 2), (3, 2), (2, 3), (3, 3)] {
        assert_eq!(grid.count_alive_neighbors(x, y), 3);
    }
    let next = grid.advance();
    assert_eq!(alive_cells(&next), vec![(2, 2), (3, 2), (2, 3), (3, 3)]);
    assert_eq!(next.render(), grid.render());
}

#[test]
fn block_is_stable_on_the_default_grid() {
    let grid = grid_with(WIDTH, HEIGHT, &[(40, 10), (41, 10), (40, 11), (41, 11)]);
    let mut current = grid.advance();
    for _ in 0..10 {
        assert_eq!(alive_cells(&current), vec![(40, 10), (41, 10), (40, 11), (41, 11)]);
        current = current.advance();
    }
}

#[test]
fn block_is_stable_across_the_corner() {
    let grid = grid_with(WIDTH, HEIGHT, &[(78, 19), (0, 19), (78, 0), (0, 0)]);
    let next = grid.advance();
    assert_eq!(alive_cells(&next), vec![(0, 0), (78, 0), (0, 19), (78, 19)]);
}

#[test]
fn block_is_stable_on_the_smallest_grid_that_holds_it() {
    let grid = grid_with(4, 4, &[(1, 1), (2, 1), (1, 2), (2, 2)]);
    let next = grid.advance();
    assert_eq!(alive_cells(&next), vec![(1, 1), (2, 1), (1, 2), (2, 2)]);
}

#[test]
fn glider_moves_one_cell_in_four_steps() {
    let grid = grid_with(10, 10, &[(2, 1), (3, 2), (1, 3), (2, 3), (3, 3)]);
    let mut current = grid.advance();
    for _ in 0..3 {
        current = current.advance();
    }
    assert_eq!(alive_cells(&current), vec![(3, 2), (4, 3), (2, 4), (3, 4), (4, 4)]);
}
