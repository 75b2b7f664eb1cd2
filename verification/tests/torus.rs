use game_of_life::{CellState, Grid, HEIGHT, WIDTH};

#[test]
fn default_size_is_79_by_20() {
    assert_eq!(WIDTH, 79);
    assert_eq!(HEIGHT, 20);
}

#[test]
fn corner_wraps_to_the_opposite_corner() {
    let grid = Grid::new(WIDTH, HEIGHT);
    let around = grid.neighbors_of(0, 0);
    assert!(around.contains(&(WIDTH - 1, HEIGHT - 1)));
    for (x, y) in around {
        assert!(x < WIDTH);
        assert!(y < HEIGHT);
    }
}

#[test]
fn neighbors_of_the_upper_left_corner() {
    let grid = Grid::new(79, 20);
    assert_eq!(
        grid.neighbors_of(0, 0),
        [(78, 19), (0, 19), (1, 19), (78, 0), (1, 0), (78, 1), (0, 1), (1, 1)]
    );
}

#[test]
fn neighbors_of_the_lower_right_corner() {
    let grid = Grid::new(79, 20);
    assert_eq!(
        grid.neighbors_of(78, 19),
        [(77, 18), (78, 18), (0, 18), (77, 19), (0, 19), (77, 0), (78, 0), (0, 0)]
    );
}

#[test]
fn neighbors_of_an_inner_cell() {
    let grid = Grid::new(79, 20);
    assert_eq!(
        grid.neighbors_of(10, 5),
        [(9, 4), (10, 4), (11, 4), (9, 5), (11, 5), (9, 6), (10, 6), (11, 6)]
    );
}

#[test]
fn neighbors_on_the_left_and_upper_edges() {
    let grid = Grid::new(79, 20);
    assert_eq!(
        grid.neighbors_of(0, 7),
        [(78, 6), (0, 6), (1, 6), (78, 7), (1, 7), (78, 8), (0, 8), (1, 8)]
    );
    assert_eq!(
        grid.neighbors_of(7, 0),
        [(6, 19), (7, 19), (8, 19), (6, 0), (8, 0), (6, 1), (7, 1), (8, 1)]
    );
}

#[test]
fn every_neighbor_lies_in_the_grid() {
    let grid = Grid::new(7, 4);
    for y in 0..4 {
        for x in 0..7 {
            for (nx, ny) in grid.neighbors_of(x, y) {
                assert!(nx < 7);
                assert!(ny < 4);
            }
        }
    }
}

#[test]
fn single_cell_grid_is_its_own_neighbor_eight_times() {
    let mut grid = Grid::new(1, 1);
    assert_eq!(grid.neighbors_of(0, 0), [(0, 0); 8]);
    assert_eq!(grid.count_alive_neighbors(0, 0), 0);
    grid.set(0, 0, CellState::ALIVE);
    assert_eq!(grid.count_alive_neighbors(0, 0), 8);
}

#[test]
fn count_sees_a_live_cell_across_the_edge() {
    let mut grid = Grid::new(79, 20);
    grid.set(78, 19, CellState::ALIVE);
    assert_eq!(grid.count_alive_neighbors(0, 0), 1);
    assert_eq!(grid.count_alive_neighbors(78, 0), 1);
    assert_eq!(grid.count_alive_neighbors(0, 19), 1);
    assert_eq!(grid.count_alive_neighbors(77, 18), 1);
    assert_eq!(grid.count_alive_neighbors(78, 19), 0);
    assert_eq!(grid.count_alive_neighbors(1, 1), 0);
}

#[test]
fn count_is_zero_on_a_dead_grid() {
    let grid = Grid::new(6, 5);
    for y in 0..5 {
        for x in 0..6 {
            assert_eq!(grid.count_alive_neighbors(x, y), 0);
        }
    }
}

#[test]
fn count_is_eight_on_a_full_grid() {
    let mut grid = Grid::new(6, 5);
    for y in 0..5 {
        for x in 0..6 {
            grid.set(x, y, CellState::ALIVE);
        }
    }
    for y in 0..5 {
        for x in 0..6 {
            assert_eq!(grid.count_alive_neighbors(x, y), 8);
        }
    }
}

#[test]
fn count_leaves_the_cell_itself_out() {
    let mut grid = Grid::new(5, 5);
    grid.set(2, 2, CellState::ALIVE);
    assert_eq!(grid.count_alive_neighbors(2, 2), 0);
    for (x, y) in grid.neighbors_of(2, 2) {
        assert_eq!(grid.count_alive_neighbors(x, y), 1);
    }
}

#[test]
fn new_grid_is_dead_everywhere() {
    let grid = Grid::new(4, 3);
    assert_eq!(grid.width(), 4);
    assert_eq!(grid.height(), 3);
    for y in 0..3 {
        for x in 0..4 {
            assert_eq!(grid.get(x, y), CellState::DEAD);
        }
    }
}

#[test]
fn set_changes_one_cell_only() {
    let mut grid = Grid::new(4, 3);
    grid.set(3, 1, CellState::ALIVE);
    for y in 0..3 {
        for x in 0..4 {
            let expected = if (x, y) == (3, 1) { CellState::ALIVE } else { CellState::DEAD };
            assert_eq!(grid.get(x, y), expected);
        }
    }
    grid.set(3, 1, CellState::DEAD);
    assert_eq!(grid.get(3, 1), CellState::DEAD);
}

#[test]
fn empty_grid_has_no_cells() {
    let grid = Grid::new(0, 5);
    assert_eq!(grid.width(), 0);
    assert_eq!(grid.height(), 5);
    assert_eq!(grid.render(), "\n\n\n\n\n");
    let next = grid.advance();
    assert_eq!(next.width(), 0);
    assert_eq!(next.height(), 5);
}
