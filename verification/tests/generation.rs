use game_of_life::grid::Grid;

fn seeded(width: usize, height: usize, live: &[(usize, usize)]) -> Grid {
    let mut grid = Grid::filled(width, height, false);
    for &(x, y) in live {
        grid.set(x, y, true);
    }
    grid
}

fn sorted(cells: &Vec<(usize, usize)>) -> Vec<(usize, usize)> {
    let mut cells = cells.clone();
    cells.sort();
    cells
}

const GLIDER: [(usize, usize); 5] = [(1, 0), (2, 1), (0, 2), (1, 2), (2, 2)];

fn glider_at(ox: usize, oy: usize, width: usize, height: usize) -> Vec<(usize, usize)> {
    let mut cells: Vec<(usize, usize)> =
        GLIDER.iter().map(|&(x, y)| ((x + ox) % width, (y + oy) % height)).collect();
    cells.sort_by_key(|&(x, y)| (y, x));
    cells
}

#[test]
fn lone_cell_dies_and_nothing_is_born() {
    let mut grid = seeded(9, 9, &[(4, 4)]);
    let changes = grid.scan();
    assert_eq!(changes.deaths(), &vec![(4, 4)]);
    assert!(changes.births().is_empty());
    grid.advance();
    assert!(grid.live_cells().is_empty());
}

#[test]
fn lone_cell_in_a_corner_dies_too() {
    let mut grid = seeded(3, 3, &[(0, 0)]);
    grid.advance();
    assert!(grid.live_cells().is_empty());
}

#[test]
fn empty_grid_stays_empty() {
    let mut grid = Grid::filled(6, 5, false);
    let changes = grid.scan();
    assert!(changes.deaths().is_empty());
    assert!(changes.births().is_empty());
    grid.advance();
    assert!(grid.live_cells().is_empty());
}

#[test]
fn full_grid_dies_of_crowding() {
    let mut grid = Grid::filled(6, 5, true);
    grid.advance();
    assert!(grid.live_cells().is_empty());
}

#[test]
fn block_is_still() {
    let block = [(2, 2), (3, 2), (2, 3), (3, 3)];
    let mut grid = seeded(8, 8, &block);
    let changes = grid.scan();
    assert!(changes.deaths().is_empty());
    assert!(changes.births().is_empty());
    grid.advance();
    assert_eq!(grid.live_cells(), vec![(2, 2), (3, 2), (2, 3), (3, 3)]);
}

#[test]
fn scan_schedules_the_turn_of_a_blinker() {
    let grid = seeded(7, 7, &[(2, 3), (3, 3), (4, 3)]);
    let changes = grid.scan();
    assert_eq!(sorted(changes.deaths()), vec![(2, 3), (4, 3)]);
    assert_eq!(sorted(changes.births()), vec![(3, 2), (3, 4)]);
}

#[test]
fn scan_leaves_the_grid_as_it_is() {
    let grid = seeded(7, 7, &[(2, 3), (3, 3), (4, 3)]);
    let _ = grid.scan();
    assert_eq!(grid.live_cells(), vec![(2, 3), (3, 3), (4, 3)]);
}

#[test]
fn blinker_turns_and_turns_back() {
    let mut grid = seeded(7, 7, &[(2, 3), (3, 3), (4, 3)]);
    grid.advance();
    assert_eq!(grid.live_cells(), vec![(3, 2), (3, 3), (3, 4)]);
    grid.advance();
    assert_eq!(grid.live_cells(), vec![(2, 3), (3, 3), (4, 3)]);
}

#[test]
fn blinker_turns_across_the_edge() {
    let mut grid = seeded(7, 7, &[(6, 0), (0, 0), (1, 0)]);
    grid.advance();
    assert_eq!(grid.live_cells(), vec![(0, 0), (0, 1), (0, 6)]);
    grid.advance();
    assert_eq!(grid.live_cells(), vec![(0, 0), (1, 0), (6, 0)]);
}

#[test]
fn commit_applies_what_the_scan_scheduled() {
    let mut grid = seeded(7, 7, &[(2, 3), (3, 3), (4, 3)]);
    let changes = grid.scan();
    grid.commit(changes);
    assert_eq!(grid.live_cells(), vec![(3, 2), (3, 3), (3, 4)]);
}

#[test]
fn commit_applies_changes_scheduled_on_another_grid() {
    let source = seeded(7, 7, &[(2, 3), (3, 3), (4, 3)]);
    let changes = source.scan();
    let mut grid = seeded(7, 7, &[(0, 0), (2, 3)]);
    grid.commit(changes);
    assert_eq!(grid.live_cells(), vec![(0, 0), (3, 2), (3, 4)]);
}

#[test]
fn glider_moves_one_cell_down_and_right_in_four_generations() {
    let mut grid = seeded(16, 16, &glider_at(3, 3, 16, 16));
    for _ in 0..4 {
        grid.advance();
    }
    assert_eq!(grid.live_cells(), glider_at(4, 4, 16, 16));
}

#[test]
fn glider_passes_through_its_four_phases() {
    let mut grid = seeded(16, 16, &GLIDER);
    grid.advance();
    assert_eq!(grid.live_cells(), vec![(0, 1), (2, 1), (1, 2), (2, 2), (1, 3)]);
    grid.advance();
    assert_eq!(grid.live_cells(), vec![(2, 1), (0, 2), (2, 2), (1, 3), (2, 3)]);
    grid.advance();
    assert_eq!(grid.live_cells(), vec![(1, 1), (2, 2), (3, 2), (1, 3), (2, 3)]);
    grid.advance();
    assert_eq!(grid.live_cells(), vec![(2, 1), (3, 2), (1, 3), (2, 3), (3, 3)]);
}

#[test]
fn glider_keeps_moving() {
    let mut grid = seeded(20, 20, &glider_at(1, 1, 20, 20));
    for _ in 0..(4 * 10) {
        grid.advance();
    }
    assert_eq!(grid.live_cells(), glider_at(11, 11, 20, 20));
}

#[test]
fn glider_crosses_the_edges_of_the_grid() {
    let (w, h) = (10, 8);
    let mut grid = seeded(w, h, &glider_at(6, 4, w, h));
    for step in 1..=12 {
        for _ in 0..4 {
            grid.advance();
        }
        assert_eq!(grid.live_cells(), glider_at(6 + step, 4 + step, w, h));
    }
}

#[test]
fn painted_cell_counts_in_the_next_generation() {
    let mut grid = seeded(8, 8, &[(2, 3), (4, 3)]);
    let mut unpainted = seeded(8, 8, &[(2, 3), (4, 3)]);
    grid.paint(3, 3, true);
    assert_eq!(grid.count_alive_neighbors(3, 2), 3);
    assert_eq!(grid.count_alive_neighbors(3, 4), 3);
    grid.advance();
    unpainted.advance();
    assert_eq!(grid.live_cells(), vec![(3, 2), (3, 3), (3, 4)]);
    assert!(unpainted.live_cells().is_empty());
}

#[test]
fn painted_cell_is_counted_by_all_eight_neighbors() {
    let mut grid = Grid::filled(8, 8, false);
    grid.paint(0, 7, true);
    let around = [(7, 6), (0, 6), (1, 6), (7, 7), (1, 7), (7, 0), (0, 0), (1, 0)];
    for &(x, y) in around.iter() {
        assert_eq!(grid.count_alive_neighbors(x, y), 1);
    }
}

#[test]
fn glider_travels_on_the_smallest_torus_from_every_corner() {
    let (w, h) = (5, 5);
    for oy in 0..h {
        for ox in 0..w {
            let mut grid = seeded(w, h, &glider_at(ox, oy, w, h));
            for _ in 0..4 {
                grid.advance();
            }
            assert_eq!(grid.live_cells(), glider_at(ox + 1, oy + 1, w, h));
        }
    }
}

#[test]
fn lone_cell_on_a_low_grid_meets_itself_and_lives() {
    let mut grid = seeded(3, 1, &[(1, 0)]);
    assert_eq!(grid.count_alive_neighbors(1, 0), 2);
    grid.advance();
    assert!(grid.get(1, 0));
}
