use game_of_life::engine::Engine;
use game_of_life::grid::Grid;

fn blinker() -> Grid {
    let mut grid = Grid::filled(7, 7, false);
    grid.set(2, 3, true);
    grid.set(3, 3, true);
    grid.set(4, 3, true);
    grid
}

const FLAT: [(usize, usize); 3] = [(2, 3), (3, 3), (4, 3)];
const UPRIGHT: [(usize, usize); 3] = [(3, 2), (3, 3), (3, 4)];

#[test]
fn new_engine_starts_its_clock_at_zero() {
    let engine = Engine::new(blinker(), 100);
    assert_eq!(engine.timer(), 0);
    assert_eq!(engine.interval(), 100);
    assert_eq!(engine.grid().live_cells(), FLAT.to_vec());
}

#[test]
fn tick_below_the_interval_changes_no_cell() {
    let mut engine = Engine::new(blinker(), 100);
    for _ in 0..9 {
        assert!(!engine.tick(10));
        assert_eq!(engine.grid().live_cells(), FLAT.to_vec());
    }
    assert_eq!(engine.timer(), 90);
}

#[test]
fn tick_of_no_time_changes_nothing() {
    let mut engine = Engine::new(blinker(), 100);
    assert!(!engine.tick(0));
    assert_eq!(engine.timer(), 0);
    assert_eq!(engine.grid().live_cells(), FLAT.to_vec());
}

#[test]
fn clock_that_only_reaches_the_interval_does_not_commit() {
    let mut engine = Engine::new(blinker(), 100);
    for _ in 0..10 {
        assert!(!engine.tick(10));
    }
    assert_eq!(engine.timer(), 100);
    assert_eq!(engine.grid().live_cells(), FLAT.to_vec());
}

#[test]
fn first_tick_beyond_the_interval_commits_one_generation() {
    let mut engine = Engine::new(blinker(), 100);
    for _ in 0..10 {
        assert!(!engine.tick(10));
    }
    assert!(engine.tick(1));
    assert_eq!(engine.timer(), 1);
    assert_eq!(engine.grid().live_cells(), UPRIGHT.to_vec());
}

#[test]
fn remainder_is_carried_into_the_next_interval() {
    let mut engine = Engine::new(blinker(), 100);
    assert!(!engine.tick(70));
    assert!(engine.tick(70));
    assert_eq!(engine.timer(), 40);
    assert!(!engine.tick(60));
    assert_eq!(engine.timer(), 100);
    assert!(engine.tick(30));
    assert_eq!(engine.timer(), 30);
    assert_eq!(engine.grid().live_cells(), FLAT.to_vec());
}

#[test]
fn long_tick_commits_one_generation_and_keeps_the_rest() {
    let mut engine = Engine::new(blinker(), 100);
    assert!(engine.tick(350));
    assert_eq!(engine.timer(), 250);
    assert_eq!(engine.grid().live_cells(), UPRIGHT.to_vec());
    assert!(engine.tick(0));
    assert_eq!(engine.timer(), 150);
    assert!(engine.tick(0));
    assert_eq!(engine.timer(), 50);
    assert!(!engine.tick(0));
    assert_eq!(engine.timer(), 50);
    assert_eq!(engine.grid().live_cells(), UPRIGHT.to_vec());
}

#[test]
fn engine_with_no_interval_commits_on_every_tick_of_some_time() {
    let mut engine = Engine::new(blinker(), 0);
    assert!(!engine.tick(0));
    assert!(engine.tick(1));
    assert_eq!(engine.timer(), 1);
    assert!(engine.tick(0));
    assert_eq!(engine.timer(), 1);
}

#[test]
fn clock_can_reach_the_largest_time() {
    let mut engine = Engine::new(blinker(), u64::MAX);
    assert!(!engine.tick(u64::MAX));
    assert_eq!(engine.timer(), u64::MAX);
    assert_eq!(engine.grid().live_cells(), FLAT.to_vec());
}

#[test]
fn time_is_neither_lost_nor_made() {
    let spans = [13u64, 0, 250, 7, 99, 1, 400, 30];
    let interval = 100u64;
    let mut engine = Engine::new(blinker(), interval);
    let mut passed = 0u64;
    let mut commits = 0u64;
    for &span in spans.iter() {
        if engine.tick(span) {
            commits += 1;
        }
        passed += span;
        assert_eq!(engine.timer() + commits * interval, passed);
    }
}

#[test]
fn paint_before_a_due_tick_is_judged_by_that_tick() {
    let mut grid = Grid::filled(8, 8, false);
    grid.set(2, 3, true);
    grid.set(4, 3, true);
    let mut engine = Engine::new(grid, 100);
    assert!(!engine.tick(100));
    engine.paint(3, 3, true);
    assert_eq!(engine.timer(), 100);
    assert!(engine.tick(1));
    assert_eq!(engine.grid().live_cells(), vec![(3, 2), (3, 3), (3, 4)]);
}

#[test]
fn paint_shows_at_once_and_leaves_the_clock_alone() {
    let mut engine = Engine::new(Grid::filled(8, 8, false), 100);
    assert!(!engine.tick(40));
    engine.paint(5, 6, true);
    assert!(engine.grid().get(5, 6));
    assert_eq!(engine.timer(), 40);
    engine.paint(5, 6, false);
    assert!(!engine.grid().get(5, 6));
}

#[test]
fn glider_moves_by_the_clock() {
    let mut grid = Grid::filled(16, 16, false);
    for &(x, y) in [(1, 0), (2, 1), (0, 2), (1, 2), (2, 2)].iter() {
        grid.set(x + 5, y + 5, true);
    }
    let mut engine = Engine::new(grid, 66_666_666);
    let mut commits = 0;
    while commits < 4 {
        if engine.tick(16_666_667) {
            commits += 1;
        }
    }
    assert_eq!(
        engine.grid().live_cells(),
        vec![(7, 6), (8, 7), (6, 8), (7, 8), (8, 8)]
    );
}
