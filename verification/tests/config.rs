use game_of_life::config::{Config, DEFAULT_HEIGHT, DEFAULT_INTERVAL, DEFAULT_WIDTH};

#[test]
fn default_config_is_the_customary_one() {
    let config = Config::default();
    assert_eq!(config.width, 128);
    assert_eq!(config.height, 72);
    assert_eq!(config.fill_numerator, 1);
    assert_eq!(config.fill_denominator, 2);
    assert_eq!(config.interval, 66_666_666);
    assert_eq!((DEFAULT_WIDTH, DEFAULT_HEIGHT, DEFAULT_INTERVAL), (128, 72, 66_666_666));
    assert!(config.is_valid());
}

#[test]
fn default_interval_is_a_fifteenth_of_a_second() {
    assert_eq!(DEFAULT_INTERVAL, 1_000_000_000 / 15);
}

#[test]
fn build_makes_the_engine_described() {
    let engine = Config::default().build().unwrap();
    assert_eq!(engine.grid().width(), 128);
    assert_eq!(engine.grid().height(), 72);
    assert_eq!(engine.interval(), 66_666_666);
    assert_eq!(engine.timer(), 0);
}

#[test]
fn build_with_chance_zero_seeds_no_cell() {
    let config = Config { fill_numerator: 0, ..Config::default() };
    let engine = config.build().unwrap();
    assert!(engine.grid().live_cells().is_empty());
}

#[test]
fn build_with_chance_one_seeds_every_cell() {
    let config = Config { width: 5, height: 4, fill_numerator: 3, fill_denominator: 3, interval: 1 };
    let engine = config.build().unwrap();
    assert_eq!(engine.grid().live_cells().len(), 20);
}

#[test]
fn config_without_cells_is_not_valid() {
    assert!(!Config { width: 0, ..Config::default() }.is_valid());
    assert!(!Config { height: 0, ..Config::default() }.is_valid());
    assert!(Config { width: 0, ..Config::default() }.build().is_none());
    assert!(Config { height: 0, ..Config::default() }.build().is_none());
}

#[test]
fn config_with_too_many_cells_is_not_valid() {
    let config = Config { width: usize::MAX, height: 2, ..Config::default() };
    assert!(!config.is_valid());
    assert!(config.build().is_none());
}

#[test]
fn config_with_a_chance_above_one_is_not_valid() {
    let config = Config { fill_numerator: 3, fill_denominator: 2, ..Config::default() };
    assert!(!config.is_valid());
    assert!(config.build().is_none());
}

#[test]
fn config_with_a_zero_denominator_is_not_valid() {
    let config = Config { fill_numerator: 0, fill_denominator: 0, ..Config::default() };
    assert!(!config.is_valid());
    assert!(config.build().is_none());
}
