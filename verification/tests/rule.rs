use game_of_life::rule::{judge, Fate, MAX_NEIGHBORS};

fn next_state(alive: bool, neighbors: u8) -> bool {
    match judge(alive, neighbors) {
        Fate::Death => false,
        Fate::Birth => true,
        Fate::Unchanged => alive,
    }
}

#[test]
fn live_cell_with_fewer_than_two_neighbors_dies() {
    for n in 0..=1u8 {
        assert_eq!(judge(true, n), Fate::Death);
        assert!(!next_state(true, n));
    }
}

#[test]
fn live_cell_with_two_or_three_neighbors_lives_on() {
    for n in 2..=3u8 {
        assert_eq!(judge(true, n), Fate::Unchanged);
        assert!(next_state(true, n));
    }
}

#[test]
fn live_cell_with_four_or_more_neighbors_dies() {
    for n in 4..=8u8 {
        assert_eq!(judge(true, n), Fate::Death);
        assert!(!next_state(true, n));
    }
}

#[test]
fn dead_cell_with_three_neighbors_is_born() {
    assert_eq!(judge(false, 3), Fate::Birth);
    assert!(next_state(false, 3));
}

#[test]
fn dead_cell_with_any_other_count_stays_dead() {
    for n in [0u8, 1, 2, 4, 5, 6, 7, 8] {
        assert_eq!(judge(false, n), Fate::Unchanged);
        assert!(!next_state(false, n));
    }
}

#[test]
fn no_death_is_scheduled_for_a_dead_cell_and_no_birth_for_a_live_one() {
    for n in 0..=MAX_NEIGHBORS {
        assert_ne!(judge(false, n), Fate::Death);
        assert_ne!(judge(true, n), Fate::Birth);
    }
}

#[test]
fn a_cell_has_at_most_eight_neighbors() {
    assert_eq!(MAX_NEIGHBORS, 8);
}
