//! Tests of the finite dense grid and the Life-like rules.

use gameofdeath::{CellState, ConwayRule, Grid, HighLifeRule, Rule, SeedsRule};

#[test]
fn blinker_oscillates() {
    let mut g = Grid::new(5, 5);
    g.set(2, 1, CellState::Alive);
    g.set(2, 2, CellState::Alive);
    g.set(2, 3, CellState::Alive);

    g.step(&ConwayRule);
    assert!(!g.is_alive(2, 1));
    assert!(g.is_alive(1, 2));
    assert!(g.is_alive(2, 2));
    assert!(g.is_alive(3, 2));
    assert!(!g.is_alive(2, 3));

    g.step(&ConwayRule);
    assert!(g.is_alive(2, 1));
    assert!(!g.is_alive(1, 2));
    assert!(g.is_alive(2, 2));
    assert!(!g.is_alive(3, 2));
    assert!(g.is_alive(2, 3));
}

#[test]
fn block_is_still_life() {
    let mut g = Grid::new(6, 6);
    g.set(1, 1, CellState::Alive);
    g.set(2, 1, CellState::Alive);
    g.set(1, 2, CellState::Alive);
    g.set(2, 2, CellState::Alive);
    g.step(&ConwayRule);
    assert!(g.is_alive(1, 1));
    assert!(g.is_alive(2, 1));
    assert!(g.is_alive(1, 2));
    assert!(g.is_alive(2, 2));
    assert_eq!(g.live_cell_count(), 4);
}

#[test]
fn lone_cell_dies() {
    let mut g = Grid::new(5, 5);
    g.set(2, 2, CellState::Alive);
    g.step(&ConwayRule);
    assert!(!g.is_alive(2, 2));
    assert_eq!(g.live_cell_count(), 0);
}

#[test]
fn set_and_read_back() {
    let mut g = Grid::new(4, 3);
    assert_eq!(g.cols(), 4);
    assert_eq!(g.rows(), 3);
    assert!(!g.is_alive(1, 1));
    g.set(1, 1, CellState::Alive);
    assert!(g.is_alive(1, 1));
    g.set(1, 1, CellState::Dead);
    assert!(!g.is_alive(1, 1));
    g.set(9, 9, CellState::Alive);
    assert!(!g.is_alive(9, 9));
}

#[test]
fn rule_next_matches_neighbour_counts() {
    let mut g = Grid::new(5, 5);
    g.set(1, 1, CellState::Alive);
    g.set(2, 1, CellState::Alive);
    g.set(3, 1, CellState::Alive);
    assert_eq!(ConwayRule.next(&g, 2, 2), CellState::Alive);
    assert_eq!(ConwayRule.next(&g, 2, 1), CellState::Alive);
    assert_eq!(ConwayRule.next(&g, 1, 1), CellState::Dead);
    // Seeds births on exactly two neighbours and never survives.
    assert_eq!(SeedsRule.next(&g, 1, 2), CellState::Alive);
    assert_eq!(SeedsRule.next(&g, 2, 2), CellState::Dead);
    assert_eq!(SeedsRule.next(&g, 2, 1), CellState::Dead);
    assert_eq!(HighLifeRule.next(&g, 2, 2), CellState::Alive);
}

#[test]
fn seeds_never_survives() {
    let mut g = Grid::new(6, 6);
    g.set(2, 2, CellState::Alive);
    g.set(3, 2, CellState::Alive);
    g.step(&SeedsRule);
    assert!(!g.is_alive(2, 2));
    assert!(!g.is_alive(3, 2));
    assert!(g.is_alive(2, 1));
    assert!(g.is_alive(3, 1));
    assert!(g.is_alive(2, 3));
    assert!(g.is_alive(3, 3));
}

#[test]
fn cell_state_predicates() {
    assert!(CellState::Alive.is_alive());
    assert!(CellState::Dying.is_alive());
    assert!(CellState::ElectronHead.is_alive());
    assert!(!CellState::Dead.is_alive());
    assert!(!CellState::Wire.is_alive());
    assert!(!CellState::ElectronTail.is_alive());
    assert!(CellState::ElectronHead.is_electron());
    assert!(CellState::ElectronTail.is_electron());
    assert!(!CellState::Alive.is_electron());
    assert!(CellState::SpeciesA.is_species());
    assert!(CellState::SpeciesB.is_species());
    assert!(!CellState::Alive.is_species());
    assert_eq!(CellState::default(), CellState::Dead);
}
