//! Tests of the sparse infinite grid and its rules.

use gameofdeath::infinite_grid::patterns;
use gameofdeath::infinite_grid::InfiniteGrid;
use gameofdeath::start_screen::RuleType;
use gameofdeath::CellState;

#[test]
fn infinite_blinker_oscillates() {
    let mut g = InfiniteGrid::new();
    g.set_alive(0, 0);
    g.set_alive(0, 1);
    g.set_alive(0, 2);
    g.step_conway();
    assert!(g.is_alive(-1, 1));
    assert!(g.is_alive(0, 1));
    assert!(g.is_alive(1, 1));
    assert!(!g.is_alive(0, 0));
    assert!(!g.is_alive(0, 2));
    assert_eq!(g.population(), 3);
    g.step_conway();
    assert!(g.is_alive(0, 0));
    assert!(g.is_alive(0, 1));
    assert!(g.is_alive(0, 2));
    assert_eq!(g.population(), 3);
}

#[test]
fn glider_moves() {
    let mut g = InfiniteGrid::new();
    g.insert_pattern(&patterns::glider(), 10, 10);
    assert_eq!(g.population(), 5);
    for _ in 0..4 {
        g.step_conway();
    }
    // After four generations a glider is translated one cell diagonally.
    assert_eq!(g.population(), 5);
    assert!(g.is_alive(12, 11));
    assert!(g.is_alive(13, 12));
    assert!(g.is_alive(11, 13));
    assert!(g.is_alive(12, 13));
    assert!(g.is_alive(13, 13));
}

#[test]
fn set_get_and_version() {
    let mut g = InfiniteGrid::new();
    assert_eq!(g.version(), 0);
    assert_eq!(g.get(5, 5), CellState::Dead);
    g.set(5, 5, CellState::Wire);
    assert_eq!(g.get(5, 5), CellState::Wire);
    assert!(!g.is_alive(5, 5));
    assert_eq!(g.version(), 1);
    g.set(5, 5, CellState::Dead);
    assert_eq!(g.get(5, 5), CellState::Dead);
    assert_eq!(g.version(), 2);
    assert_eq!(g.live_cell_count(), 0);
}

#[test]
fn bounds_track_extremes() {
    let mut g = InfiniteGrid::new();
    assert!(g.bounds().is_none());
    g.set_alive(-3, 7);
    g.set_alive(10, -2);
    let b = g.bounds().as_ref().unwrap();
    assert_eq!(b.min_x, -3);
    assert_eq!(b.max_x, 10);
    assert_eq!(b.min_y, -2);
    assert_eq!(b.max_y, 7);
}

#[test]
fn clear_empties_everything() {
    let mut g = InfiniteGrid::new();
    g.insert_pattern(&patterns::block(), 0, 0);
    assert_eq!(g.population(), 4);
    g.clear();
    assert_eq!(g.population(), 0);
    assert!(!g.is_alive(0, 0));
    assert!(g.bounds().is_none());
}

#[test]
fn snapshot_matches_population() {
    let mut g = InfiniteGrid::new();
    g.insert_pattern(&patterns::blinker(), 2, 3);
    let snap = g.get_alive_cells_snapshot();
    assert_eq!(snap.len(), 3);
    assert!(snap.contains(&(2, 3)));
    assert!(snap.contains(&(3, 3)));
    assert!(snap.contains(&(4, 3)));
    assert_eq!(g.get_alive_cells().len(), 3);
    assert_eq!(g.alive_cells_count(), 3);
}

#[test]
fn cells_in_region_filters() {
    let mut g = InfiniteGrid::new();
    g.set_alive(0, 0);
    g.set_alive(5, 5);
    g.set_alive(20, 20);
    let inside = g.cells_in_region(0, 10, 0, 10);
    assert_eq!(inside.len(), 2);
    assert!(inside.contains(&(0, 0)));
    assert!(inside.contains(&(5, 5)));
}

#[test]
fn brian_brain_cycles_states() {
    let mut g = InfiniteGrid::new();
    // Two firing cells next to a dead cell make it fire; firing cells
    // become refractory.
    g.set(0, 0, CellState::Alive);
    g.set(2, 0, CellState::Alive);
    g.step_brian_brain();
    assert_eq!(g.get(1, 0), CellState::Alive);
    assert_eq!(g.get(0, 0), CellState::Dying);
    assert_eq!(g.get(2, 0), CellState::Dying);
    g.step_brian_brain();
    assert_eq!(g.get(0, 0), CellState::Dead);
    assert_eq!(g.get(1, 0), CellState::Dying);
}

#[test]
fn wireworld_conducts() {
    let mut g = InfiniteGrid::new();
    g.set(0, 0, CellState::ElectronHead);
    g.set(1, 0, CellState::Wire);
    g.set(2, 0, CellState::Wire);
    g.step_wireworld();
    assert_eq!(g.get(0, 0), CellState::ElectronTail);
    assert_eq!(g.get(1, 0), CellState::ElectronHead);
    assert_eq!(g.get(2, 0), CellState::Wire);
    g.step_wireworld();
    assert_eq!(g.get(0, 0), CellState::Wire);
    assert_eq!(g.get(1, 0), CellState::ElectronTail);
    assert_eq!(g.get(2, 0), CellState::ElectronHead);
}

#[test]
fn immigration_keeps_species() {
    let mut g = InfiniteGrid::new();
    // A block of species A survives as species A.
    g.set(0, 0, CellState::SpeciesA);
    g.set(1, 0, CellState::SpeciesA);
    g.set(0, 1, CellState::SpeciesA);
    g.set(1, 1, CellState::SpeciesB);
    g.step_immigration();
    assert_eq!(g.get(0, 0), CellState::SpeciesA);
    assert_eq!(g.get(1, 1), CellState::SpeciesB);
}

#[test]
fn update_dispatches_by_rule() {
    let mut g = InfiniteGrid::new();
    g.set_alive(0, 0);
    g.set_alive(1, 0);
    g.update(RuleType::Seeds);
    // Seeds: both parents die, the two cells with exactly two neighbours
    // are born.
    assert!(!g.is_alive(0, 0));
    assert!(!g.is_alive(1, 0));
    assert!(g.is_alive(0, -1));
    assert!(g.is_alive(1, -1));
    assert!(g.is_alive(0, 1));
    assert!(g.is_alive(1, 1));
}

#[test]
fn gnarl_and_replicator_grow() {
    let mut g = InfiniteGrid::new();
    g.set_alive(0, 0);
    g.update(RuleType::Gnarl);
    // A lone cell has no live neighbour, so it dies; each of its eight
    // neighbours has exactly one and is born.
    assert!(!g.is_alive(0, 0));
    assert_eq!(g.population(), 8);

    let mut r = InfiniteGrid::new();
    r.set_alive(0, 0);
    r.update(RuleType::Replicator);
    assert_eq!(r.population(), 8);
}

#[test]
fn count_neighbors_counts_live_cells() {
    let mut g = InfiniteGrid::new();
    g.set_alive(0, 0);
    g.set_alive(1, 1);
    g.set(2, 2, CellState::Wire);
    assert_eq!(g.count_neighbors(1, 0), 2);
    assert_eq!(g.count_neighbors(0, 0), 1);
    // Wire is stored but not alive.
    assert_eq!(g.count_neighbors(1, 2), 1);
}

#[test]
fn rule_type_catalogue() {
    let all = RuleType::all();
    assert_eq!(all.len(), 10);
    assert_eq!(all[0], RuleType::Conway);
    assert_eq!(RuleType::Conway.name(), "Conway's Life");
    assert_eq!(RuleType::Seeds.description(), "B2/S0 - No survival, birth on 2");
    assert_eq!(RuleType::default(), RuleType::Conway);
}
