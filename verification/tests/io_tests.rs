//! Tests of the pattern loaders.

use gameofdeath::io::lif::{load_lif_into_grid, LifError};
use gameofdeath::io::{load_rle_into_grid, PatternError};
use gameofdeath::{CellState, ConwayRule, Grid};

#[test]
fn rle_glider_loads() {
    let mut g = Grid::new(10, 10);
    let rle = "#C a glider\nx = 3, y = 3, rule = B3/S23\nbob$2bo$3o!";
    assert!(load_rle_into_grid(&mut g, rle, 1, 1).is_ok());
    assert!(g.is_alive(2, 1));
    assert!(g.is_alive(3, 2));
    assert!(g.is_alive(1, 3));
    assert!(g.is_alive(2, 3));
    assert!(g.is_alive(3, 3));
    assert_eq!(g.live_cell_count(), 5);
    // The loaded glider is a working pattern.
    g.step(&ConwayRule);
    assert_eq!(g.live_cell_count(), 5);
}

#[test]
fn rle_run_counts_expand() {
    let mut g = Grid::new(10, 2);
    assert!(load_rle_into_grid(&mut g, "5o!", 0, 0).is_ok());
    for x in 0..5 {
        assert!(g.is_alive(x, 0));
    }
    assert!(!g.is_alive(5, 0));
    assert_eq!(g.live_cell_count(), 5);
}

#[test]
fn rle_rejects_bad_input() {
    let mut g = Grid::new(5, 5);
    assert_eq!(load_rle_into_grid(&mut g, "q!", 0, 0), Err(PatternError::InvalidChar));
    let mut g = Grid::new(5, 5);
    assert_eq!(load_rle_into_grid(&mut g, "0o!", 0, 0), Err(PatternError::InvalidRun));
    let mut g = Grid::new(5, 5);
    assert_eq!(load_rle_into_grid(&mut g, "3", 0, 0), Err(PatternError::InvalidRun));
    let mut g = Grid::new(3, 3);
    assert_eq!(load_rle_into_grid(&mut g, "5o!", 0, 0), Err(PatternError::OutOfBounds));
    // Cells written before the failure stay alive; nothing is cleared.
    assert!(g.is_alive(0, 0));
    assert!(g.is_alive(1, 0));
    assert!(g.is_alive(2, 0));
}

#[test]
fn lif_rows_load_with_cursor() {
    let mut g = Grid::new(10, 10);
    let lif = "#Life 1.05\n#D a small pattern\n#P 2 3\n.*.\n***\n";
    assert!(load_lif_into_grid(&mut g, lif, 1, 1).is_ok());
    assert!(g.is_alive(4, 4));
    assert!(g.is_alive(3, 5));
    assert!(g.is_alive(4, 5));
    assert!(g.is_alive(5, 5));
    assert_eq!(g.live_cell_count(), 4);
}

#[test]
fn lif_rejects_bad_input() {
    let mut g = Grid::new(4, 4);
    assert_eq!(load_lif_into_grid(&mut g, "*x*\n", 0, 0), Err(LifError::BadChar));
    let mut g = Grid::new(2, 2);
    assert_eq!(load_lif_into_grid(&mut g, "***\n", 0, 0), Err(LifError::OutOfBounds));
    let mut g = Grid::new(4, 4);
    assert_eq!(load_lif_into_grid(&mut g, "#P -9 0\n*\n", 0, 0), Err(LifError::OutOfBounds));
}

#[test]
fn error_messages_describe_failures() {
    assert_eq!(PatternError::InvalidRun.message(), "run-length overflow or zero");
    assert_eq!(LifError::BadChar.message(), "invalid character in .lif file");
}
