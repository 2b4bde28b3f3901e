//! Behavioral tests of the Game of Life engine.

use game_of_life::cell::Cell;
use game_of_life::universe::Universe;

fn cell_at(u: &Universe, row: u32, col: u32) -> Cell {
    u.cells()[(row * u.width() + col) as usize]
}

fn count_alive(u: &Universe) -> usize {
    u.cells().iter().filter(|c| **c == Cell::Alive).count()
}

fn dims_consistent(u: &Universe) -> bool {
    u.cells().len() == (u.width() as usize) * (u.height() as usize)
}

/// An empty grid of the given dimensions.
fn empty_grid(width: u32, height: u32) -> Universe {
    let mut u = Universe::new();
    u.set_width(width);
    u.set_height(height);
    u
}

#[test]
fn new_seed_determinism() {
    let u = Universe::new();
    assert_eq!(u.width(), 64);
    assert_eq!(u.height(), 64);
    assert_eq!(u.cells().len(), 64 * 64);
    assert_eq!(u.cells()[0], Cell::Alive);
    assert_eq!(u.cells()[1], Cell::Dead);
    assert_eq!(u.cells()[7], Cell::Alive);
    for i in 0..u.cells().len() {
        let expected = if i % 2 == 0 || i % 7 == 0 {
            Cell::Alive
        } else {
            Cell::Dead
        };
        assert_eq!(u.cells()[i], expected, "seed mismatch at index {}", i);
    }
}

#[test]
fn dimension_invariant_after_each_operation() {
    let mut u = Universe::new();
    assert!(dims_consistent(&u));
    u.set_width(10);
    assert!(dims_consistent(&u));
    assert_eq!(u.width(), 10);
    assert_eq!(u.height(), 64);
    u.set_height(7);
    assert!(dims_consistent(&u));
    assert_eq!(u.height(), 7);
    u.toggle_cell(3, 4);
    assert!(dims_consistent(&u));
    u.set_pattern("glider", 1, 1);
    assert!(dims_consistent(&u));
    u.tick();
    assert!(dims_consistent(&u));
    let draws = vec![true; u.cells().len()];
    u.randomize(&draws);
    assert!(dims_consistent(&u));
    u.clear();
    assert!(dims_consistent(&u));
}

#[test]
fn set_width_and_set_height_reset_cells_to_dead() {
    let mut u = Universe::new();
    assert!(count_alive(&u) > 0);
    u.set_width(12);
    assert_eq!(u.width(), 12);
    assert_eq!(u.height(), 64);
    assert_eq!(count_alive(&u), 0);
    u.set_pattern("glider", 0, 0);
    assert!(count_alive(&u) > 0);
    u.set_height(9);
    assert_eq!(u.width(), 12);
    assert_eq!(u.height(), 9);
    assert_eq!(count_alive(&u), 0);
}

#[test]
fn clear_kills_every_cell() {
    let mut u = Universe::new();
    assert!(count_alive(&u) > 0);
    u.clear();
    assert_eq!(u.width(), 64);
    assert_eq!(u.height(), 64);
    assert_eq!(count_alive(&u), 0);
}

#[test]
fn toggle_cell_flips_and_restores() {
    let mut u = empty_grid(8, 8);
    assert_eq!(cell_at(&u, 2, 5), Cell::Dead);
    u.toggle_cell(2, 5);
    assert_eq!(cell_at(&u, 2, 5), Cell::Alive);
    assert_eq!(count_alive(&u), 1);
    u.toggle_cell(2, 5);
    assert_eq!(cell_at(&u, 2, 5), Cell::Dead);
    assert_eq!(count_alive(&u), 0);
}

#[test]
fn toroidal_wraparound_neighbor() {
    // Cells in the last row and last column are neighbors of (0, 0): with
    // live cells at (3, 3), (3, 0) and (0, 3) on a 4x4 torus, the dead cell
    // (0, 0) has exactly three live neighbors and becomes alive.
    let mut u = empty_grid(4, 4);
    u.toggle_cell(3, 3);
    u.toggle_cell(3, 0);
    u.toggle_cell(0, 3);
    u.tick();
    assert_eq!(cell_at(&u, 0, 0), Cell::Alive);
}

#[test]
fn isolated_live_cell_dies() {
    let mut u = empty_grid(16, 16);
    u.toggle_cell(5, 5);
    u.tick();
    assert_eq!(count_alive(&u), 0);
}

#[test]
fn block_still_life_is_stable() {
    let mut u = empty_grid(8, 8);
    u.toggle_cell(1, 1);
    u.toggle_cell(1, 2);
    u.toggle_cell(2, 1);
    u.toggle_cell(2, 2);
    let before = u.cells().clone();
    u.tick();
    assert_eq!(u.cells(), &before);
    u.tick();
    assert_eq!(u.cells(), &before);
}

#[test]
fn blinker_oscillates_with_period_two() {
    let mut u = empty_grid(8, 8);
    u.toggle_cell(2, 1);
    u.toggle_cell(2, 2);
    u.toggle_cell(2, 3);
    let horizontal = u.cells().clone();
    u.tick();
    assert_eq!(count_alive(&u), 3);
    assert_eq!(cell_at(&u, 1, 2), Cell::Alive);
    assert_eq!(cell_at(&u, 2, 2), Cell::Alive);
    assert_eq!(cell_at(&u, 3, 2), Cell::Alive);
    u.tick();
    assert_eq!(u.cells(), &horizontal);
}

const GLIDER: [(u32, u32); 5] = [(0, 1), (1, 2), (2, 0), (2, 1), (2, 2)];

#[test]
fn glider_translates_diagonally_in_four_ticks() {
    let mut u = empty_grid(64, 64);
    assert!(u.set_pattern("glider", 0, 0));
    for _ in 0..4 {
        u.tick();
    }
    // After four generations the glider reappears translated by (1, 1).
    assert_eq!(count_alive(&u), 5);
    for &(dr, dc) in GLIDER.iter() {
        assert_eq!(cell_at(&u, dr + 1, dc + 1), Cell::Alive);
    }
}

#[test]
fn glider_stamp_matches_offset_table() {
    let mut u = empty_grid(10, 10);
    assert!(u.set_pattern("glider", 0, 0));
    assert_eq!(count_alive(&u), 5);
    for &(dr, dc) in GLIDER.iter() {
        assert_eq!(cell_at(&u, dr, dc), Cell::Alive);
    }
}

#[test]
fn pattern_stamp_wraps_at_edges() {
    // Anchored in the last row and column of a 5x5 torus, the glider's
    // offsets wrap back to the first rows and columns.
    let mut u = empty_grid(5, 5);
    assert!(u.set_pattern("glider", 4, 4));
    assert_eq!(count_alive(&u), 5);
    for &(dr, dc) in GLIDER.iter() {
        assert_eq!(cell_at(&u, (4 + dr) % 5, (4 + dc) % 5), Cell::Alive);
    }
}

#[test]
fn pulsar_and_gun_stamp_counts() {
    let mut u = empty_grid(40, 40);
    assert!(u.set_pattern("pulsar", 2, 2));
    assert_eq!(count_alive(&u), 48);
    u.clear();
    assert!(u.set_pattern("gosper_glider_gun", 1, 1));
    assert_eq!(count_alive(&u), 36);
}

#[test]
fn pattern_overlay_clears_footprint() {
    // (0, 0) and (1, 1) lie inside the glider's 3x3 bounding box but not in
    // its offset table: stamping must clear them even if previously alive.
    let mut u = empty_grid(12, 12);
    u.toggle_cell(0, 0);
    u.toggle_cell(1, 1);
    // A cell outside the bounding box keeps its state.
    u.toggle_cell(8, 8);
    assert!(u.set_pattern("glider", 0, 0));
    assert_eq!(cell_at(&u, 0, 0), Cell::Dead);
    assert_eq!(cell_at(&u, 1, 1), Cell::Dead);
    assert_eq!(cell_at(&u, 8, 8), Cell::Alive);
}

#[test]
fn unknown_pattern_is_a_no_op() {
    let mut u = Universe::new();
    u.set_pattern("pulsar", 5, 5);
    let before = u.cells().clone();
    assert!(!u.set_pattern("not_a_pattern", 0, 0));
    assert_eq!(u.cells(), &before);
    assert_eq!(u.width(), 64);
    assert_eq!(u.height(), 64);
}

#[test]
fn randomize_follows_the_draws() {
    let mut u = empty_grid(6, 5);
    let n = u.cells().len();
    u.randomize(&vec![true; n]);
    assert_eq!(count_alive(&u), n);
    u.randomize(&vec![false; n]);
    assert_eq!(count_alive(&u), 0);
    let mut draws = vec![false; n];
    draws[3] = true;
    draws[17] = true;
    u.randomize(&draws);
    assert_eq!(count_alive(&u), 2);
    assert_eq!(u.cells()[3], Cell::Alive);
    assert_eq!(u.cells()[17], Cell::Alive);
}

#[test]
fn randomize_distribution_converges_to_three_tenths() {
    // Draw one uniform sample from [0, 1) per cell, pass whether it fell
    // below 0.3, and check the empirical live fraction over many trials.
    let mut u = empty_grid(64, 64);
    let n = u.cells().len();
    let mut state: u64 = 0x853c49e6748fea9b;
    let mut alive_total: u64 = 0;
    let trials = 50;
    for _ in 0..trials {
        let mut draws = Vec::with_capacity(n);
        for _ in 0..n {
            state = state
                .wrapping_mul(6364136223846793005)
                .wrapping_add(1442695040888963407);
            let sample = (state >> 11) as f64 / (1u64 << 53) as f64;
            draws.push(sample < 0.3);
        }
        u.randomize(&draws);
        alive_total += count_alive(&u) as u64;
    }
    let fraction = alive_total as f64 / (trials as f64 * n as f64);
    assert!(
        (fraction - 0.3).abs() < 0.01,
        "live fraction {} strays from 0.3",
        fraction
    );
}

#[test]
fn render_draws_rows_of_glyphs() {
    let mut u = empty_grid(3, 2);
    u.toggle_cell(0, 1);
    u.toggle_cell(1, 2);
    let text = u.render();
    assert_eq!(text, "\u{25fb}\u{25fc}\u{25fb}\n\u{25fb}\u{25fb}\u{25fc}\n");
}

#[test]
fn render_length_counts_rows_and_newlines() {
    let u = Universe::new();
    let text = u.render();
    assert_eq!(text.chars().count(), 64 * 65);
    assert_eq!(text.lines().count(), 64);
}
