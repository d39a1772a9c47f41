//! Scenario tests for the Grid Automaton: construction, toggling, re-seeding,
//! and one-generation steps on small toroidal grids.

use game_of_life::universe::Universe;

/// Flips every listed `(row, col)` position on.
fn turn_on(u: &mut Universe, cells: &[(u32, u32)]) {
    for &(row, col) in cells {
        u.toggle_cell(row, col);
    }
}

/// Asserts that exactly the listed `(row, col)` positions are alive.
fn assert_live_cells(u: &Universe, expected: &[(u32, u32)]) {
    for row in 0..u.height() {
        for col in 0..u.width() {
            let should_live = expected.contains(&(row, col));
            assert!(
                u.cell_at(row, col) == should_live,
                "cell ({}, {}) expected {}",
                row,
                col,
                should_live
            );
        }
    }
}

#[test]
fn new_universe_is_dead_at_generation_zero() {
    let u = Universe::new(4, 5);
    assert_eq!(u.width(), 4);
    assert_eq!(u.height(), 5);
    assert_eq!(u.generation(), 0);
    assert_live_cells(&u, &[]);
}

#[test]
fn toggle_flips_exactly_the_target() {
    let mut u = Universe::new(5, 5);
    u.toggle_cell(2, 3);
    assert_live_cells(&u, &[(2, 3)]);
    assert_eq!(u.generation(), 0);
    u.toggle_cell(2, 3);
    assert_live_cells(&u, &[]);
    assert_eq!(u.generation(), 0);
}

#[test]
fn generation_grows_by_one_per_tick() {
    let mut u = Universe::new(3, 3);
    u.tick();
    assert_eq!(u.generation(), 1);
    u.tick();
    assert_eq!(u.generation(), 2);
}

#[test]
fn all_dead_grid_stays_dead() {
    let mut u = Universe::new(7, 3);
    u.tick();
    assert_live_cells(&u, &[]);
    assert_eq!(u.generation(), 1);
}

#[test]
fn lone_cell_dies_of_underpopulation() {
    let mut u = Universe::new(3, 3);
    u.toggle_cell(1, 1);
    u.tick();
    assert_live_cells(&u, &[]);

    let mut v = Universe::new(8, 5);
    v.toggle_cell(4, 6);
    v.tick();
    assert_live_cells(&v, &[]);
}

#[test]
fn block_is_a_still_life() {
    let mut u = Universe::new(6, 6);
    let block = [(2, 2), (2, 3), (3, 2), (3, 3)];
    turn_on(&mut u, &block);
    u.tick();
    assert_live_cells(&u, &block);
    assert_eq!(u.generation(), 1);
}

#[test]
fn corner_block_is_a_still_life_across_both_edges() {
    // a 2-by-2 block split across all four corners of the torus: each live
    // cell sees the other three only through the wraparound
    let mut u = Universe::new(4, 4);
    let corners = [(0, 0), (0, 3), (3, 0), (3, 3)];
    turn_on(&mut u, &corners);
    u.tick();
    assert_live_cells(&u, &corners);
}

#[test]
fn blinker_needs_simultaneous_update() {
    // a horizontal blinker turns vertical only if every cell is judged
    // against the pre-tick grid; an in-place update would kill it
    let mut u = Universe::new(5, 5);
    turn_on(&mut u, &[(2, 1), (2, 2), (2, 3)]);
    u.tick();
    assert_live_cells(&u, &[(1, 2), (2, 2), (3, 2)]);
    u.tick();
    assert_live_cells(&u, &[(2, 1), (2, 2), (2, 3)]);
}

#[test]
fn blinker_wraps_across_top_and_bottom() {
    // a vertical blinker spanning the top and bottom edges: rows 3, 0, 1 of
    // column 1 on a 4-by-4 torus turn into row 0, columns 0..=2
    let mut u = Universe::new(4, 4);
    turn_on(&mut u, &[(3, 1), (0, 1), (1, 1)]);
    u.tick();
    assert_live_cells(&u, &[(0, 0), (0, 1), (0, 2)]);
}

#[test]
fn blinker_wraps_across_left_and_right() {
    let mut u = Universe::new(4, 4);
    turn_on(&mut u, &[(1, 3), (1, 0), (1, 1)]);
    u.tick();
    assert_live_cells(&u, &[(0, 0), (1, 0), (2, 0)]);
}

#[test]
fn glider_takes_one_step_on_a_small_torus() {
    let mut u = Universe::new(6, 6);
    turn_on(&mut u, &[(1, 2), (2, 3), (3, 1), (3, 2), (3, 3)]);
    assert_eq!(u.generation(), 0);
    u.tick();
    assert_live_cells(&u, &[(2, 1), (2, 3), (3, 2), (3, 3), (4, 2)]);
    assert_eq!(u.generation(), 1);
}

#[test]
fn equal_starts_tick_to_equal_states() {
    let pattern = [(1, 2), (2, 3), (3, 1), (3, 2), (3, 3)];
    let mut a = Universe::new(6, 6);
    let mut b = Universe::new(6, 6);
    turn_on(&mut a, &pattern);
    turn_on(&mut b, &pattern);
    assert!(a == b);
    a.tick();
    b.tick();
    assert!(a == b);
    a.tick();
    b.tick();
    assert!(a == b);
}

#[test]
fn equality_compares_cells_not_generation() {
    let mut a = Universe::new(5, 5);
    let b = Universe::new(5, 5);
    a.tick();
    assert_eq!(a.generation(), 1);
    assert_eq!(b.generation(), 0);
    assert!(a == b);
}

#[test]
fn unequal_cells_or_dimensions_compare_unequal() {
    let mut a = Universe::new(5, 5);
    let b = Universe::new(5, 5);
    a.toggle_cell(0, 0);
    assert!(a != b);
    let c = Universe::new(4, 5);
    let d = Universe::new(5, 4);
    assert!(c != d);
}

#[test]
fn randomize_writes_every_draw_in_row_major_order() {
    let mut u = Universe::new(3, 2);
    let draws = vec![true, false, true, false, false, true];
    u.randomize(&draws);
    assert_live_cells(&u, &[(0, 0), (0, 2), (1, 2)]);
    assert_eq!(u.generation(), 0);

    let all_on = vec![true; 6];
    u.randomize(&all_on);
    assert_live_cells(&u, &[(0, 0), (0, 1), (0, 2), (1, 0), (1, 1), (1, 2)]);
}
