use toroidal_life::{GliderKind, GridError, Universe};

fn alive(u: &Universe, row: u32, col: u32) -> bool {
    u.cells().contains((row * u.width() + col) as usize)
}

fn live_cells(u: &Universe) -> Vec<(u32, u32)> {
    let mut out = Vec::new();
    for r in 0..u.height() {
        for c in 0..u.width() {
            if alive(u, r, c) {
                out.push((r, c));
            }
        }
    }
    out
}

#[test]
fn new_universe_is_all_dead_with_given_dimensions() {
    let u = Universe::new(64, 64);
    assert_eq!(u.width(), 64);
    assert_eq!(u.height(), 64);
    assert_eq!(u.cells().len(), 64 * 64);
    assert!(live_cells(&u).is_empty());
}

#[test]
fn default_universe_is_64_by_64() {
    let u = Universe::default();
    assert_eq!(u.width(), 64);
    assert_eq!(u.height(), 64);
    assert_eq!(u.cells().len(), 4096);
    assert!(live_cells(&u).is_empty());
}

#[test]
fn buffer_length_matches_dimensions_after_any_operations() {
    let mut u = Universe::new(10, 7);
    assert_eq!(u.cells().len(), 70);
    u.toggle_cell(3, 4).unwrap();
    u.draw_glider(1, 1, GliderKind::NorthWest).unwrap();
    u.tick();
    assert_eq!(u.cells().len(), 70);
    u.set_width(5);
    assert_eq!(u.width(), 5);
    assert_eq!(u.height(), 7);
    assert_eq!(u.cells().len(), 35);
    u.set_height(3);
    assert_eq!(u.height(), 3);
    assert_eq!(u.cells().len(), 15);
    u.kill_all_cells();
    assert_eq!(u.cells().len(), 15);
}

#[test]
fn dead_grid_stays_dead_under_tick() {
    let mut u = Universe::new(16, 16);
    u.tick();
    assert!(live_cells(&u).is_empty());
}

#[test]
fn block_is_a_still_life() {
    let mut u = Universe::new(6, 5);
    for (r, c) in [(1, 1), (1, 2), (2, 1), (2, 2)] {
        u.toggle_cell(r, c).unwrap();
    }
    let before = live_cells(&u);
    u.tick();
    assert_eq!(live_cells(&u), before);
    u.tick();
    assert_eq!(live_cells(&u), before);
}

#[test]
fn glider_translates_one_up_one_left_after_four_ticks() {
    let mut u = Universe::new(8, 8);
    u.draw_glider(0, 0, GliderKind::NorthWest).unwrap();
    assert_eq!(live_cells(&u), vec![(0, 0), (0, 1), (0, 2), (1, 0), (2, 1)]);
    for _ in 0..4 {
        u.tick();
    }
    // the same five-cell shape, anchored at (7, 7) on the torus
    assert_eq!(live_cells(&u), vec![(0, 7), (1, 0), (7, 0), (7, 1), (7, 7)]);
}

#[test]
fn toggle_cell_round_trip_restores_the_grid() {
    let mut u = Universe::new(9, 9);
    u.toggle_cell(2, 2).unwrap();
    u.toggle_cell(7, 1).unwrap();
    let before = live_cells(&u);
    u.toggle_cell(4, 5).unwrap();
    assert!(alive(&u, 4, 5));
    u.toggle_cell(4, 5).unwrap();
    assert_eq!(live_cells(&u), before);
}

#[test]
fn neighbor_count_wraps_across_both_edges() {
    let mut u = Universe::new(3, 3);
    u.toggle_cell(0, 0).unwrap();
    assert_eq!(u.live_neighbor_count(1, 1), 1);
    assert_eq!(u.live_neighbor_count(0, 0), 0);
    assert_eq!(u.live_neighbor_count(2, 2), 1);
}

#[test]
fn neighbor_count_on_full_grid_is_eight() {
    let mut u = Universe::new(4, 4);
    let seed = vec![true; 16];
    u.generate_random_cells(&seed);
    for r in 0..4 {
        for c in 0..4 {
            assert_eq!(u.live_neighbor_count(r, c), 8);
        }
    }
}

#[test]
fn clear_is_idempotent() {
    let mut u = Universe::new(12, 12);
    u.draw_glider(4, 4, GliderKind::SouthEast).unwrap();
    u.kill_all_cells();
    let once = live_cells(&u);
    assert!(once.is_empty());
    u.kill_all_cells();
    assert_eq!(live_cells(&u), once);
}

#[test]
fn toggle_cell_out_of_range_is_an_error_and_changes_nothing() {
    let mut u = Universe::new(5, 4);
    u.toggle_cell(1, 1).unwrap();
    let before = live_cells(&u);
    assert_eq!(u.toggle_cell(4, 0), Err(GridError::InvalidCoordinate));
    assert_eq!(u.toggle_cell(0, 5), Err(GridError::InvalidCoordinate));
    assert_eq!(live_cells(&u), before);
}

#[test]
fn draw_glider_out_of_range_is_an_error_and_changes_nothing() {
    let mut u = Universe::new(5, 5);
    assert_eq!(u.draw_glider(5, 0, GliderKind::NorthWest), Err(GridError::InvalidCoordinate));
    assert_eq!(u.draw_glider(0, 5, GliderKind::NorthEast), Err(GridError::InvalidCoordinate));
    assert!(live_cells(&u).is_empty());
}

#[test]
fn zero_dimension_grid_tolerates_every_operation() {
    let mut u = Universe::new(0, 5);
    assert_eq!(u.cells().len(), 0);
    u.tick();
    u.kill_all_cells();
    let seed: Vec<bool> = Vec::new();
    u.generate_random_cells(&seed);
    assert_eq!(u.toggle_cell(0, 0), Err(GridError::InvalidCoordinate));
    assert_eq!(u.draw_glider(0, 0, GliderKind::SouthWest), Err(GridError::InvalidCoordinate));
    assert_eq!(u.cells().len(), 0);
}

#[test]
fn generate_random_cells_copies_the_injected_draws_exactly() {
    let mut u = Universe::new(4, 3);
    let seed: Vec<bool> = (0..12).map(|i| i % 3 == 0).collect();
    u.generate_random_cells(&seed);
    for r in 0..3 {
        for c in 0..4 {
            assert_eq!(alive(&u, r, c), (r * 4 + c) % 3 == 0, "cell ({r}, {c})");
        }
    }
}

#[test]
fn resizing_clears_the_grid() {
    let mut u = Universe::new(6, 6);
    u.draw_glider(2, 2, GliderKind::NorthWest).unwrap();
    u.set_width(9);
    assert!(live_cells(&u).is_empty());
    u.toggle_cell(1, 8).unwrap();
    u.set_height(2);
    assert_eq!(u.width(), 9);
    assert_eq!(u.height(), 2);
    assert!(live_cells(&u).is_empty());
}

#[test]
fn each_orientation_stamps_its_five_cells() {
    let anchors = [
        (GliderKind::NorthWest, vec![(3, 3), (3, 4), (3, 5), (4, 3), (5, 4)]),
        (GliderKind::NorthEast, vec![(3, 1), (3, 2), (3, 3), (4, 3), (5, 2)]),
        (GliderKind::SouthWest, vec![(1, 4), (2, 3), (3, 3), (3, 4), (3, 5)]),
        (GliderKind::SouthEast, vec![(1, 2), (2, 3), (3, 1), (3, 2), (3, 3)]),
    ];
    for (kind, expected) in anchors {
        let mut u = Universe::new(7, 7);
        u.draw_glider(3, 3, kind).unwrap();
        assert_eq!(live_cells(&u), expected, "{kind:?}");
    }
}

#[test]
fn stamping_at_the_corner_wraps_toroidally() {
    let mut u = Universe::new(6, 5);
    u.draw_glider(0, 0, GliderKind::SouthEast).unwrap();
    // offsets (0,0), (0,-1), (0,-2), (-1,0), (-2,-1) from (0,0), wrapped
    assert_eq!(live_cells(&u), vec![(0, 0), (0, 4), (0, 5), (3, 5), (4, 0)]);
}

#[test]
fn stamping_does_not_clear_other_cells() {
    let mut u = Universe::new(10, 10);
    u.toggle_cell(9, 9).unwrap();
    u.draw_glider(0, 0, GliderKind::NorthWest).unwrap();
    assert!(alive(&u, 9, 9));
}
