use toroidal_life::rules::transition;

#[test]
fn live_cell_survives_only_with_two_or_three_neighbors() {
    for n in 0..=8u8 {
        assert_eq!(transition(true, n), n == 2 || n == 3, "alive with {n} neighbors");
    }
}

#[test]
fn dead_cell_is_born_only_with_exactly_three_neighbors() {
    for n in 0..=8u8 {
        assert_eq!(transition(false, n), n == 3, "dead with {n} neighbors");
    }
}
