use infinite_minesweeper::fatal::Fatal;
use infinite_minesweeper::grid::cell::{Cell, CellState, CellValue};
use infinite_minesweeper::grid::cell_builder::{CellBuilder, CERTAIN, DRAW_BITS, REACH, SEARCH_RADIUS};
use infinite_minesweeper::helper::PlaceI32;
use rand::rngs::StdRng;
use rand::{Rng, RngCore, SeedableRng};

fn at(x: i32, y: i32) -> PlaceI32 {
    PlaceI32 { x, y }
}

fn block_of(seed: u64, x: i32, y: i32) -> [u8; 32] {
    let mut block = [42u8; 32];
    block[0..8].copy_from_slice(&seed.to_be_bytes());
    block[8..12].copy_from_slice(&x.to_be_bytes());
    block[12..16].copy_from_slice(&y.to_be_bytes());
    block
}

fn mine_by_fraction(seed: u64, fraction: f64, x: i32, y: i32) -> bool {
    let mut rng = StdRng::from_seed(block_of(seed, x, y));
    let draw: f64 = rng.random();
    fraction > draw
}

#[test]
fn the_constants_fit_together() {
    assert_eq!(CERTAIN, 1u64 << DRAW_BITS);
    assert_eq!(SEARCH_RADIUS, 500);
    assert_eq!(REACH, 1 << 30);
}

#[test]
fn the_seed_block_is_seed_then_x_then_y_then_filler() {
    let block = CellBuilder::seed_for(0x0102_0304_0506_0708, at(0x0a0b_0c0d, -2));
    let mut expected = [42u8; 32];
    expected[..16].copy_from_slice(&[
        1, 2, 3, 4, 5, 6, 7, 8, 0x0a, 0x0b, 0x0c, 0x0d, 0xff, 0xff, 0xff, 0xfe,
    ]);
    assert_eq!(block, expected);
}

#[test]
fn the_seed_block_is_what_big_endian_bytes_give() {
    for &(seed, x, y) in &[
        (0u64, 0i32, 0i32),
        (u64::MAX, -1, -1),
        (0xDEAD_BEEF, 500, -500),
        (0x8000_0000_0000_0001, i32::MIN, i32::MAX),
    ] {
        assert_eq!(CellBuilder::seed_for(seed, at(x, y)), block_of(seed, x, y));
    }
}

#[test]
fn a_draw_is_a_mine_below_the_concentration() {
    assert_eq!(CellBuilder::value_of_draw(0, 0), CellValue::Empty);
    assert_eq!(CellBuilder::value_of_draw(0, 1), CellValue::Mine);
    assert_eq!(CellBuilder::value_of_draw(2047, 1), CellValue::Mine);
    assert_eq!(CellBuilder::value_of_draw(2048, 1), CellValue::Empty);
    assert_eq!(CellBuilder::value_of_draw(2048, 2), CellValue::Mine);
    assert_eq!(CellBuilder::value_of_draw(u64::MAX, CERTAIN), CellValue::Mine);
    assert_eq!(CellBuilder::value_of_draw(u64::MAX, CERTAIN - 1), CellValue::Empty);
    assert_eq!(CellBuilder::value_of_draw(u64::MAX, u64::MAX), CellValue::Mine);
}

#[test]
fn concentration_of_simple_fractions() {
    assert_eq!(CellBuilder::concentration_of(0.0f64.to_bits()), 0);
    assert_eq!(CellBuilder::concentration_of((-0.0f64).to_bits()), 0);
    assert_eq!(CellBuilder::concentration_of(1.0f64.to_bits()), CERTAIN);
    assert_eq!(CellBuilder::concentration_of(0.5f64.to_bits()), CERTAIN / 2);
    assert_eq!(CellBuilder::concentration_of(0.25f64.to_bits()), CERTAIN / 4);
    assert_eq!(CellBuilder::concentration_of(0.75f64.to_bits()), CERTAIN / 4 * 3);
    assert_eq!(CellBuilder::concentration_of(0.2f64.to_bits()), 1_801_439_850_948_199);
}

#[test]
fn concentration_of_fractions_out_of_range() {
    assert_eq!(CellBuilder::concentration_of(2.0f64.to_bits()), CERTAIN);
    assert_eq!(CellBuilder::concentration_of(1e300f64.to_bits()), CERTAIN);
    assert_eq!(CellBuilder::concentration_of(f64::INFINITY.to_bits()), CERTAIN);
    assert_eq!(CellBuilder::concentration_of(f64::NEG_INFINITY.to_bits()), 0);
    assert_eq!(CellBuilder::concentration_of((-0.3f64).to_bits()), 0);
    assert_eq!(CellBuilder::concentration_of(f64::NAN.to_bits()), 0);
}

#[test]
fn concentration_of_the_smallest_fractions() {
    let one_draw = 1.0 / 9_007_199_254_740_992.0f64;
    assert_eq!(CellBuilder::concentration_of(one_draw.to_bits()), 1);
    assert_eq!(CellBuilder::concentration_of((one_draw * 1.5).to_bits()), 2);
    assert_eq!(CellBuilder::concentration_of((one_draw / 2.0).to_bits()), 1);
    assert_eq!(CellBuilder::concentration_of(f64::MIN_POSITIVE.to_bits()), 1);
    assert_eq!(CellBuilder::concentration_of(5e-324f64.to_bits()), 1);
    assert_eq!(CellBuilder::concentration_of((1.0 - f64::EPSILON / 2.0).to_bits()), CERTAIN - 1);
}

#[test]
fn concentration_of_rounds_the_scaled_fraction_up() {
    for &fraction in &[0.1f64, 0.2, 0.3, 0.15, 0.999, 0.001, 1e-10, 0.123456789] {
        let expected = (fraction * 9_007_199_254_740_992.0).ceil() as u64;
        assert_eq!(CellBuilder::concentration_of(fraction.to_bits()), expected);
    }
}

#[test]
fn a_cell_is_a_mine_where_the_fraction_exceeds_the_generators_draw() {
    for &fraction in &[0.0f64, 0.1, 0.2, 0.5, 0.9, 1.0] {
        let concentration = CellBuilder::concentration_of(fraction.to_bits());
        for &seed in &[0u64, 1, 0xDEAD_BEEF, u64::MAX] {
            for x in -6..6 {
                for y in -6..6 {
                    let expected = if mine_by_fraction(seed, fraction, x, y) {
                        CellValue::Mine
                    } else {
                        CellValue::Empty
                    };
                    assert_eq!(
                        CellBuilder::cell_value_before_origin(seed, concentration, at(x, y)),
                        expected
                    );
                }
            }
        }
    }
}

#[test]
fn a_cell_follows_the_first_word_of_the_seeded_generator() {
    for &(seed, x, y) in &[(3u64, 0i32, 0i32), (3, 1, 0), (3, 0, 1), (99, -40, 1234), (99, 1 << 29, -7)] {
        let word = StdRng::from_seed(block_of(seed, x, y)).next_u64();
        let draw = word >> 11;
        assert_eq!(
            CellBuilder::cell_value_before_origin(seed, draw, at(x, y)),
            CellValue::Empty
        );
        assert_eq!(
            CellBuilder::cell_value_before_origin(seed, draw + 1, at(x, y)),
            CellValue::Mine
        );
    }
}

#[test]
fn the_generator_does_not_depend_on_the_order_of_the_calls() {
    let concentration = CellBuilder::concentration_of(0.3f64.to_bits());
    let places: Vec<PlaceI32> = (-10..10).flat_map(|x| (-10..10).map(move |y| at(x * 37, y * 91))).collect();
    let forward: Vec<CellValue> = places
        .iter()
        .map(|&p| CellBuilder::cell_value_before_origin(11, concentration, p))
        .collect();
    let mut backward: Vec<CellValue> = places
        .iter()
        .rev()
        .map(|&p| CellBuilder::cell_value_before_origin(11, concentration, p))
        .collect();
    backward.reverse();
    assert_eq!(forward, backward);
    let again: Vec<CellValue> = places
        .iter()
        .map(|&p| CellBuilder::cell_value_before_origin(11, concentration, p))
        .collect();
    assert_eq!(forward, again);
}

#[test]
fn is_clear_asks_for_nine_empty_cells() {
    let concentration = CellBuilder::concentration_of(0.2f64.to_bits());
    for x in -20..20 {
        for y in -20..20 {
            let mut expected = true;
            for dx in -1..=1 {
                for dy in -1..=1 {
                    if mine_by_fraction(5, 0.2, x + dx, y + dy) {
                        expected = false;
                    }
                }
            }
            assert_eq!(CellBuilder::is_clear(5, concentration, at(x, y)), expected);
        }
    }
}

#[test]
fn the_first_start_is_the_first_clear_place_in_scan_order() {
    let concentration = CellBuilder::concentration_of(0.2f64.to_bits());
    for seed in 0..8u64 {
        let start = CellBuilder::first_valid_start(seed, concentration).expect("a start");
        assert!(-500 <= start.x && start.x < 500 && -500 <= start.y && start.y < 500);
        assert!(CellBuilder::is_clear(seed, concentration, start));
        for x in -500..=start.x {
            let rows = if x < start.x { 500 } else { start.y };
            for y in -500..rows {
                assert!(!CellBuilder::is_clear(seed, concentration, at(x, y)));
            }
        }
    }
}

#[test]
fn without_mines_the_first_place_is_the_start() {
    assert_eq!(CellBuilder::first_valid_start(123, 0), Some(at(-500, -500)));
    let builder = CellBuilder::with_seed(0, 123).expect("a start");
    assert_eq!(builder, CellBuilder { mine_concentration: 0, seed: 123, origin: at(-500, -500) });
}

#[test]
fn with_mines_everywhere_a_search_finds_no_start() {
    assert_eq!(CellBuilder::first_start_within(1, CERTAIN, 40), None);
    assert_eq!(CellBuilder::first_start_within(1, u64::MAX, 3), None);
    assert_eq!(CellBuilder::first_start_within(1, 0, 0), None);
}

#[test]
fn a_search_without_a_start_is_a_failure() {
    assert_eq!(CellBuilder::from_start(CERTAIN, 1, None), Err(Fatal::CannotFindStart));
    assert_eq!(CellBuilder::from_start(0, 9, None), Err(Fatal::CannotFindStart));
    assert_eq!(
        CellBuilder::from_start(7, 9, Some(at(3, -4))),
        Ok(CellBuilder { mine_concentration: 7, seed: 9, origin: at(3, -4) })
    );
}

#[test]
fn a_wider_search_finds_what_a_narrow_one_misses() {
    let concentration = CellBuilder::concentration_of(0.5f64.to_bits());
    for seed in 0..4u64 {
        let mut found = None;
        for radius in 1..200 {
            let start = CellBuilder::first_start_within(seed, concentration, radius);
            let mut expected = None;
            'scan: for x in -radius..radius {
                for y in -radius..radius {
                    if CellBuilder::is_clear(seed, concentration, at(x, y)) {
                        expected = Some(at(x, y));
                        break 'scan;
                    }
                }
            }
            assert_eq!(start, expected);
            if start.is_some() {
                found = start;
                break;
            }
        }
        let found = found.expect("a start within 200 cells");
        assert!(found.x.abs().max(found.y.abs()) > 1 || found.x == -1 || found.y == -1);
    }
}

#[test]
fn the_start_of_a_board_is_clear() {
    for &fraction in &[0.1f64, 0.2, 0.35] {
        let concentration = CellBuilder::concentration_of(fraction.to_bits());
        for seed in [0u64, 1, 2, 0xDEAD_BEEF, 0xFFFF_FFFF_FFFF_FFFF] {
            let builder = CellBuilder::new(concentration, Some(seed)).expect("a start");
            assert_eq!(builder.seed, seed);
            assert_eq!(builder.mine_concentration, concentration);
            for x in -1..=1 {
                for y in -1..=1 {
                    assert_eq!(builder.cell(at(x, y)), Cell::new(CellValue::Empty));
                }
            }
        }
    }
}

#[test]
fn a_builder_places_the_board_at_its_start() {
    let concentration = CellBuilder::concentration_of(0.2f64.to_bits());
    let builder = CellBuilder::new(concentration, Some(77)).expect("a start");
    for x in -15..15 {
        for y in -15..15 {
            let cell = builder.cell(at(x, y));
            assert_eq!(cell.state, CellState::Hidden);
            assert_eq!(
                cell.value,
                CellBuilder::cell_value_before_origin(
                    77,
                    concentration,
                    at(x + builder.origin.x, y + builder.origin.y)
                )
            );
        }
    }
}

#[test]
fn a_builder_gives_the_same_cell_every_time() {
    let concentration = CellBuilder::concentration_of(0.4f64.to_bits());
    let builder = CellBuilder { mine_concentration: concentration, seed: 9, origin: at(3, -3) };
    let far = at(REACH - 1, -REACH);
    assert_eq!(builder.cell(far), builder.cell(far));
    assert_eq!(builder.cell(at(0, 0)), builder.cell(at(0, 0)));
}

#[test]
fn a_random_seed_makes_a_board() {
    let concentration = CellBuilder::concentration_of(0.2f64.to_bits());
    let builder = CellBuilder::new(concentration, None).expect("a seed and a start");
    assert_eq!(builder.cell(at(0, 0)).value, CellValue::Empty);
    let start = CellBuilder::first_valid_start(builder.seed, concentration);
    assert_eq!(start, Some(builder.origin));
}

#[test]
fn random_seeds_differ() {
    let first = CellBuilder::new(0, None).expect("a seed");
    let second = CellBuilder::new(0, None).expect("a seed");
    let third = CellBuilder::new(0, None).expect("a seed");
    assert!(first.seed != second.seed || second.seed != third.seed);
}

#[test]
fn the_dummy_builder_has_no_mines() {
    let builder = CellBuilder::dummy();
    assert_eq!(builder, CellBuilder { mine_concentration: 0, seed: 0, origin: at(0, 0) });
    assert_eq!(builder.cell(at(12, -12)).value, CellValue::Empty);
}
