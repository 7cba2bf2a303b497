use d2ca::{cells_from_draws, next_state, D2caUniverse, ALIVE, ALIVE_GLYPH, DEAD, DEAD_GLYPH};

fn grid(width: u32, height: u32, alive: &[(u32, u32)]) -> D2caUniverse {
    let mut cells = vec![DEAD; (width * height) as usize];
    for &(row, col) in alive {
        cells[(row * width + col) as usize] = ALIVE;
    }
    D2caUniverse::from_cells(width, height, cells).expect("a well-formed grid")
}

fn alive_cells(u: &D2caUniverse) -> Vec<(u32, u32)> {
    let w = u.get_width();
    let mut out = Vec::new();
    for (i, &c) in u.get_cells().iter().enumerate() {
        if c == ALIVE {
            out.push((i as u32 / w, i as u32 % w));
        }
    }
    out
}

fn decode(text: &str) -> Vec<u8> {
    text.chars()
        .filter(|&c| c != '\n')
        .map(|c| if c == ALIVE_GLYPH { ALIVE } else { DEAD })
        .collect()
}

#[test]
fn new_has_dimensions_and_buffer_length() {
    let u = D2caUniverse::new(7, 5).expect("the entropy source answered");
    assert_eq!(u.get_width(), 7);
    assert_eq!(u.get_height(), 5);
    assert_eq!(u.get_cells().len(), 35);
    assert!(u.get_cells().iter().all(|&c| c == DEAD || c == ALIVE));
}

#[test]
fn buffer_keeps_shape_and_values_over_ticks() {
    let mut u = D2caUniverse::new(16, 9).expect("the entropy source answered");
    for _ in 0..20 {
        u.tick();
        assert_eq!(u.get_width(), 16);
        assert_eq!(u.get_height(), 9);
        assert_eq!(u.get_cells().len(), 144);
        assert!(u.get_cells().iter().all(|&c| c == DEAD || c == ALIVE));
    }
}

#[test]
fn lone_center_cell_dies() {
    let mut u = grid(3, 3, &[(1, 1)]);
    u.tick();
    assert_eq!(u.get_cells(), &[DEAD; 9][..]);
}

#[test]
fn block_is_still_life() {
    let block = [(1, 1), (1, 2), (2, 1), (2, 2)];
    let mut u = grid(4, 4, &block);
    let before = u.get_cells().to_vec();
    u.tick();
    assert_eq!(u.get_cells(), &before[..]);
    u.tick();
    assert_eq!(u.get_cells(), &before[..]);
}

#[test]
fn blinker_has_period_two() {
    let mut u = grid(5, 5, &[(2, 1), (2, 2), (2, 3)]);
    let horizontal = u.get_cells().to_vec();
    u.tick();
    assert_eq!(alive_cells(&u), vec![(1, 2), (2, 2), (3, 2)]);
    u.tick();
    assert_eq!(u.get_cells(), &horizontal[..]);
}

#[test]
fn tick_is_deterministic() {
    let seeded = D2caUniverse::new(11, 13).expect("the entropy source answered");
    let cells = seeded.get_cells().to_vec();
    let mut a = D2caUniverse::from_cells(11, 13, cells.clone()).unwrap();
    let mut b = D2caUniverse::from_cells(11, 13, cells).unwrap();
    for _ in 0..5 {
        a.tick();
        b.tick();
        assert_eq!(a.get_cells(), b.get_cells());
    }
}

#[test]
fn glider_wraps_around_the_edges() {
    // A glider moves one cell down and one right every four generations.
    let mut u = grid(6, 6, &[(3, 4), (4, 5), (5, 3), (5, 4), (5, 5)]);
    for _ in 0..4 {
        u.tick();
    }
    let mut got = alive_cells(&u);
    got.sort();
    assert_eq!(got, vec![(0, 0), (0, 4), (0, 5), (4, 5), (5, 0)]);
}

#[test]
fn single_cell_grid_counts_itself() {
    // On a 1x1 torus the five offset pairs that are not literally (0, 0)
    // all land on the cell itself: five neighbours, so it dies.
    let mut u = grid(1, 1, &[(0, 0)]);
    u.tick();
    assert_eq!(u.get_cells(), &[DEAD][..]);
}

#[test]
fn render_draws_rows_of_glyphs() {
    let u = D2caUniverse::from_cells(2, 2, vec![1, 0, 0, 1]).unwrap();
    assert_eq!(u.render(), "\u{25A0}\u{25A1}\n\u{25A1}\u{25A0}\n");
    assert_eq!(DEAD_GLYPH, '□');
    assert_eq!(ALIVE_GLYPH, '■');
}

#[test]
fn render_round_trips_to_the_buffer() {
    let u = D2caUniverse::new(9, 4).expect("the entropy source answered");
    let text = u.render();
    assert_eq!(text.lines().count(), 4);
    assert!(text.lines().all(|l| l.chars().count() == 9));
    assert_eq!(decode(&text), u.get_cells());
}

#[test]
fn from_cells_rejects_bad_input() {
    assert!(D2caUniverse::from_cells(0, 3, vec![]).is_none());
    assert!(D2caUniverse::from_cells(3, 0, vec![]).is_none());
    assert!(D2caUniverse::from_cells(2, 2, vec![0, 1, 0]).is_none());
    assert!(D2caUniverse::from_cells(2, 2, vec![0, 1, 2, 0]).is_none());
    assert!(D2caUniverse::from_cells(65536, 65537, vec![]).is_none());
    assert!(D2caUniverse::from_cells(2, 1, vec![0, 1]).is_some());
}

#[test]
fn draws_seed_cells_by_parity() {
    let cells = cells_from_draws(&vec![0, 1, 2, 3, u8::MAX, 100]);
    assert_eq!(cells, vec![0, 1, 0, 1, 1, 0]);
}

#[test]
fn rule_table() {
    for n in 0..=8u8 {
        let survive = if n == 2 || n == 3 { 1 } else { 0 };
        assert_eq!(next_state(1, n), survive);
        assert_eq!(next_state(0, n), if n == 3 { 1 } else { 0 });
        assert_eq!(next_state(7, n), 7);
    }
}

#[test]
fn new_seeds_both_states() {
    // With 4096 independent fair draws, a grid of one state only is
    // vanishingly unlikely.
    let u = D2caUniverse::new(64, 64).expect("the entropy source answered");
    assert!(u.get_cells().iter().any(|&c| c == ALIVE));
    assert!(u.get_cells().iter().any(|&c| c == DEAD));
}
