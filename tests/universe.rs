use game_of_life::Universe;

fn sized(width: u32, height: u32) -> Universe {
    let mut u = Universe::new();
    u.set_width(width);
    u.set_height(height);
    u
}

fn alive(u: &Universe, row: u32, col: u32) -> bool {
    u.get_cells().contains((row * u.width() + col) as usize)
}

fn live_set(u: &Universe) -> Vec<(u32, u32)> {
    let mut out = Vec::new();
    for r in 0..u.height() {
        for c in 0..u.width() {
            if alive(u, r, c) {
                out.push((r, c));
            }
        }
    }
    out
}

fn count_alive(u: &Universe) -> usize {
    live_set(u).len()
}

// A plain simulation of one generation, kept apart from the library.
fn reference_step(grid: &[bool], w: usize, h: usize, alive_rules: u16, dead_rules: u16) -> Vec<bool> {
    let mut out = vec![false; w * h];
    for r in 0..h {
        for c in 0..w {
            let mut n = 0u16;
            for dr in [h - 1, 0, 1] {
                for dc in [w - 1, 0, 1] {
                    if dr == 0 && dc == 0 {
                        continue;
                    }
                    if grid[((r + dr) % h) * w + (c + dc) % w] {
                        n += 1;
                    }
                }
            }
            let table = if grid[r * w + c] { alive_rules } else { dead_rules };
            out[r * w + c] = (table >> n) & 1 == 1;
        }
    }
    out
}

#[test]
fn new_has_defaults() {
    let u = Universe::new();
    assert_eq!(u.width(), 128);
    assert_eq!(u.height(), 128);
    assert_eq!(u.get_cells().len(), 128 * 128);
    assert_eq!(count_alive(&u), 0);
}

#[test]
fn tick_matches_independent_simulation() {
    let (w, h) = (7usize, 5usize);
    let mut u = sized(w as u32, h as u32);
    let mut grid = vec![false; w * h];
    for i in 0..w * h {
        grid[i] = (i * 7 + 3) % 5 < 2;
    }
    u.initialise_cells(&grid);
    for &(ar, dr) in &[(12u16, 8u16), (0x1ff, 0), (0b100110, 0b1001), (0xffff, 0xffff)] {
        u.set_rules(ar, dr);
        for _ in 0..3 {
            grid = reference_step(&grid, w, h, ar, dr);
            u.tick();
            let got: Vec<bool> = (0..w * h).map(|i| u.get_cells().contains(i)).collect();
            assert_eq!(got, grid);
        }
    }
}

#[test]
fn tick_on_one_row_counts_wrapped_cells_repeatedly() {
    // On a grid one cell high, the rows above and below are the row itself.
    let mut u = sized(3, 1);
    u.set_cells(&[(0, 0)]);
    // Cell (0, 1) sees (0, 0) three times: as left, up-left and down-left.
    u.set_rules(0, 1 << 3);
    u.tick();
    assert!(alive(&u, 0, 1));
    assert!(alive(&u, 0, 2));
    assert!(!alive(&u, 0, 0));
}

#[test]
fn blinker_oscillates_with_period_two() {
    let mut u = sized(5, 5);
    u.set_cells(&[(2, 1), (2, 2), (2, 3)]);
    let row = live_set(&u);
    u.tick();
    assert_eq!(live_set(&u), vec![(1, 2), (2, 2), (3, 2)]);
    u.tick();
    assert_eq!(live_set(&u), row);
}

#[test]
fn glider_moves_one_cell_diagonally_every_four_ticks() {
    let mut u = sized(8, 8);
    let glider = [(0u32, 1u32), (1, 2), (2, 0), (2, 1), (2, 2)];
    u.set_cells(&glider);
    for step in 1..=8u32 {
        for _ in 0..4 {
            u.tick();
        }
        let mut expect: Vec<(u32, u32)> =
            glider.iter().map(|&(r, c)| ((r + step) % 8, (c + step) % 8)).collect();
        expect.sort();
        assert_eq!(live_set(&u), expect);
    }
}

#[test]
fn set_width_clears_and_resizes() {
    let mut u = sized(4, 3);
    u.initialise_cells(&[true; 12]);
    u.set_width(6);
    assert_eq!(u.width(), 6);
    assert_eq!(u.height(), 3);
    assert_eq!(u.get_cells().len(), 18);
    assert_eq!(count_alive(&u), 0);
}

#[test]
fn set_height_clears_and_resizes() {
    let mut u = sized(4, 3);
    u.initialise_cells(&[true; 12]);
    u.set_height(2);
    assert_eq!(u.width(), 4);
    assert_eq!(u.height(), 2);
    assert_eq!(u.get_cells().len(), 8);
    assert_eq!(count_alive(&u), 0);
}

#[test]
fn initialise_cells_all_dead_and_all_alive() {
    let mut u = sized(10, 10);
    u.initialise_cells(&[true; 100]);
    assert_eq!(count_alive(&u), 100);
    u.initialise_cells(&[false; 100]);
    assert_eq!(count_alive(&u), 0);
}

#[test]
fn initialise_cells_follows_row_major_order() {
    let mut u = sized(3, 2);
    u.initialise_cells(&[false, true, false, false, false, true]);
    assert_eq!(live_set(&u), vec![(0, 1), (1, 2)]);
}

#[test]
fn set_cells_keeps_other_cells() {
    let mut u = sized(4, 4);
    u.set_cells(&[(0, 0), (3, 3)]);
    u.set_cells(&[(1, 2), (2, 1), (1, 2)]);
    assert_eq!(live_set(&u), vec![(0, 0), (1, 2), (2, 1), (3, 3)]);
}

#[test]
fn set_cells_empty_list_changes_nothing() {
    let mut u = sized(3, 3);
    u.set_cells(&[(1, 1)]);
    u.set_cells(&[]);
    assert_eq!(live_set(&u), vec![(1, 1)]);
}

#[test]
fn empty_rules_kill_everything() {
    let mut u = sized(6, 6);
    u.initialise_cells(&[true; 36]);
    u.set_rules(0, 0);
    u.tick();
    assert_eq!(count_alive(&u), 0);
}

#[test]
fn birth_rule_zero_fills_empty_space() {
    let mut u = sized(5, 5);
    u.set_rules(0, 1);
    u.tick();
    assert_eq!(count_alive(&u), 25);
}

#[test]
fn classic_rules_kill_a_lonely_cell() {
    let mut u = sized(5, 5);
    u.set_cells(&[(2, 2)]);
    u.tick();
    assert_eq!(count_alive(&u), 0);
}

#[test]
fn block_is_still_life() {
    let mut u = sized(4, 4);
    u.set_cells(&[(1, 1), (1, 2), (2, 1), (2, 2)]);
    u.tick();
    assert_eq!(live_set(&u), vec![(1, 1), (1, 2), (2, 1), (2, 2)]);
}

#[test]
fn cells_packs_bits_into_words() {
    let mut u = sized(40, 1);
    u.set_cells(&[(0, 0), (0, 5), (0, 33)]);
    let words = u.cells();
    assert_eq!(words.len(), 2);
    assert_eq!(words[0], 1 | (1 << 5));
    assert_eq!(words[1], 1 << 1);
}

#[test]
fn default_grid_holds_one_bit_per_cell_in_words() {
    let u = Universe::new();
    assert_eq!(u.cells().len(), 128 * 128 / 32);
}
