use toroidal_life::life::GameOfLife;
use toroidal_life::life::GridError;

fn live_cells(g: &GameOfLife) -> Vec<(usize, usize)> {
    let (w, h) = g.dims();
    let mut out = Vec::new();
    for y in 0..h {
        for x in 0..w {
            if g.is_alive(x, y) {
                out.push((x, y));
            }
        }
    }
    out.sort();
    out
}

fn grids_equal(a: &GameOfLife, b: &GameOfLife) -> bool {
    a.dims() == b.dims() && live_cells(a) == live_cells(b)
}

#[test]
fn new_rejects_zero_dimensions() {
    assert_eq!(GameOfLife::new(0, 5).err(), Some(GridError::InvalidConfiguration));
    assert_eq!(GameOfLife::new(5, 0).err(), Some(GridError::InvalidConfiguration));
    assert_eq!(GameOfLife::new(0, 0).err(), Some(GridError::InvalidConfiguration));
}

#[test]
fn new_rejects_overflowing_cell_count() {
    assert_eq!(
        GameOfLife::new(usize::MAX, 2).err(),
        Some(GridError::InvalidConfiguration)
    );
}

#[test]
fn new_grid_is_dead_and_unpaused() {
    let g = GameOfLife::new(7, 4).unwrap();
    assert_eq!(g.dims(), (7, 4));
    assert!(live_cells(&g).is_empty());
    assert!(!g.paused);
    assert!(!g.step_once);
    assert_eq!(g.delay_ms, 100);
}

#[test]
fn set_and_read_cells() {
    let mut g = GameOfLife::new(6, 6).unwrap();
    g.set_alive(2, 3);
    assert!(g.is_alive(2, 3));
    assert!(!g.is_alive(3, 2));
    g.set_dead(2, 3);
    assert!(!g.is_alive(2, 3));
}

#[test]
fn out_of_bounds_writes_are_ignored_and_reads_are_dead() {
    let mut g = GameOfLife::new(4, 4).unwrap();
    g.set_alive(4, 0);
    g.set_alive(0, 4);
    g.set_alive(100, 100);
    assert!(live_cells(&g).is_empty());
    assert!(!g.is_alive(4, 0));
    assert!(!g.is_alive(100, 100));
    g.set_alive(1, 1);
    g.set_dead(1, 5);
    assert!(g.is_alive(1, 1));
}

#[test]
fn step_is_deterministic() {
    let mut a = GameOfLife::new(12, 12).unwrap();
    let mut b = GameOfLife::new(12, 12).unwrap();
    a.spawn_r_pentomino(4, 4);
    b.spawn_r_pentomino(4, 4);
    for _ in 0..10 {
        a.step();
        b.step();
        assert!(grids_equal(&a, &b));
    }
}

#[test]
fn neighbor_count_wraps_around_the_corner() {
    let mut g = GameOfLife::new(5, 5).unwrap();
    g.set_alive(0, 0);
    g.set_alive(4, 4);
    assert_eq!(g.live_neighbors(0, 0), 1);
    assert_eq!(g.live_neighbors(4, 4), 1);
}

#[test]
fn neighbor_count_wraps_on_all_edges() {
    let mut g = GameOfLife::new(5, 5).unwrap();
    g.set_alive(4, 2);
    assert_eq!(g.live_neighbors(0, 2), 1);
    let mut g = GameOfLife::new(5, 5).unwrap();
    g.set_alive(2, 4);
    assert_eq!(g.live_neighbors(2, 0), 1);
}

#[test]
fn neighbor_count_in_the_interior() {
    let mut g = GameOfLife::new(6, 6).unwrap();
    for y in 2..5 {
        for x in 2..5 {
            g.set_alive(x, y);
        }
    }
    assert_eq!(g.live_neighbors(3, 3), 8);
    assert_eq!(g.live_neighbors(2, 2), 3);
}

#[test]
fn lone_cell_dies_of_underpopulation() {
    let mut g = GameOfLife::new(5, 5).unwrap();
    g.set_alive(2, 2);
    g.step();
    assert!(live_cells(&g).is_empty());
}

#[test]
fn crowded_cell_dies_of_overpopulation() {
    let mut g = GameOfLife::new(7, 7).unwrap();
    for y in 2..5 {
        for x in 2..5 {
            g.set_alive(x, y);
        }
    }
    g.step();
    assert!(!g.is_alive(3, 3));
}

#[test]
fn dead_cell_with_three_neighbors_is_born() {
    let mut g = GameOfLife::new(6, 6).unwrap();
    g.set_alive(1, 1);
    g.set_alive(1, 2);
    g.set_alive(1, 3);
    assert_eq!(g.live_neighbors(2, 2), 3);
    g.step();
    assert!(g.is_alive(2, 2));
}

#[test]
fn dead_cell_with_two_or_four_neighbors_stays_dead() {
    let mut g = GameOfLife::new(6, 6).unwrap();
    g.set_alive(1, 1);
    g.set_alive(1, 2);
    assert_eq!(g.live_neighbors(2, 3), 1);
    assert_eq!(g.live_neighbors(2, 2), 2);
    g.step();
    assert!(!g.is_alive(2, 2));

    let mut g = GameOfLife::new(6, 6).unwrap();
    g.set_alive(1, 1);
    g.set_alive(1, 2);
    g.set_alive(1, 3);
    g.set_alive(3, 1);
    assert_eq!(g.live_neighbors(2, 2), 4);
    g.step();
    assert!(!g.is_alive(2, 2));
}

#[test]
fn randomize_zero_and_one_are_degenerate() {
    let mut g = GameOfLife::new(40, 40).unwrap();
    g.randomize(1, 1);
    assert_eq!(live_cells(&g).len(), 40 * 40);
    g.randomize(0, 1);
    assert!(live_cells(&g).is_empty());
    g.randomize(5, 5);
    assert_eq!(live_cells(&g).len(), 40 * 40);
}

#[test]
fn randomize_fraction_tracks_the_probability() {
    let mut g = GameOfLife::new(100, 100).unwrap();
    let mut total: u64 = 0;
    let trials = 20;
    for _ in 0..trials {
        g.randomize(1, 5);
        total += live_cells(&g).len() as u64;
    }
    let mean = total as f64 / (trials as f64 * 10000.0);
    assert!(
        (mean - 0.2).abs() < 0.05,
        "live fraction {} too far from 0.2",
        mean
    );
}

#[test]
fn clear_kills_every_cell_and_is_idempotent() {
    let mut g = GameOfLife::new(30, 30).unwrap();
    g.randomize(1, 2);
    g.clear();
    let (w, h) = g.dims();
    for y in 0..h {
        for x in 0..w {
            assert!(!g.is_alive(x, y));
        }
    }
    g.clear();
    assert!(live_cells(&g).is_empty());
    assert_eq!(g.dims(), (30, 30));
}

#[test]
fn cells_view_matches_is_alive() {
    let mut g = GameOfLife::new(5, 4).unwrap();
    g.set_alive(1, 2);
    g.set_alive(4, 3);
    let v = g.cells();
    assert_eq!(v.len(), 20);
    for y in 0..4 {
        for x in 0..5 {
            let expected = if g.is_alive(x, y) { 1u8 } else { 0u8 };
            assert_eq!(v[y * 5 + x], expected);
        }
    }
}

#[test]
fn spawn_seeds_offsets_with_wrap_and_is_additive() {
    let mut g = GameOfLife::new(5, 5).unwrap();
    g.set_alive(2, 2);
    let offsets = [(0usize, 0usize), (1, 0), (0, 1), (1, 1)];
    g.spawn(&offsets, 4, 4);
    let mut want = vec![(0, 0), (0, 4), (2, 2), (4, 0), (4, 4)];
    want.sort();
    assert_eq!(live_cells(&g), want);
}

#[test]
fn spawn_pattern_ascii_reads_rows_and_marker() {
    let mut g = GameOfLife::new(6, 6).unwrap();
    g.spawn_pattern_ascii(1, 1, "##\n.#\nx#", '#');
    let mut want = vec![(1, 1), (2, 1), (2, 2), (2, 3)];
    want.sort();
    assert_eq!(live_cells(&g), want);
}

#[test]
fn spawn_pattern_ascii_wraps_and_ignores_other_markers() {
    let mut g = GameOfLife::new(3, 3).unwrap();
    g.spawn_pattern_ascii(2, 2, "#.#\n..#", '#');
    let mut want = vec![(1, 2), (1, 0), (2, 2)];
    want.sort();
    assert_eq!(live_cells(&g), want);
}

