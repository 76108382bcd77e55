use toroidal_life::life::GameOfLife;

fn live_cells(g: &GameOfLife) -> Vec<(usize, usize)> {
    let (w, h) = g.dims();
    let mut out = Vec::new();
    for y in 0..h {
        for x in 0..w {
            if g.is_alive(x, y) {
                out.push((x, y));
            }
        }
    }
    out.sort();
    out
}

/// The live cells translated so that their top-left bounding corner is (0, 0).
fn shape(g: &GameOfLife) -> Vec<(usize, usize)> {
    let cells = live_cells(g);
    let minx = cells.iter().map(|c| c.0).min().unwrap();
    let miny = cells.iter().map(|c| c.1).min().unwrap();
    let mut out: Vec<(usize, usize)> = cells.iter().map(|c| (c.0 - minx, c.1 - miny)).collect();
    out.sort();
    out
}

fn seeded(offsets: &[(usize, usize)], ox: usize, oy: usize) -> Vec<(usize, usize)> {
    let mut out: Vec<(usize, usize)> = offsets.iter().map(|&(dx, dy)| (ox + dx, oy + dy)).collect();
    out.sort();
    out
}

#[test]
fn block_seeds_its_four_cells() {
    let mut g = GameOfLife::new(8, 8).unwrap();
    g.spawn_block(3, 3);
    assert_eq!(live_cells(&g), seeded(&[(0, 0), (1, 0), (0, 1), (1, 1)], 3, 3));
}

#[test]
fn block_is_a_still_life() {
    let mut g = GameOfLife::new(8, 8).unwrap();
    g.spawn_block(3, 3);
    let before = live_cells(&g);
    g.step();
    assert_eq!(live_cells(&g), before);
}

#[test]
fn block_wraps_when_seeded_at_the_corner() {
    let mut g = GameOfLife::new(5, 5).unwrap();
    g.spawn_block(4, 4);
    assert_eq!(live_cells(&g), vec![(0, 0), (0, 4), (4, 0), (4, 4)]);
}

#[test]
fn still_lifes_survive_a_step_unchanged() {
    let mut g = GameOfLife::new(40, 12).unwrap();
    g.spawn_beehive(2, 2);
    g.spawn_loaf(10, 2);
    g.spawn_boat(18, 2);
    g.spawn_tub(26, 2);
    let before = live_cells(&g);
    g.step();
    assert_eq!(live_cells(&g), before);
}

#[test]
fn blinker_turns_vertical_then_back() {
    let mut g = GameOfLife::new(5, 5).unwrap();
    g.spawn_blinker(1, 2);
    assert_eq!(live_cells(&g), vec![(1, 2), (2, 2), (3, 2)]);
    g.step();
    assert_eq!(live_cells(&g), vec![(2, 1), (2, 2), (2, 3)]);
    g.step();
    assert_eq!(live_cells(&g), vec![(1, 2), (2, 2), (3, 2)]);
}

#[test]
fn toad_and_beacon_have_period_two() {
    for seed in [
        GameOfLife::spawn_toad as fn(&mut GameOfLife, usize, usize),
        GameOfLife::spawn_beacon,
    ] {
        let mut g = GameOfLife::new(12, 12).unwrap();
        seed(&mut g, 4, 4);
        let start = live_cells(&g);
        g.step();
        assert_ne!(live_cells(&g), start);
        g.step();
        assert_eq!(live_cells(&g), start);
    }
}

#[test]
fn pulsar_has_period_three() {
    let mut g = GameOfLife::new(21, 21).unwrap();
    g.spawn_pulsar(4, 4);
    let start = live_cells(&g);
    for _ in 0..3 {
        g.step();
    }
    assert_eq!(live_cells(&g), start);
}

#[test]
fn pentadecathlon_drawing_settles_into_a_still_life() {
    let mut g = GameOfLife::new(30, 30).unwrap();
    g.spawn_pentadecathlon(13, 10);
    assert_eq!(live_cells(&g).len(), 16);
    // This catalog's drawing is not a phase of the period-15 oscillator: it
    // decays into a stable arrangement of two blocks and a pond.
    for _ in 0..15 {
        g.step();
    }
    let settled = live_cells(&g);
    assert_eq!(settled.len(), 16);
    g.step();
    assert_eq!(live_cells(&g), settled);
}

#[test]
fn glider_translates_one_cell_diagonally_every_four_steps() {
    let mut g = GameOfLife::new(12, 12).unwrap();
    g.spawn_glider(2, 2);
    let start = live_cells(&g);
    for _ in 0..4 {
        g.step();
    }
    let moved: Vec<(usize, usize)> = start.iter().map(|&(x, y)| (x + 1, y + 1)).collect();
    assert_eq!(live_cells(&g), moved);
}

#[test]
fn lwss_keeps_its_shape_and_travels_horizontally() {
    let mut g = GameOfLife::new(30, 12).unwrap();
    g.spawn_lwss(12, 3);
    let start_shape = shape(&g);
    let start_cells = live_cells(&g);
    for _ in 0..4 {
        g.step();
    }
    assert_eq!(shape(&g), start_shape);
    let min_y_before = start_cells.iter().map(|c| c.1).min().unwrap();
    let min_y_after = live_cells(&g).iter().map(|c| c.1).min().unwrap();
    let min_x_before = start_cells.iter().map(|c| c.0).min().unwrap();
    let min_x_after = live_cells(&g).iter().map(|c| c.0).min().unwrap();
    assert_eq!(min_y_before, min_y_after);
    assert_ne!(min_x_before, min_x_after);
}

#[test]
fn hwss_seeds_its_ascii_cells() {
    let mut g = GameOfLife::new(14, 10).unwrap();
    g.spawn_hwss(1, 1);
    let want = seeded(
        &[
            (2, 0),
            (3, 0),
            (4, 0),
            (5, 0),
            (6, 0),
            (1, 1),
            (7, 1),
            (0, 2),
            (7, 2),
            (0, 3),
            (6, 3),
            (1, 4),
            (2, 4),
            (3, 4),
            (4, 4),
            (5, 4),
            (6, 4),
        ],
        1,
        1,
    );
    assert_eq!(live_cells(&g), want);
}

#[test]
fn mwss_seeds_its_ascii_cells() {
    let mut g = GameOfLife::new(12, 10).unwrap();
    g.spawn_mwss(1, 1);
    let want = seeded(
        &[
            (2, 0),
            (3, 0),
            (4, 0),
            (5, 0),
            (1, 1),
            (6, 1),
            (0, 2),
            (6, 2),
            (0, 3),
            (5, 3),
            (1, 4),
            (2, 4),
            (3, 4),
            (4, 4),
            (5, 4),
        ],
        1,
        1,
    );
    assert_eq!(live_cells(&g), want);
}

#[test]
fn diehard_dies_out() {
    let mut g = GameOfLife::new(40, 40).unwrap();
    g.spawn_diehard(15, 15);
    for _ in 0..130 {
        g.step();
    }
    assert!(live_cells(&g).is_empty());
}

#[test]
fn r_pentomino_and_acorn_seed_their_cells() {
    let mut g = GameOfLife::new(10, 10).unwrap();
    g.spawn_r_pentomino(2, 2);
    assert_eq!(
        live_cells(&g),
        seeded(&[(1, 0), (2, 0), (0, 1), (1, 1), (1, 2)], 2, 2)
    );
    let mut g = GameOfLife::new(12, 12).unwrap();
    g.spawn_acorn(2, 2);
    assert_eq!(
        live_cells(&g),
        seeded(&[(1, 0), (3, 1), (0, 2), (1, 2), (4, 2), (5, 2), (6, 2)], 2, 2)
    );
}
