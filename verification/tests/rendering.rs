use toroidal_life::framebuffer::Framebuffer;
use toroidal_life::framebuffer::ALIVE;
use toroidal_life::framebuffer::DEAD;
use toroidal_life::life::GameOfLife;

#[test]
fn new_framebuffer_is_dead_colored() {
    let fb = Framebuffer::new(6, 4);
    assert_eq!(fb.dims(), (6, 4));
    for y in 0..4 {
        for x in 0..6 {
            assert_eq!(fb.get_color(x, y), DEAD);
        }
    }
    assert_eq!(fb.buffer().len(), 24);
}

#[test]
fn point_draws_one_pixel_and_ignores_out_of_bounds() {
    let mut fb = Framebuffer::new(4, 4);
    fb.point(2, 1, 0xFF123456);
    assert_eq!(fb.get_color(2, 1), 0xFF123456);
    assert_eq!(fb.get_color(1, 2), DEAD);
    fb.point(4, 0, ALIVE);
    fb.point(0, 4, ALIVE);
    for y in 0..4 {
        for x in 0..4 {
            if (x, y) != (2, 1) {
                assert_eq!(fb.get_color(x, y), DEAD);
            }
        }
    }
}

#[test]
fn get_color_out_of_bounds_reads_dead() {
    let mut fb = Framebuffer::new(3, 3);
    fb.clear(ALIVE);
    assert_eq!(fb.get_color(3, 0), DEAD);
    assert_eq!(fb.get_color(0, 3), DEAD);
    assert_eq!(fb.get_color(0, 0), ALIVE);
}

#[test]
fn clear_fills_every_pixel() {
    let mut fb = Framebuffer::new(5, 5);
    fb.point(1, 1, 0xFFABCDEF);
    fb.clear(0xFF00FF00);
    for y in 0..5 {
        for x in 0..5 {
            assert_eq!(fb.get_color(x, y), 0xFF00FF00);
        }
    }
}

#[test]
fn render_maps_cells_to_colors() {
    let mut g = GameOfLife::new(4, 4).unwrap();
    g.set_alive(1, 2);
    g.set_alive(0, 0);
    let mut fb = Framebuffer::new(4, 4);
    g.render_to(&mut fb);
    for y in 0..4 {
        for x in 0..4 {
            let want = if g.is_alive(x, y) { ALIVE } else { DEAD };
            assert_eq!(fb.get_color(x, y), want);
        }
    }
    assert_eq!(fb.buffer()[2 * 4 + 1], ALIVE);
}

#[test]
fn render_leaves_pixels_outside_the_grid_alone() {
    let mut g = GameOfLife::new(2, 2).unwrap();
    g.set_alive(0, 0);
    let mut fb = Framebuffer::new(4, 4);
    fb.clear(0xFF777777);
    g.render_to(&mut fb);
    assert_eq!(fb.get_color(0, 0), ALIVE);
    assert_eq!(fb.get_color(1, 0), DEAD);
    assert_eq!(fb.get_color(3, 3), 0xFF777777);
    assert_eq!(fb.get_color(2, 0), 0xFF777777);
}

#[test]
fn render_into_a_smaller_buffer_covers_the_overlap() {
    let mut g = GameOfLife::new(4, 4).unwrap();
    g.set_alive(1, 1);
    g.set_alive(3, 3);
    let mut fb = Framebuffer::new(2, 2);
    g.render_to(&mut fb);
    assert_eq!(fb.get_color(1, 1), ALIVE);
    assert_eq!(fb.get_color(0, 0), DEAD);
    assert_eq!(fb.get_color(3, 3), DEAD);
}
