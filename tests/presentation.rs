use conway_life::driver::{Action, Driver};
use conway_life::frames::{downsample, frame_palette};
use conway_life::grid::{Cell, Grid};
use conway_life::render::{render, ALIVE_COLOR, DEAD_COLOR};
use conway_life::seed::{initialize_random, seed_from_samples, LIVE_THRESHOLD};

fn pattern(width: usize, height: usize, f: impl Fn(usize, usize) -> bool) -> Grid {
    let mut g = Grid::new(width, height);
    for y in 0..height {
        for x in 0..width {
            if f(x, y) {
                g.set(x, y, Cell::Alive);
            }
        }
    }
    g
}

#[test]
fn downsample_checkerboard_takes_top_left() {
    let g = pattern(4, 4, |x, y| (x + y) % 2 == 0);
    assert_eq!(downsample(&g, 2), vec![1, 1, 1, 1]);
    let g = pattern(4, 4, |x, y| (x + y) % 2 == 1);
    assert_eq!(downsample(&g, 2), vec![0, 0, 0, 0]);
    let g = pattern(4, 4, |x, y| (x / 2 + y / 2) % 2 == 0);
    assert_eq!(downsample(&g, 2), vec![1, 0, 0, 1]);
}

#[test]
fn downsample_drops_partial_blocks() {
    let g = pattern(5, 3, |x, y| x == 2 && y == 0);
    assert_eq!(downsample(&g, 2), vec![0, 1]);
    assert_eq!(downsample(&g, 1).len(), 15);
    assert_eq!(downsample(&g, 4), Vec::<u8>::new());
}

#[test]
fn palette_is_dead_then_alive() {
    assert_eq!(frame_palette(), vec![0xFF, 0xC0, 0xCB, 0x13, 0xF1, 0xED]);
}

#[test]
fn render_paints_blocks() {
    let g = pattern(2, 1, |x, _| x == 0);
    let mut buf = vec![7u32; 8];
    render(&g, &mut buf, 4, 2);
    let a = ALIVE_COLOR;
    let d = DEAD_COLOR;
    assert_eq!(buf, vec![a, a, d, d, a, a, d, d]);
}

#[test]
fn render_repaints_every_pixel() {
    let g = pattern(2, 2, |x, y| x == 1 && y == 1);
    let mut buf = vec![0u32; 4];
    render(&g, &mut buf, 2, 1);
    assert_eq!(buf, vec![DEAD_COLOR, DEAD_COLOR, DEAD_COLOR, ALIVE_COLOR]);
    assert_eq!(ALIVE_COLOR, 0x13F1ED);
    assert_eq!(DEAD_COLOR, 0xFFC0CB);
}

#[test]
fn frames_recorded_every_third_tick() {
    let mut g = pattern(5, 5, |x, y| y == 2 && (1..=3).contains(&x));
    let mut d = Driver::new(3);
    let mut recorded = Vec::new();
    for tick in 0..10u64 {
        match d.poll(&mut g, true, false, true) {
            Action::Repaint { advanced, record_frame } => {
                assert!(advanced);
                if record_frame {
                    recorded.push(tick);
                }
            }
            Action::Exit => panic!("unexpected exit"),
        }
    }
    assert_eq!(recorded, vec![0, 3, 6, 9]);
    assert_eq!(d.frame_count, 10);
}

#[test]
fn driver_waits_then_exits_for_good() {
    let mut g = pattern(5, 5, |x, y| y == 2 && (1..=3).contains(&x));
    let before = g.cells.clone();
    let mut d = Driver::new(3);
    assert_eq!(
        d.poll(&mut g, true, false, false),
        Action::Repaint { advanced: false, record_frame: false }
    );
    assert_eq!(g.cells, before);
    assert_eq!(d.poll(&mut g, true, true, true), Action::Exit);
    assert!(d.exiting);
    assert_eq!(d.poll(&mut g, true, false, true), Action::Exit);
    assert_eq!(g.cells, before);
    let mut d = Driver::new(3);
    assert_eq!(d.poll(&mut g, false, false, true), Action::Exit);
}

#[test]
fn seeding_follows_samples() {
    let mut g = Grid::new(2, 2);
    seed_from_samples(&mut g, &vec![0, LIVE_THRESHOLD, LIVE_THRESHOLD - 1, u32::MAX], LIVE_THRESHOLD);
    assert_eq!(g.cells, vec![Cell::Alive, Cell::Dead, Cell::Alive, Cell::Dead]);
}

#[test]
fn random_seeding_keeps_dimensions() {
    let mut g = Grid::new(10, 7);
    initialize_random(&mut g);
    assert_eq!(g.width, 10);
    assert_eq!(g.height, 7);
    assert_eq!(g.cells.len(), 70);
}
