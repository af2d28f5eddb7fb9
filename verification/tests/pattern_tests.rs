use game_of_life::framebuffer::Framebuffer;
use game_of_life::life::update;
use game_of_life::patterns::add_pattern;
use game_of_life::patterns::initialize_pattern;
use game_of_life::patterns::stamp_tile;
use game_of_life::patterns::COLOR_OSCILLATOR;
use game_of_life::patterns::COLOR_SPACESHIP;
use game_of_life::patterns::COLOR_STILL_LIFE;
use game_of_life::patterns::TILE;
use game_of_life::shapes::beacon;
use game_of_life::shapes::beehive;
use game_of_life::shapes::blinker;
use game_of_life::shapes::block;
use game_of_life::shapes::boat;
use game_of_life::shapes::glider;
use game_of_life::shapes::hwss;
use game_of_life::shapes::loaf;
use game_of_life::shapes::lwss;
use game_of_life::shapes::mwss;
use game_of_life::shapes::pentadecathlon;
use game_of_life::shapes::pulsar;
use game_of_life::shapes::toad;
use game_of_life::shapes::tub;

fn plain_stamp(
    cells: &mut Vec<u32>,
    width: usize,
    height: usize,
    pattern: &[(usize, usize)],
    x_offset: usize,
    y_offset: usize,
    color: u32,
) {
    for &(x, y) in pattern {
        let px = x + x_offset;
        let py = y + y_offset;
        if px < width && py < height {
            cells[py * width + px] = color;
        }
    }
}

fn plain_seed(cells: &mut Vec<u32>, width: usize, height: usize) {
    let mut i = 0;
    while i < width {
        let mut j = 0;
        while j < height {
            plain_stamp(cells, width, height, &[(0, 0), (1, 0), (0, 1), (1, 1)], i, j, 0x00FF00);
            plain_stamp(
                cells, width, height,
                &[(0, 1), (1, 0), (2, 0), (3, 1), (1, 2), (2, 2)],
                i + 7, j, 0x00FF00,
            );
            plain_stamp(
                cells, width, height,
                &[(2, 0), (3, 1), (3, 2), (1, 1), (0, 2), (1, 3), (2, 3)],
                i + 14, j, 0x00FF00,
            );
            plain_stamp(
                cells, width, height,
                &[(0, 0), (1, 0), (0, 1), (2, 1), (1, 2)],
                i + 21, j, 0x00FF00,
            );
            plain_stamp(cells, width, height, &[(1, 0), (0, 1), (2, 1), (1, 2)], i, j + 7, 0x00FF00);
            plain_stamp(cells, width, height, &[(0, 0), (1, 0), (2, 0)], i + 7, j + 7, 0xFFFF00);
            plain_stamp(
                cells, width, height,
                &[(1, 0), (2, 0), (3, 0), (0, 1), (1, 1), (2, 1)],
                i + 14, j + 7, 0xFFFF00,
            );
            plain_stamp(
                cells, width, height,
                &[(0, 0), (1, 0), (0, 1), (1, 1), (2, 2), (3, 2), (2, 3), (3, 3)],
                i + 21, j + 7, 0xFFFF00,
            );
            plain_stamp(
                cells, width, height,
                &[
                    (2, 0), (3, 0), (4, 0), (8, 0), (9, 0), (10, 0),
                    (0, 2), (5, 2), (7, 2), (12, 2), (0, 3), (5, 3),
                    (7, 3), (12, 3), (0, 4), (5, 4), (7, 4), (12, 4),
                    (2, 5), (3, 5), (4, 5), (8, 5), (9, 5), (10, 5),
                    (2, 7), (3, 7), (4, 7), (8, 7), (9, 7), (10, 7),
                    (0, 8), (5, 8), (7, 8), (12, 8), (0, 9), (5, 9),
                    (7, 9), (12, 9), (0, 10), (5, 10), (7, 10), (12, 10),
                    (2, 12), (3, 12), (4, 12), (8, 12), (9, 12), (10, 12),
                ],
                i, j + 14, 0xFFFF00,
            );
            plain_stamp(
                cells, width, height,
                &[
                    (0, 0), (1, 0), (2, 0), (3, 1), (3, 2), (2, 3), (1, 3),
                    (0, 3), (2, 4), (1, 4), (0, 4), (3, 5), (3, 6), (2, 7),
                    (1, 7), (0, 7), (1, 8), (2, 8), (3, 9), (0, 9),
                ],
                i + 7, j + 14, 0xFFFF00,
            );
            plain_stamp(
                cells, width, height,
                &[(1, 0), (2, 1), (0, 2), (1, 2), (2, 2)],
                i + 14, j + 14, 0xFF00FF,
            );
            plain_stamp(
                cells, width, height,
                &[(0, 0), (1, 0), (2, 0), (3, 0), (4, 1), (0, 1), (0, 2), (3, 2), (1, 3)],
                i + 21, j + 14, 0xFF00FF,
            );
            plain_stamp(
                cells, width, height,
                &[(0, 0), (1, 0), (2, 0), (3, 0), (4, 0), (5, 1), (0, 1), (0, 2), (4, 3), (1, 4)],
                i, j + 21, 0xFF00FF,
            );
            plain_stamp(
                cells, width, height,
                &[
                    (0, 0), (1, 0), (2, 0), (3, 0), (4, 0), (5, 0), (5, 1), (0, 1), (0, 2),
                    (4, 3), (1, 4), (2, 4), (3, 4), (4, 4), (5, 4), (6, 4), (0, 3),
                ],
                i + 7, j + 21, 0xFF00FF,
            );
            j += 30;
        }
        i += 30;
    }
}

#[test]
fn colours_of_the_shape_classes() {
    assert_eq!(COLOR_STILL_LIFE, 0x00FF00);
    assert_eq!(COLOR_OSCILLATOR, 0xFFFF00);
    assert_eq!(COLOR_SPACESHIP, 0xFF00FF);
    assert_eq!(TILE, 30);
}

#[test]
fn shapes_hold_their_offsets() {
    assert_eq!(block(), vec![(0, 0), (1, 0), (0, 1), (1, 1)]);
    assert_eq!(beehive(), vec![(0, 1), (1, 0), (2, 0), (3, 1), (1, 2), (2, 2)]);
    assert_eq!(loaf(), vec![(2, 0), (3, 1), (3, 2), (1, 1), (0, 2), (1, 3), (2, 3)]);
    assert_eq!(boat(), vec![(0, 0), (1, 0), (0, 1), (2, 1), (1, 2)]);
    assert_eq!(tub(), vec![(1, 0), (0, 1), (2, 1), (1, 2)]);
    assert_eq!(blinker(), vec![(0, 0), (1, 0), (2, 0)]);
    assert_eq!(toad(), vec![(1, 0), (2, 0), (3, 0), (0, 1), (1, 1), (2, 1)]);
    assert_eq!(
        beacon(),
        vec![(0, 0), (1, 0), (0, 1), (1, 1), (2, 2), (3, 2), (2, 3), (3, 3)]
    );
    assert_eq!(glider(), vec![(1, 0), (2, 1), (0, 2), (1, 2), (2, 2)]);
    assert_eq!(
        lwss(),
        vec![(0, 0), (1, 0), (2, 0), (3, 0), (4, 1), (0, 1), (0, 2), (3, 2), (1, 3)]
    );
    assert_eq!(
        mwss(),
        vec![(0, 0), (1, 0), (2, 0), (3, 0), (4, 0), (5, 1), (0, 1), (0, 2), (4, 3), (1, 4)]
    );
    assert_eq!(
        hwss(),
        vec![
            (0, 0), (1, 0), (2, 0), (3, 0), (4, 0), (5, 0), (5, 1), (0, 1), (0, 2),
            (4, 3), (1, 4), (2, 4), (3, 4), (4, 4), (5, 4), (6, 4), (0, 3),
        ]
    );
    assert_eq!(
        pentadecathlon(),
        vec![
            (0, 0), (1, 0), (2, 0), (3, 1), (3, 2), (2, 3), (1, 3),
            (0, 3), (2, 4), (1, 4), (0, 4), (3, 5), (3, 6), (2, 7),
            (1, 7), (0, 7), (1, 8), (2, 8), (3, 9), (0, 9),
        ]
    );
    let p = pulsar();
    assert_eq!(p.len(), 48);
    assert_eq!(p[0], (2, 0));
    assert_eq!(p[6], (0, 2));
    assert_eq!(p[23], (10, 5));
    assert_eq!(p[47], (10, 12));
}

#[test]
fn add_pattern_writes_each_offset_from_the_anchor() {
    let mut fb = Framebuffer::new(6, 5);
    add_pattern(&mut fb, &[(0, 0), (2, 1), (1, 2)], 3, 1, 0xAA);
    let mut expected = vec![0u32; 30];
    expected[1 * 6 + 3] = 0xAA;
    expected[2 * 6 + 5] = 0xAA;
    expected[3 * 6 + 4] = 0xAA;
    assert_eq!(fb.buffer, expected);
}

#[test]
fn add_pattern_keeps_cells_it_does_not_cover() {
    let mut fb = Framebuffer::new(4, 4);
    fb.point(3, 3, 7);
    fb.point(0, 0, 8);
    add_pattern(&mut fb, &block(), 0, 0, 0x55);
    assert_eq!(fb.get(0, 0), 0x55);
    assert_eq!(fb.get(1, 0), 0x55);
    assert_eq!(fb.get(0, 1), 0x55);
    assert_eq!(fb.get(1, 1), 0x55);
    assert_eq!(fb.get(3, 3), 7);
    assert_eq!(fb.buffer.iter().filter(|&&c| c != 0).count(), 5);
}

#[test]
fn add_pattern_clips_at_the_edges() {
    let mut fb = Framebuffer::new(4, 4);
    add_pattern(&mut fb, &block(), 3, 3, 0x55);
    let mut expected = vec![0u32; 16];
    expected[15] = 0x55;
    assert_eq!(fb.buffer, expected);
    let mut fb = Framebuffer::new(4, 4);
    add_pattern(&mut fb, &block(), 4, 0, 0x55);
    assert_eq!(fb.buffer, vec![0u32; 16]);
    add_pattern(&mut fb, &block(), 3, 0, 0x55);
    assert_eq!(fb.get(3, 0), 0x55);
    assert_eq!(fb.get(3, 1), 0x55);
    assert_eq!(fb.get(0, 1), 0);
    assert_eq!(fb.get(0, 2), 0);
}

#[test]
fn add_pattern_with_offsets_past_every_grid() {
    let mut fb = Framebuffer::new(4, 4);
    fb.point(1, 1, 3);
    let before = fb.buffer.clone();
    add_pattern(&mut fb, &block(), usize::MAX, 0, 0x55);
    add_pattern(&mut fb, &block(), 0, usize::MAX, 0x55);
    add_pattern(&mut fb, &block(), usize::MAX, usize::MAX, 0x55);
    assert_eq!(fb.buffer, before);
}

#[test]
fn add_pattern_with_no_offsets_changes_nothing() {
    let mut fb = Framebuffer::new(3, 3);
    fb.point(1, 1, 3);
    let before = fb.buffer.clone();
    add_pattern(&mut fb, &[], 0, 0, 0x55);
    assert_eq!(fb.buffer, before);
}

#[test]
fn add_pattern_with_colour_zero_erases() {
    let mut fb = Framebuffer::new(3, 3);
    add_pattern(&mut fb, &blinker(), 0, 1, 9);
    assert_eq!(fb.buffer, vec![0, 0, 0, 9, 9, 9, 0, 0, 0]);
    add_pattern(&mut fb, &[(1, 0)], 0, 1, 0);
    assert_eq!(fb.buffer, vec![0, 0, 0, 9, 0, 9, 0, 0, 0]);
}

#[test]
fn stamped_block_is_stable_and_stamped_blinker_returns() {
    let mut fb = Framebuffer::new(8, 8);
    add_pattern(&mut fb, &block(), 3, 3, COLOR_STILL_LIFE);
    assert_eq!(update(&fb).buffer, fb.buffer);
    let mut fb = Framebuffer::new(8, 8);
    add_pattern(&mut fb, &blinker(), 2, 3, 0xFFFFFF);
    let once = update(&fb);
    assert_ne!(once.buffer, fb.buffer);
    assert_eq!(update(&once).buffer, fb.buffer);
}

#[test]
fn still_lifes_of_the_tile_are_stable() {
    for shape in [block(), beehive(), loaf(), boat(), tub()] {
        let mut fb = Framebuffer::new(10, 10);
        add_pattern(&mut fb, &shape, 3, 3, COLOR_STILL_LIFE);
        assert_eq!(update(&fb).buffer, fb.buffer);
    }
}

#[test]
fn stamp_tile_lays_one_tile() {
    let mut fb = Framebuffer::new(70, 70);
    stamp_tile(&mut fb, 30, 30);
    assert_eq!(fb.get(30, 30), COLOR_STILL_LIFE);
    assert_eq!(fb.get(31, 31), COLOR_STILL_LIFE);
    assert_eq!(fb.get(37, 37), COLOR_OSCILLATOR);
    assert_eq!(fb.get(45, 44), COLOR_SPACESHIP);
    assert_eq!(fb.get(0, 0), 0);
    assert_eq!(fb.get(60, 60), 0);
    for y in 0..70 {
        for x in 0..70 {
            if !(30..60).contains(&x) || !(30..60).contains(&y) {
                assert_eq!(fb.get(x, y), 0);
            }
        }
    }
}

#[test]
fn later_shape_shows_where_two_shapes_meet() {
    let mut fb = Framebuffer::new(30, 30);
    stamp_tile(&mut fb, 0, 0);
    assert_eq!(fb.get(5, 22), COLOR_SPACESHIP);
    assert_eq!(fb.get(0, 22), COLOR_SPACESHIP);
    assert_eq!(fb.get(8, 14), COLOR_OSCILLATOR);
    assert_eq!(fb.get(12, 22), COLOR_SPACESHIP);
    assert_eq!(fb.get(12, 23), COLOR_OSCILLATOR);
}

#[test]
fn seeding_fills_the_grid_with_tiles() {
    let mut fb = Framebuffer::new(200, 200);
    initialize_pattern(&mut fb);
    let mut expected = vec![0u32; 200 * 200];
    plain_seed(&mut expected, 200, 200);
    assert_eq!(fb.buffer, expected);
    assert_eq!(fb.width, 200);
    assert_eq!(fb.height, 200);
    assert_eq!(fb.get(0, 0), 0x00FF00);
    assert_eq!(fb.get(7, 7), 0xFFFF00);
    assert_eq!(fb.get(15, 14), 0xFF00FF);
    assert_eq!(fb.get(180, 180), 0x00FF00);
    assert_eq!(fb.get(2, 0), 0);
    assert_eq!(fb.get(29, 29), 0);
}

#[test]
fn seeding_repeats_every_thirty_cells() {
    let mut fb = Framebuffer::new(95, 65);
    initialize_pattern(&mut fb);
    for y in 0..65 {
        for x in 0..95 {
            assert_eq!(fb.get(x, y), fb.get(x % 30, y % 30));
        }
    }
}

#[test]
fn seeding_clips_the_last_tiles() {
    let mut fb = Framebuffer::new(40, 35);
    initialize_pattern(&mut fb);
    let mut expected = vec![0u32; 40 * 35];
    plain_seed(&mut expected, 40, 35);
    assert_eq!(fb.buffer, expected);
    assert_eq!(fb.get(30, 30), 0x00FF00);
    assert_eq!(fb.get(38, 30), 0x00FF00);
    assert_eq!(fb.get(39, 30), 0x00FF00);
    assert_eq!(fb.get(0, 31), 0x00FF00);
}

#[test]
fn seeding_a_grid_smaller_than_a_tile() {
    let mut fb = Framebuffer::new(3, 2);
    initialize_pattern(&mut fb);
    assert_eq!(fb.buffer, vec![0x00FF00, 0x00FF00, 0, 0x00FF00, 0x00FF00, 0]);
    let mut fb = Framebuffer::new(1, 1);
    initialize_pattern(&mut fb);
    assert_eq!(fb.buffer, vec![0x00FF00]);
}

#[test]
fn seeding_an_empty_grid() {
    let mut fb = Framebuffer::new(0, 0);
    initialize_pattern(&mut fb);
    assert_eq!(fb.buffer.len(), 0);
    let mut fb = Framebuffer::new(5, 0);
    initialize_pattern(&mut fb);
    assert_eq!(fb.buffer.len(), 0);
}

#[test]
fn seeding_keeps_what_the_tile_leaves_empty() {
    let mut fb = Framebuffer::new(60, 60);
    fb.point(29, 29, 7);
    fb.point(2, 0, 9);
    fb.point(0, 0, 11);
    initialize_pattern(&mut fb);
    assert_eq!(fb.get(29, 29), 7);
    assert_eq!(fb.get(2, 0), 9);
    assert_eq!(fb.get(0, 0), 0x00FF00);
    assert_eq!(fb.get(59, 59), 0);
}

#[test]
fn seeding_is_deterministic() {
    let mut a = Framebuffer::new(64, 48);
    let mut b = Framebuffer::new(64, 48);
    initialize_pattern(&mut a);
    initialize_pattern(&mut b);
    assert_eq!(a.buffer, b.buffer);
    initialize_pattern(&mut a);
    assert_eq!(a.buffer, b.buffer);
}
