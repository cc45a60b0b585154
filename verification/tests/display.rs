use chip8::{FrameBuffer, DISPLAY_HEIGHT, DISPLAY_WIDTH};

fn lit(fb: &FrameBuffer) -> Vec<(usize, usize)> {
    let mut on = Vec::new();
    for y in 0..DISPLAY_HEIGHT {
        for x in 0..DISPLAY_WIDTH {
            if fb.pixel(x, y) {
                on.push((x, y));
            }
        }
    }
    on
}

fn snapshot(fb: &FrameBuffer) -> Vec<bool> {
    let mut cells = Vec::new();
    for y in 0..DISPLAY_HEIGHT {
        for x in 0..DISPLAY_WIDTH {
            cells.push(fb.pixel(x, y));
        }
    }
    cells
}

#[test]
fn display_is_64_by_32() {
    assert_eq!(DISPLAY_WIDTH, 64);
    assert_eq!(DISPLAY_HEIGHT, 32);
}

#[test]
fn new_frame_buffer_is_dark_and_unchanged() {
    let fb = FrameBuffer::new();
    assert!(lit(&fb).is_empty());
    assert!(!fb.is_changed());
}

#[test]
fn draw_sets_bits_most_significant_first() {
    let mut fb = FrameBuffer::new();
    let collision = fb.draw_sprite(0, 0, &[0b1010_0001]);
    assert!(!collision);
    assert_eq!(lit(&fb), vec![(0, 0), (2, 0), (7, 0)]);
    assert!(fb.is_changed());
}

#[test]
fn draw_puts_rows_below_each_other() {
    let mut fb = FrameBuffer::new();
    fb.draw_sprite(10, 5, &[0x80, 0x40, 0x20]);
    assert_eq!(lit(&fb), vec![(10, 5), (11, 6), (12, 7)]);
}

#[test]
fn draw_glyph_zero() {
    let mut fb = FrameBuffer::new();
    fb.draw_sprite(4, 2, &[0xF0, 0x90, 0x90, 0x90, 0xF0]);
    let expected = vec![
        (4, 2), (5, 2), (6, 2), (7, 2),
        (4, 3), (7, 3),
        (4, 4), (7, 4),
        (4, 5), (7, 5),
        (4, 6), (5, 6), (6, 6), (7, 6),
    ];
    assert_eq!(lit(&fb), expected);
}

#[test]
fn draw_wraps_columns_at_the_right_edge() {
    let mut fb = FrameBuffer::new();
    let collision = fb.draw_sprite(63, 0, &[0b1100_0000]);
    assert!(!collision);
    assert!(fb.pixel(63, 0));
    assert!(fb.pixel(0, 0));
    assert_eq!(lit(&fb), vec![(0, 0), (63, 0)]);
}

#[test]
fn draw_wraps_a_full_row_around_the_right_edge() {
    let mut fb = FrameBuffer::new();
    fb.draw_sprite(60, 3, &[0xFF]);
    assert_eq!(
        lit(&fb),
        vec![(0, 3), (1, 3), (2, 3), (3, 3), (60, 3), (61, 3), (62, 3), (63, 3)]
    );
}

#[test]
fn draw_wraps_rows_at_the_bottom_edge() {
    let mut fb = FrameBuffer::new();
    fb.draw_sprite(0, 31, &[0x80, 0x80]);
    assert_eq!(lit(&fb), vec![(0, 0), (0, 31)]);
}

#[test]
fn draw_takes_coordinates_modulo_the_display() {
    let mut a = FrameBuffer::new();
    let mut b = FrameBuffer::new();
    a.draw_sprite(64 + 5, 32 * 3 + 7, &[0xF0, 0x0F]);
    b.draw_sprite(5, 7, &[0xF0, 0x0F]);
    assert_eq!(snapshot(&a), snapshot(&b));
    let mut c = FrameBuffer::new();
    c.draw_sprite(255, 255, &[0x80]);
    assert_eq!(lit(&c), vec![(63, 31)]);
}

#[test]
fn draw_is_exclusive_or() {
    let mut fb = FrameBuffer::new();
    assert!(!fb.draw_sprite(0, 0, &[0b1111_0000]));
    assert!(fb.draw_sprite(0, 0, &[0b0011_1100]));
    assert_eq!(lit(&fb), vec![(0, 0), (1, 0), (4, 0), (5, 0)]);
}

#[test]
fn collision_only_when_a_lit_pixel_goes_dark() {
    let mut fb = FrameBuffer::new();
    assert!(!fb.draw_sprite(0, 0, &[0b1000_0000]));
    assert!(!fb.draw_sprite(0, 0, &[0b0100_0000]));
    assert!(!fb.draw_sprite(0, 1, &[0b1000_0000]));
    assert!(fb.draw_sprite(0, 0, &[0b0100_0001]));
    assert_eq!(lit(&fb), vec![(0, 0), (7, 0), (0, 1)]);
}

#[test]
fn collision_in_an_early_row_is_not_forgotten() {
    let mut fb = FrameBuffer::new();
    fb.draw_sprite(8, 8, &[0x80]);
    let collision = fb.draw_sprite(8, 8, &[0x80, 0x00, 0x00, 0xFF]);
    assert!(collision);
}

#[test]
fn collision_across_the_wrap() {
    let mut fb = FrameBuffer::new();
    fb.draw_sprite(0, 0, &[0x80]);
    assert!(fb.draw_sprite(62, 0, &[0b0010_0000]));
    assert!(lit(&fb).is_empty());
}

#[test]
fn drawing_twice_restores_the_pixels() {
    let mut fb = FrameBuffer::new();
    fb.draw_sprite(3, 3, &[0xFF, 0x81, 0xFF]);
    fb.draw_sprite(60, 30, &[0xAA, 0x55, 0xAA]);
    let before = snapshot(&fb);
    let sprite = [0x3C, 0x42, 0x81, 0x81, 0x42, 0x3C, 0xFF, 0x01, 0x80];
    let first = fb.draw_sprite(61, 28, &sprite);
    assert_ne!(snapshot(&fb), before);
    let second = fb.draw_sprite(61, 28, &sprite);
    assert_eq!(snapshot(&fb), before);
    assert!(first);
    assert!(second);
}

#[test]
fn second_draw_collides_where_the_screen_was_dark() {
    let mut fb = FrameBuffer::new();
    assert!(!fb.draw_sprite(0, 0, &[0x80]));
    assert!(fb.draw_sprite(0, 0, &[0x80]));
    assert!(lit(&fb).is_empty());
}

#[test]
fn second_draw_does_not_collide_where_every_covered_pixel_was_lit() {
    let mut fb = FrameBuffer::new();
    fb.draw_sprite(0, 0, &[0xFF]);
    assert!(fb.draw_sprite(0, 0, &[0xF0]));
    assert!(!fb.draw_sprite(0, 0, &[0xF0]));
    assert_eq!(lit(&fb).len(), 8);
}

#[test]
fn empty_sprite_draws_nothing_but_marks_changed() {
    let mut fb = FrameBuffer::new();
    assert!(!fb.draw_sprite(1, 1, &[]));
    assert!(lit(&fb).is_empty());
    assert!(fb.is_changed());
}

#[test]
fn blank_rows_draw_nothing() {
    let mut fb = FrameBuffer::new();
    fb.draw_sprite(9, 9, &[0xFF]);
    assert!(!fb.draw_sprite(9, 9, &[0x00; 15]));
    assert_eq!(lit(&fb).len(), 8);
}

#[test]
fn tallest_sprite_has_fifteen_rows() {
    let mut fb = FrameBuffer::new();
    assert!(!fb.draw_sprite(0, 20, &[0x80; 15]));
    let mut expected: Vec<(usize, usize)> = (20..32).map(|y| (0, y)).collect();
    expected.extend((0..3).map(|y| (0, y)));
    expected.sort_by_key(|&(x, y)| (y, x));
    assert_eq!(lit(&fb), expected);
}

#[test]
fn clear_turns_everything_off_and_marks_changed() {
    let mut fb = FrameBuffer::new();
    fb.draw_sprite(0, 0, &[0xFF; 15]);
    fb.get_vram();
    assert!(!fb.is_changed());
    fb.clear();
    assert!(lit(&fb).is_empty());
    assert!(fb.is_changed());
}

#[test]
fn get_vram_hands_out_rows_and_clears_the_flag() {
    let mut fb = FrameBuffer::new();
    fb.draw_sprite(2, 1, &[0xC0]);
    assert!(fb.is_changed());
    let grid = *fb.get_vram();
    assert!(grid[1][2]);
    assert!(grid[1][3]);
    assert!(!grid[1][4]);
    assert!(!grid[2][1]);
    assert_eq!(grid.iter().flatten().filter(|p| **p).count(), 2);
    assert!(!fb.is_changed());
    assert!(fb.pixel(2, 1));
}

#[test]
fn pixel_wraps_its_coordinates() {
    let mut fb = FrameBuffer::new();
    fb.draw_sprite(1, 2, &[0x80]);
    assert!(fb.pixel(1, 2));
    assert!(fb.pixel(65, 34));
    assert!(!fb.pixel(2, 1));
}
