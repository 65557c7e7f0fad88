use waylock::lock::canvas::{blend_pixel, Canvas, Glyph};

fn canvas(width: usize, height: usize, color: u32) -> Canvas {
    Canvas::new(vec![0; width * height], width, height, color).unwrap()
}

fn glyph(x: usize, y: usize, width: usize, height: usize, coverage: Vec<u8>) -> Glyph {
    Glyph { x, y, width, height, coverage, control: false, whitespace: false }
}

#[test]
fn canvas_needs_as_many_pixels_as_its_size() {
    assert!(Canvas::new(vec![0; 6], 3, 2, 0).is_some());
    assert!(Canvas::new(vec![0; 5], 3, 2, 0).is_none());
    assert!(Canvas::new(vec![0; 7], 3, 2, 0).is_none());
    assert!(Canvas::new(Vec::new(), 0, 5, 0).is_some());
    assert!(Canvas::new(Vec::new(), usize::MAX, 2, 0).is_none());
}

#[test]
fn canvas_reports_its_size_and_colour() {
    let mut c = canvas(3, 2, 7);
    assert_eq!(c.width(), 3);
    assert_eq!(c.height(), 2);
    assert_eq!(c.color(), 7);
    c.set_color(9);
    assert_eq!(c.color(), 9);
    assert_eq!(c.into_pixels(), vec![0; 6]);
}

#[test]
fn fill_overwrites_every_pixel() {
    let mut c = canvas(4, 3, 0xff123456);
    c.fill();
    assert_eq!(c.into_pixels(), vec![0xff123456; 12]);
}

#[test]
fn fill_of_an_empty_canvas_does_nothing() {
    let mut c = canvas(0, 0, 1);
    c.fill();
    assert_eq!(c.into_pixels(), Vec::<u32>::new());
}

#[test]
fn draw_square_is_half_open() {
    let mut c = canvas(4, 4, 1);
    c.draw_square((1, 1), (3, 3));
    let expected = vec![
        0, 0, 0, 0,
        0, 1, 1, 0,
        0, 1, 1, 0,
        0, 0, 0, 0,
    ];
    assert_eq!(c.into_pixels(), expected);
}

#[test]
fn draw_square_leaves_out_what_is_outside() {
    let mut c = canvas(3, 2, 5);
    c.draw_square((2, 1), (10, 10));
    assert_eq!(c.into_pixels(), vec![0, 0, 0, 0, 0, 5]);
}

#[test]
fn draw_square_with_corners_swapped_draws_nothing() {
    let mut c = canvas(3, 3, 5);
    c.draw_square((2, 0), (1, 3));
    c.draw_square((0, 2), (3, 1));
    c.draw_square((1, 1), (1, 1));
    assert_eq!(c.into_pixels(), vec![0; 9]);
}

#[test]
fn blend_is_exact_in_each_channel() {
    assert_eq!(blend_pixel(0xffff_ffff, 0xff00_0000, 128), 0xfe7f_7f7f);
    assert_eq!(blend_pixel(0xffff_ffff, 0xff00_0000, 255), 0xfefe_fefe);
    assert_eq!(blend_pixel(0xffff_ffff, 0xff00_0000, 0), 0xfe00_0000);
    assert_eq!(blend_pixel(0x0000_0000, 0x0000_0000, 77), 0);
    assert_eq!(blend_pixel(0x1020_3040, 0x8070_6050, 64), 0x635b_534b);
}

#[test]
fn draw_bitmap_blends_the_covered_pixels_only() {
    let mut c = Canvas::new(vec![0xff00_0000; 12], 4, 3, 0xffff_ffff).unwrap();
    c.draw_bitmap(&[255, 128, 0, 255], (2, 2), (1, 1));
    let bg = 0xff00_0000;
    let expected = vec![
        bg, bg, bg, bg,
        bg, 0xfefe_fefe, 0xfe7f_7f7f, bg,
        bg, 0xfe00_0000, 0xfefe_fefe, bg,
    ];
    assert_eq!(c.into_pixels(), expected);
}

#[test]
fn draw_bitmap_reads_no_more_than_its_size() {
    let mut c = Canvas::new(vec![0; 4], 2, 2, 0xffff_ffff).unwrap();
    c.draw_bitmap(&[255, 255, 255, 255, 255], (1, 1), (1, 0));
    assert_eq!(c.into_pixels(), vec![0, 0x0fefe_fefe, 0, 0]);
}

#[test]
fn draw_layout_skips_control_and_whitespace() {
    let mut c = Canvas::new(vec![0; 4], 2, 2, 0xffff_ffff).unwrap();
    let mut newline = glyph(0, 0, 1, 1, vec![255]);
    newline.control = true;
    newline.whitespace = true;
    let mut space = glyph(1, 0, 1, 1, vec![255]);
    space.whitespace = true;
    let mut bell = glyph(0, 1, 1, 1, vec![255]);
    bell.control = true;
    let star = glyph(1, 1, 1, 1, vec![255]);
    c.draw_layout(&vec![newline, space, bell, star]);
    assert_eq!(c.into_pixels(), vec![0, 0, 0, 0xfefe_fefe]);
}

#[test]
fn draw_layout_skips_what_does_not_fit() {
    let mut c = Canvas::new(vec![0; 4], 2, 2, 0xffff_ffff).unwrap();
    let wide = glyph(1, 0, 2, 1, vec![255, 255]);
    let low = glyph(0, 2, 1, 1, vec![255]);
    let far = glyph(usize::MAX, 0, 1, 1, vec![255]);
    let short = glyph(0, 0, 2, 2, vec![255, 255, 255]);
    let huge = glyph(0, 0, usize::MAX, usize::MAX, vec![255]);
    c.draw_layout(&vec![wide, low, far, short, huge]);
    assert_eq!(c.into_pixels(), vec![0; 4]);
}

#[test]
fn draw_layout_draws_in_order() {
    let mut c = Canvas::new(vec![0xff00_0000; 2], 2, 1, 0xffff_ffff).unwrap();
    let first = glyph(0, 0, 1, 1, vec![128]);
    let second = glyph(0, 0, 1, 1, vec![128]);
    c.draw_layout(&vec![first, second]);
    let once = blend_pixel(0xffff_ffff, 0xff00_0000, 128);
    let twice = blend_pixel(0xffff_ffff, once, 128);
    assert_eq!(c.into_pixels(), vec![twice, 0xff00_0000]);
}

#[test]
fn glyph_fits_when_inside_and_complete() {
    assert!(glyph(1, 1, 1, 1, vec![0]).fits(2, 2));
    assert!(!glyph(1, 1, 2, 1, vec![0, 0]).fits(2, 2));
    assert!(glyph(0, 0, 0, 0, vec![]).fits(0, 0));
}
