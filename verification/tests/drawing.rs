use zirvtk::canvas::Canvas;
use zirvtk::color::Color;
use zirvtk::font::{line_height, text_width, Font, FONT_H};
use zirvtk::raster::isqrt;
use zirvtk::rect::Rect;

fn px(c: &Canvas, x: i32, y: i32) -> u32 {
    c.pixel(x, y).to_u32()
}

/// A font in which 'A' has its top row full and its bottom row's leftmost
/// pixel set; every other glyph is blank.
fn test_font() -> Font {
    let mut rows = vec![0u8; 128 * FONT_H as usize];
    let a = 'A' as usize * FONT_H as usize;
    rows[a] = 0xFF;
    rows[a + 12] = 0x80;
    Font::from_rows(rows)
}

#[test]
fn color_packs_and_unpacks() {
    let c = Color::from_argb(0x11, 0x22, 0x33, 0x44);
    // packed as 0xAABBGGRR: red in the low byte
    assert_eq!(c.to_u32(), 0x11443322);
    assert_eq!((c.a(), c.r(), c.g(), c.b()), (0x11, 0x22, 0x33, 0x44));
    assert_eq!(Color::from_rgb(1, 2, 3).to_u32(), 0xFF030201);
    assert_eq!(Color::from_u32(0xDEADBEEF).to_u32(), 0xDEADBEEF);
}

#[test]
fn named_colors() {
    assert_eq!(Color::black().to_u32(), 0xFF000000);
    assert_eq!(Color::white().to_u32(), 0xFFFFFFFF);
    assert_eq!(Color::red().to_u32(), 0xFF0000FF);
    assert_eq!(Color::green().to_u32(), 0xFF00FF00);
    assert_eq!(Color::blue().to_u32(), 0xFFFF0000);
}

#[test]
fn blend_weights_channels() {
    let white = Color::white();
    let black = Color::black();
    assert_eq!(white.blend(black, 128).to_u32(), 0xFF808080);
    assert_eq!(white.blend(black, 255).to_u32(), 0xFFFFFFFF);
    assert_eq!(white.blend(black, 0).to_u32(), 0xFF000000);
    // always opaque, whatever the inputs' alpha
    let a = Color::from_argb(0, 200, 100, 50);
    let b = Color::from_argb(10, 0, 0, 0);
    assert_eq!(a.blend(b, 51).a(), 0xFF);
    assert_eq!(a.blend(b, 51).to_u32(), 0xFF0A1428);
    // blending a colour with itself keeps its channels
    let c = Color::from_argb(7, 9, 99, 199);
    assert_eq!(c.blend(c, 77).to_u32(), 0xFFC76309);
}

#[test]
fn rect_contains_and_edges() {
    let r = Rect::new(10, 20, 5, 4);
    assert!(r.contains(10, 20));
    assert!(r.contains(14, 23));
    assert!(!r.contains(15, 23));
    assert!(!r.contains(14, 24));
    assert!(!r.contains(9, 20));
    assert_eq!(r.right(), 15);
    assert_eq!(r.bottom(), 24);
    let empty = Rect::default();
    assert_eq!(empty, Rect::new(0, 0, 0, 0));
    assert!(!empty.contains(0, 0));
    assert!(!Rect::new(0, 0, 10, 0).contains(3, 0));
}

#[test]
fn rect_contains_far_from_origin() {
    let r = Rect::new(i32::MAX - 5, 0, 10, 1);
    assert!(r.contains(i32::MAX, 0));
    assert!(!r.contains(i32::MAX - 6, 0));
}

#[test]
fn new_canvas_is_black_and_clear_fills() {
    let mut c = Canvas::new(4, 3);
    assert_eq!(c.pixels().len(), 12);
    assert!(c.pixels().iter().all(|&p| p == 0));
    c.clear(Color::from_u32(0xFF123456));
    assert!(c.pixels().iter().all(|&p| p == 0xFF123456));
}

#[test]
fn set_pixel_reads_back_and_clips() {
    let mut c = Canvas::new(8, 8);
    c.set_pixel(3, 4, Color::red());
    assert_eq!(px(&c, 3, 4), 0xFF0000FF);
    assert_eq!(c.pixels()[4 * 8 + 3], 0xFF0000FF);
    c.set_pixel(-1, 0, Color::red());
    c.set_pixel(8, 0, Color::red());
    assert_eq!(c.pixels().iter().filter(|&&p| p != 0).count(), 1);
    // outside the canvas the pixel reads as opaque black
    assert_eq!(px(&c, -1, 0), 0xFF000000);
    assert_eq!(px(&c, 0, 8), 0xFF000000);
}

#[test]
fn fill_rect_covers_exactly_and_clips() {
    let mut c = Canvas::new(10, 10);
    c.fill_rect(-2, 7, 4, 5, Color::green());
    for y in 0..10 {
        for x in 0..10 {
            let inside = x < 2 && y >= 7;
            assert_eq!(px(&c, x, y) == 0xFF00FF00, inside, "({}, {})", x, y);
        }
    }
}

#[test]
fn lines_are_one_pixel() {
    let mut c = Canvas::new(6, 6);
    c.hline(1, 2, 3, Color::white());
    c.vline(5, 0, 2, Color::blue());
    assert_eq!(px(&c, 1, 2), 0xFFFFFFFF);
    assert_eq!(px(&c, 3, 2), 0xFFFFFFFF);
    assert_eq!(px(&c, 4, 2), 0);
    assert_eq!(px(&c, 5, 0), 0xFFFF0000);
    assert_eq!(px(&c, 5, 1), 0xFFFF0000);
    assert_eq!(px(&c, 5, 2), 0);
}

#[test]
fn blend_pixel_mixes_with_what_is_there() {
    let mut c = Canvas::new(2, 2);
    c.clear(Color::black());
    c.blend_pixel(1, 1, Color::white(), 128);
    assert_eq!(px(&c, 1, 1), 0xFF808080);
    assert_eq!(px(&c, 0, 0), 0xFF000000);
}

#[test]
fn fill_circle_is_a_disc() {
    let mut c = Canvas::new(11, 11);
    c.fill_circle(5, 5, 2, Color::white());
    let mut count = 0;
    for y in 0..11 {
        for x in 0..11 {
            let (dx, dy) = (x - 5, y - 5);
            let inside = dx * dx + dy * dy <= 4;
            assert_eq!(px(&c, x, y) == 0xFFFFFFFF, inside, "({}, {})", x, y);
            if inside {
                count += 1;
            }
        }
    }
    assert_eq!(count, 13);
}

#[test]
fn round_rect_cuts_its_corners() {
    let mut c = Canvas::new(20, 20);
    c.fill_round_rect(0, 0, 20, 20, 6, Color::white());
    assert_eq!(px(&c, 0, 0), 0);
    assert_eq!(px(&c, 19, 19), 0);
    assert_eq!(px(&c, 10, 0), 0xFFFFFFFF);
    assert_eq!(px(&c, 0, 10), 0xFFFFFFFF);
    assert_eq!(px(&c, 10, 10), 0xFFFFFFFF);
    // no rounding at all: a plain rectangle
    let mut d = Canvas::new(5, 5);
    d.fill_round_rect(0, 0, 5, 5, 0, Color::white());
    assert!(d.pixels().iter().all(|&p| p == 0xFFFFFFFF));
}

#[test]
fn stroke_round_rect_marks_the_ends_of_each_row() {
    let mut c = Canvas::new(20, 20);
    c.stroke_round_rect(0, 0, 20, 20, 4, Color::white());
    assert_eq!(px(&c, 0, 10), 0xFFFFFFFF);
    assert_eq!(px(&c, 19, 10), 0xFFFFFFFF);
    assert_eq!(px(&c, 1, 10), 0);
    assert_eq!(px(&c, 10, 10), 0);
    assert_eq!(px(&c, 10, 0), 0);
    // too small or without rounding: nothing
    let mut d = Canvas::new(20, 20);
    d.stroke_round_rect(0, 0, 20, 20, 0, Color::white());
    d.stroke_round_rect(0, 0, 2, 20, 4, Color::white());
    assert!(d.pixels().iter().all(|&p| p == 0));
}

#[test]
fn gradient_runs_from_top_to_bottom() {
    let mut c = Canvas::new(3, 4);
    c.clear_gradient(Color::from_rgb(0, 0, 0), Color::from_rgb(255, 255, 255));
    assert_eq!(px(&c, 0, 0), 0xFF000000);
    assert_eq!(px(&c, 2, 0), 0xFF000000);
    // row 2 of 4: weight 2 * 255 / 4 = 127
    assert_eq!(px(&c, 1, 2), 0xFF7F7F7F);
    assert_eq!(px(&c, 1, 3), 0xFFBFBFBF);
}

#[test]
fn fill_gradient_v_paints_its_rows() {
    let mut c = Canvas::new(4, 4);
    c.fill_gradient_v(1, 1, 2, 2, Color::from_rgb(200, 0, 0), Color::from_rgb(0, 0, 200));
    assert_eq!(px(&c, 1, 1), 0xFF0000C8);
    assert_eq!(px(&c, 2, 1), 0xFF0000C8);
    assert_eq!(px(&c, 0, 1), 0);
    assert_eq!(px(&c, 1, 2), 0xFF630064);
    assert_eq!(px(&c, 1, 3), 0);
}

#[test]
fn fill_gradient_v_stays_in_its_rectangle() {
    // a span past the right edge is clipped, not carried into the next row
    let mut c = Canvas::new(2, 2);
    c.fill_gradient_v(1, 0, 2, 1, Color::white(), Color::black());
    assert_eq!(c.pixels(), &[0, 0xFFFFFFFF, 0, 0][..]);
}

#[test]
fn glyphs_come_from_the_font() {
    let mut c = Canvas::new(20, 20);
    c.set_font(test_font());
    c.draw_char(2, 3, 'A', Color::white());
    for x in 2..10 {
        assert_eq!(px(&c, x, 3), 0xFFFFFFFF);
    }
    assert_eq!(px(&c, 2, 15), 0xFFFFFFFF);
    assert_eq!(px(&c, 3, 15), 0);
    assert_eq!(px(&c, 10, 3), 0);
    // a blank glyph draws nothing
    c.draw_char(12, 3, 'B', Color::white());
    assert_eq!(px(&c, 12, 3), 0);
}

#[test]
fn text_is_drawn_glyph_by_glyph() {
    let mut c = Canvas::new(40, 20);
    c.set_font(test_font());
    c.draw_text(0, 0, "AA", Color::white());
    assert_eq!(px(&c, 0, 0), 0xFFFFFFFF);
    assert_eq!(px(&c, 8, 0), 0);
    assert_eq!(px(&c, 9, 0), 0xFFFFFFFF);
    assert_eq!(px(&c, 16, 0), 0xFFFFFFFF);
    assert_eq!(px(&c, 18, 0), 0);
    assert_eq!(text_width("AA"), 18);
    assert_eq!(line_height(), 13);
}

#[test]
fn large_text_scales_the_spacing() {
    let mut c = Canvas::new(60, 40);
    c.set_font(test_font());
    c.draw_text_large(0, 0, "AA", Color::white(), 2);
    // a pixel whose samples all fall on set bits takes the colour
    assert_eq!(px(&c, 0, 0), 0xFFFFFFFF);
    assert_eq!(px(&c, 18, 0), 0xFFFFFFFF);
    assert_eq!(px(&c, 0, 30), 0);
    // half a source row below a set bit, a quarter of the weight falls on
    // the blank row under it: coverage 191 of 255
    assert_eq!(px(&c, 0, 1), 0xFFBFBFBF);
    c.draw_char_scaled(40, 0, 'A', Color::white(), 0);
    assert_eq!(px(&c, 40, 0), 0);
}

#[test]
fn scaled_glyph_pixels_on_set_bits_are_solid() {
    let mut c = Canvas::new(40, 50);
    c.set_font(test_font());
    c.draw_char_scaled(2, 3, 'A', Color::from_rgb(10, 20, 30), 3);
    // the centre of the 3 x 3 block of each set bit samples that bit exactly
    for i in 0..8 {
        assert_eq!(px(&c, 2 + 3 * i + 1, 3 + 1), 0xFF1E140A);
    }
    assert_eq!(px(&c, 2 + 1, 3 + 3 * 12 + 1), 0xFF1E140A);
}

#[test]
fn font_glyph_rows() {
    let f = test_font();
    let g = f.glyph('A');
    assert_eq!(g.len(), 13);
    assert_eq!(g[0], 0xFF);
    assert_eq!(g[12], 0x80);
    assert_eq!(Font::blank().glyph('A'), vec![0u8; 13]);
}

#[test]
fn shadow_darkens_around_the_box() {
    let mut c = Canvas::new(20, 20);
    c.clear(Color::white());
    c.draw_shadow(5, 5, 10, 10, 2);
    assert_ne!(px(&c, 4, 10), 0xFFFFFFFF);
    assert_eq!(px(&c, 10, 10), 0xFFFFFFFF);
    assert_eq!(px(&c, 0, 0), 0xFFFFFFFF);
}

#[test]
fn glass_lightens_its_rectangle() {
    let mut c = Canvas::new(10, 10);
    c.clear(Color::black());
    c.fill_glass_rect(2, 2, 4, 4, Color::white());
    // white at weight 180 over black gives 180; the top row's sheen (alpha
    // 0x66) takes it to the low byte of 180 * 153 + 102, 250
    assert_eq!(px(&c, 2, 2), 0xFFFAFAFA);
    assert_ne!(px(&c, 3, 3), 0xFF000000);
    assert_eq!(px(&c, 8, 8), 0xFF000000);
}

#[test]
fn icons_draw_only_known_kinds() {
    let mut c = Canvas::new(64, 64);
    c.draw_icon(32, 32, 36, 99, Color::white());
    assert!(c.pixels().iter().all(|&p| p == 0));
    // photos: a square in the colour with an orange block from the centre
    c.draw_icon(32, 32, 36, 6, Color::white());
    assert_eq!(px(&c, 14, 14), 0xFFFFFFFF);
    assert_eq!(px(&c, 32, 32), 0xFFFF8844);
    assert_eq!(px(&c, 13, 13), 0);
    // calculator: nine keys, the first at the grid's corner
    let mut d = Canvas::new(64, 64);
    d.draw_icon(32, 32, 36, 1, Color::white());
    assert_eq!(px(&d, 17, 17), 0xFFFFFFFF);
    assert_eq!(px(&d, 14, 14), 0);
}

#[test]
fn integer_square_root() {
    assert_eq!(isqrt(0), 0);
    assert_eq!(isqrt(1), 1);
    assert_eq!(isqrt(15), 3);
    assert_eq!(isqrt(16), 4);
    assert_eq!(isqrt(i32::MAX), 46340);
}

#[test]
fn pixels_mut_writes_through() {
    let mut c = Canvas::new(2, 2);
    c.pixels_mut()[3] = 7;
    assert_eq!(px(&c, 1, 1), 7);
}

#[test]
fn text_concatenates() {
    let mut whole = Canvas::new(40, 20);
    whole.set_font(test_font());
    whole.draw_text(3, 2, "AAB", Color::white());
    let mut parts = Canvas::new(40, 20);
    parts.set_font(test_font());
    parts.draw_text(3, 2, "A", Color::white());
    parts.draw_text(3 + 9, 2, "AB", Color::white());
    assert_eq!(whole.pixels(), parts.pixels());
    // nothing at scale 0, and scale 1 is plain text
    let before = whole.pixels().to_vec();
    whole.draw_text_large(0, 0, "AAA", Color::white(), 0);
    assert_eq!(whole.pixels(), &before[..]);
    let mut one = Canvas::new(40, 20);
    one.set_font(test_font());
    one.draw_text_large(3, 2, "AAB", Color::white(), 1);
    assert_eq!(one.pixels(), &before[..]);
}
