use vstd::prelude::*;
use crate::canvas::glyph_of;
use crate::font::{Font, FONT_H, FONT_W};
use crate::raster::{apply, fits, holds_image, paint_blocks, paint_glyph, fb_draw_blocks, fb_draw_glyph};

verus! {

/// The pixels after the first `n` bytes of `text` have been drawn as glyphs
/// of `font` at `scale` (1: the glyph's bits; more: each bit a `scale` x
/// `scale` block), byte `k` with its top-left corner at
/// `(x + k * (FONT_W + 1) * scale, y)`.
pub open spec fn byte_text(
    p: Seq<u32>,
    w: int,
    h: int,
    font: Seq<u8>,
    text: Seq<u8>,
    x: int,
    y: int,
    scale: int,
    color: u32,
    n: int,
) -> Seq<u32>
    decreases n,
{
    if n <= 0 {
        p
    } else {
        let gx = x + (n - 1) * ((FONT_W + 1) * scale);
        let rows = glyph_of(font, text[n - 1] as char);
        let prev = byte_text(p, w, h, font, text, x, y, scale, color, n - 1);
        if scale == 1 {
            apply(prev, w, h, paint_glyph(gx, y, rows, color))
        } else {
            apply(prev, w, h, paint_blocks(gx, y, rows, color, scale))
        }
    }
}

/// Draws the bytes of `text` as glyphs of `font`, one glyph cell plus one
/// pixel apart, from `(x, y)`.
pub fn fb_draw_text_bytes(fb: &mut [u32], w: u32, h: u32, font: &Font, x: i32, y: i32, text: &[u8], color: u32)
    requires
        holds_image(old(fb)@.len() as int, w as int, h as int),
        x + text@.len() * (FONT_W + 1) <= i32::MAX,
        fits(y as int, FONT_H as int),
    ensures
        final(fb)@.len() == old(fb)@.len(),
        final(fb)@ == byte_text(old(fb)@, w as int, h as int, font@, text@, x as int, y as int, 1, color, text@.len() as int),
{
    fb_draw_text_bytes_scaled(fb, w, h, font, x, y, text, color, 1);
}

/// Draws the bytes of `text` as glyphs of `font` enlarged `scale` times
/// (each bit a block; a single pixel at scale 1), `(FONT_W + 1) * scale`
/// pixels apart, from `(x, y)`.
pub fn fb_draw_text_bytes_scaled(
    fb: &mut [u32],
    w: u32,
    h: u32,
    font: &Font,
    x: i32,
    y: i32,
    text: &[u8],
    color: u32,
    scale: u32,
)
    requires
        holds_image(old(fb)@.len() as int, w as int, h as int),
        (FONT_W + 1) * scale <= i32::MAX,
        FONT_H * scale <= i32::MAX,
        x + text@.len() * ((FONT_W + 1) * scale) <= i32::MAX,
        fits(y as int, FONT_H * scale),
    ensures
        final(fb)@.len() == old(fb)@.len(),
        final(fb)@ == byte_text(old(fb)@, w as int, h as int, font@, text@, x as int, y as int, scale as int, color, text@.len() as int),
{
    let ghost p = fb@;
    let n = text.len();
    let step: i32 = 9 * scale as i32;
    let mut cx = x;
    let mut i: usize = 0;
    while i < n
        invariant
            i <= n,
            n == text@.len(),
            step == (FONT_W + 1) * scale,
            (FONT_W + 1) * scale <= i32::MAX,
            FONT_H * scale <= i32::MAX,
            x + n * ((FONT_W + 1) * scale) <= i32::MAX,
            fits(y as int, FONT_H * scale),
            cx == x + i * step,
            holds_image(fb@.len() as int, w as int, h as int),
            fb@.len() == p.len(),
            fb@ == byte_text(p, w as int, h as int, font@, text@, x as int, y as int, scale as int, color, i as int),
        decreases n - i,
    {
        assert((i + 1) * step <= n * step) by (nonlinear_arith)
            requires 0 <= i < n, 0 <= step;
        assert(cx + step == x + (i + 1) * step) by (nonlinear_arith)
            requires cx == x + i * step;
        assert(FONT_W * scale <= step) by (nonlinear_arith)
            requires step == (FONT_W + 1) * scale, FONT_W == 8, scale >= 0;
        assert(0 <= i * step) by (nonlinear_arith)
            requires 0 <= i, 0 <= step;
        let rows = font.glyph(text[i] as char);
        assert(rows@ =~= glyph_of(font@, text@[i as int] as char));
        if scale == 1 {
            fb_draw_glyph(fb, w, h, cx, y, &rows, color);
        } else {
            fb_draw_blocks(fb, w, h, cx, y, &rows, color, scale);
        }
        cx = cx + step;
        i = i + 1;
    }
}

} // verus!
