use vstd::prelude::*;
use crate::color::{Color, blend_packed};
use crate::font::{Font, FONT_H, FONT_W, glyph_row};
use crate::raster::{
    apply, holds_image, fits, idx, in_bounds, paint_rect, paint_round_rect, paint_disc, paint_glyph,
    paint_smooth, paint_glass, paint_stroke, paint_full_gradient, blend_at, round_radius, paint_gradient,
    shadow_rings, fb_fill_rect, fb_set_pixel, fb_blend_pixel, fb_fill_round_rect, fb_fill_circle,
    fb_draw_glyph, fb_draw_smooth, fb_fill_glass_rect, fb_stroke_round_rect, fb_clear_gradient,
    fb_fill_gradient_v, fb_draw_shadow, fb_hline, rows_weighable,
};
use crate::rect::signed;
use crate::icon::{fb_draw_icon, icon_image, icon_ok};

verus! {

/// The `FONT_H` rows of the glyph for `c` in the glyph table `table`.
pub open spec fn glyph_of(table: Seq<u8>, c: char) -> Seq<u8> {
    Seq::new(FONT_H as nat, |row: int| glyph_row(table, c as int, row))
}

/// Draws a glyph `scale` times larger: nothing at scale 0, the glyph's bits
/// at scale 1, bilinear sampling above.
pub open spec fn paint_char_scaled(x: int, y: int, rows: Seq<u8>, color: u32, scale: int) -> spec_fn(int, int, u32) -> u32 {
    if scale == 0 {
        |px: int, py: int, v: u32| v
    } else if scale == 1 {
        paint_glyph(x, y, rows, color)
    } else {
        paint_smooth(x, y, rows, color, scale)
    }
}

/// The pixels after the first `n` characters of `chars` have been drawn at
/// `scale`, character `k` with its top-left corner at
/// `(x + k * (FONT_W + 1) * scale, y)`.
pub open spec fn text_layers(
    pix: Seq<u32>,
    w: int,
    h: int,
    font: Seq<u8>,
    chars: Seq<char>,
    x: int,
    y: int,
    scale: int,
    color: u32,
    n: int,
) -> Seq<u32>
    decreases n,
{
    if n <= 0 {
        pix
    } else {
        apply(
            text_layers(pix, w, h, font, chars, x, y, scale, color, n - 1),
            w,
            h,
            paint_char_scaled(x + (n - 1) * ((FONT_W + 1) * scale), y, glyph_of(font, chars[n - 1]), color, scale),
        )
    }
}

/// A software canvas: `width` x `height` pixels stored row by row (`stride`
/// words per row), a depth plane of the same size, and the font that text is
/// drawn with.
pub struct Canvas {
    pub width: u32,
    pub height: u32,
    pub stride: u32,
    pub pixels: Vec<u32>,
    pub depth: Vec<u16>,
    pub font: Font,
}

impl View for Canvas {
    type V = Seq<u32>;

    /// The pixel words, row by row.
    open spec fn view(&self) -> Seq<u32> {
        self.pixels@
    }
}

impl Canvas {
    /// The depth plane.
    pub open spec fn depth_view(&self) -> Seq<u16> {
        self.depth@
    }

    /// The glyph table of the canvas's font.
    pub open spec fn font_view(&self) -> Seq<u8> {
        self.font@
    }

    /// A canvas is well formed when rows are `width` words apart, the pixel
    /// buffer holds the whole image, and the depth plane has one entry per
    /// pixel.
    pub open spec fn wf(&self) -> bool {
        &&& self.stride == self.width
        &&& holds_image(self@.len() as int, self.width as int, self.height as int)
        &&& self@.len() <= usize::MAX
        &&& self.depth_view().len() == self.width * self.height
    }

    /// `other` is `self` after drawing: same size, depth plane and font.
    pub open spec fn same_frame(&self, other: &Canvas) -> bool {
        &&& other.width == self.width
        &&& other.height == self.height
        &&& other.stride == self.stride
        &&& other@.len() == self@.len()
        &&& other.depth_view() == self.depth_view()
        &&& other.font_view() == self.font_view()
    }

    /// The pixels of `self` rewritten by `f` over the image.
    pub open spec fn drawn(&self, f: spec_fn(int, int, u32) -> u32) -> Seq<u32> {
        apply(self@, self.width as int, self.height as int, f)
    }

    /// A black (all-zero) canvas of `width` x `height` pixels with the depth
    /// plane cleared to 0xFFFF and a blank font.
    pub fn new(width: u32, height: u32) -> (c: Self)
        requires
            width * height <= usize::MAX,
        ensures
            c.wf(),
            c.width == width,
            c.height == height,
            c@ == Seq::new((width * height) as nat, |i: int| 0u32),
            c.depth_view() == Seq::new((width * height) as nat, |i: int| 0xFFFFu16),
            c.font_view().len() == 0,
    {
        let cap = (width as usize) * (height as usize);
        let pixels = vec![0u32; cap];
        let depth = vec![0xFFFFu16; cap];
        let c = Self { width, height, stride: width, pixels, depth, font: Font::blank() };
        assert(c@ =~= Seq::new((width * height) as nat, |i: int| 0u32));
        assert(c.depth_view() =~= Seq::new((width * height) as nat, |i: int| 0xFFFFu16));
        c
    }

    /// A canvas over the given pixel words (at least `width * height` of
    /// them), with the depth plane cleared to 0xFFFF and a blank font.
    pub fn from_pixels(width: u32, height: u32, pixels: Vec<u32>) -> (c: Self)
        requires
            width * height <= usize::MAX,
            width * height <= pixels.len(),
        ensures
            c.wf(),
            c.width == width,
            c.height == height,
            c@ == pixels@,
            c.depth_view() == Seq::new((width * height) as nat, |i: int| 0xFFFFu16),
            c.font_view().len() == 0,
    {
        let cap = (width as usize) * (height as usize);
        let depth = vec![0xFFFFu16; cap];
        let c = Self { width, height, stride: width, pixels, depth, font: Font::blank() };
        assert(c.depth_view() =~= Seq::new((width * height) as nat, |i: int| 0xFFFFu16));
        c
    }

    /// Installs the font that text is drawn with.
    pub fn set_font(&mut self, font: Font)
        ensures
            final(self).width == old(self).width,
            final(self).height == old(self).height,
            final(self).stride == old(self).stride,
            final(self)@ == old(self)@,
            final(self).depth_view() == old(self).depth_view(),
            final(self).font_view() == font@,
    {
        self.font = font;
    }

    /// The pixel words, row by row.
    pub fn pixels(&self) -> (p: &[u32])
        ensures
            p@ == self@,
    {
        self.pixels.as_slice()
    }

    /// The pixel words, row by row, for writing.
    pub fn pixels_mut(&mut self) -> (p: &mut [u32])
        ensures
            p@ == old(self)@,
            final(self)@ == final(p)@,
            final(self).width == old(self).width,
            final(self).height == old(self).height,
            final(self).stride == old(self).stride,
            final(self).depth_view() == old(self).depth_view(),
            final(self).font_view() == old(self).font_view(),
    {
        self.pixels.as_mut_slice()
    }

    /// The depth plane, for writing.
    pub fn depth_ptr(&mut self) -> (d: &mut [u16])
        ensures
            d@ == old(self).depth_view(),
            final(self).depth_view() == final(d)@,
            final(self)@ == old(self)@,
            final(self).width == old(self).width,
            final(self).height == old(self).height,
            final(self).stride == old(self).stride,
            final(self).font_view() == old(self).font_view(),
    {
        self.depth.as_mut_slice()
    }

    /// Colour of pixel `(x, y)`; opaque black outside the canvas.
    pub fn pixel(&self, x: i32, y: i32) -> (c: Color)
        requires
            self.wf(),
        ensures
            c@ == if in_bounds(x as int, y as int, self.width as int, self.height as int) {
                self@[idx(x as int, y as int, self.width as int)]
            } else {
                0xFF000000u32
            },
    {
        if x < 0 || y < 0 || x as u32 >= self.width || y as u32 >= self.height {
            return Color::black();
        }
        proof {
            crate::raster::lemma_idx_bound(x as int, y as int, self.width as int, self.height as int);
        }
        Color::from_u32(self.pixels[(y as usize) * (self.stride as usize) + (x as usize)])
    }

    pub fn set_pixel(&mut self, x: i32, y: i32, color: Color)
        requires
            old(self).wf(),
        ensures
            final(self).wf(),
            old(self).same_frame(&*final(self)),
            final(self)@ == old(self).drawn(paint_rect(x as int, y as int, 1, 1, color@)),
    {
        let (w, h) = (self.width, self.height);
        fb_set_pixel(self.pixels.as_mut_slice(), w, h, x, y, color.to_u32());
    }

    pub fn blend_pixel(&mut self, x: i32, y: i32, fg: Color, alpha: u8)
        requires
            old(self).wf(),
        ensures
            final(self).wf(),
            old(self).same_frame(&*final(self)),
            final(self)@ == old(self).drawn(blend_at(x as int, y as int, fg@, alpha)),
    {
        let (w, h) = (self.width, self.height);
        fb_blend_pixel(self.pixels.as_mut_slice(), w, h, x, y, fg, alpha);
    }

    /// Sets every pixel word to `color` and every depth entry to 0xFFFF.
    pub fn clear(&mut self, color: Color)
        requires
            old(self).wf(),
        ensures
            final(self).wf(),
            final(self).width == old(self).width,
            final(self).height == old(self).height,
            final(self).stride == old(self).stride,
            final(self).font_view() == old(self).font_view(),
            final(self)@ == Seq::new(old(self)@.len(), |i: int| color@),
            final(self).depth_view() == Seq::new(old(self).depth_view().len(), |i: int| 0xFFFFu16),
    {
        let c = color.to_u32();
        let n = self.pixels.len();
        let ghost len = self.pixels@.len();
        let mut i: usize = 0;
        while i < n
            invariant
                i <= n,
                n == len,
                c == color@,
                self.pixels@.len() == len,
                self.width == old(self).width,
                self.height == old(self).height,
                self.stride == old(self).stride,
                self.depth@ == old(self).depth@,
                self.font@ == old(self).font@,
                forall|k: int| 0 <= k < i ==> #[trigger] self.pixels@[k] == c,
            decreases n - i,
        {
            self.pixels.set(i, c);
            i = i + 1;
        }
        let m = self.depth.len();
        let ghost dlen = self.depth@.len();
        let ghost pix = self.pixels@;
        let mut j: usize = 0;
        while j < m
            invariant
                j <= m,
                m == dlen,
                self.depth@.len() == dlen,
                self.width == old(self).width,
                self.height == old(self).height,
                self.stride == old(self).stride,
                self.font@ == old(self).font@,
                self.pixels@ == pix,
                forall|k: int| 0 <= k < j ==> #[trigger] self.depth@[k] == 0xFFFFu16,
            decreases m - j,
        {
            self.depth.set(j, 0xFFFF);
            j = j + 1;
        }
        assert(self@ =~= Seq::new(len, |i: int| color@));
        assert(self.depth_view() =~= Seq::new(dlen, |i: int| 0xFFFFu16));
    }

    /// Fills the rectangle at `(x, y)` of `w` x `h` pixels (extents taken as
    /// `i32` values), clipped to the canvas.
    pub fn fill_rect(&mut self, x: i32, y: i32, w: u32, h: u32, color: Color)
        requires
            old(self).wf(),
            fits(x as int, signed(w)),
            fits(y as int, signed(h)),
        ensures
            final(self).wf(),
            old(self).same_frame(&*final(self)),
            final(self)@ == old(self).drawn(paint_rect(x as int, y as int, signed(w), signed(h), color@)),
    {
        let (cw, ch) = (self.width, self.height);
        fb_fill_rect(self.pixels.as_mut_slice(), cw, ch, x, y, w, h, color.to_u32());
    }

    /// Fills the rounded rectangle at `(x, y)` of `w` x `h` pixels, the corner
    /// radius limited to half the shorter side, clipped to the canvas.
    pub fn fill_round_rect(&mut self, x: i32, y: i32, w: u32, h: u32, radius: u32, color: Color)
        requires
            old(self).wf(),
            w <= i32::MAX && h <= i32::MAX ==> fits(x as int, w as int) && fits(y as int, h as int),
            round_radius(radius, w, h) <= 46340,
        ensures
            final(self).wf(),
            old(self).same_frame(&*final(self)),
            final(self)@ == old(self).drawn(paint_round_rect(x as int, y as int, w, h, radius, color@)),
    {
        let (cw, ch) = (self.width, self.height);
        fb_fill_round_rect(self.pixels.as_mut_slice(), cw, ch, x, y, w, h, radius, color.to_u32());
    }

    /// Fills the rectangle at `(x, y)` of `w` x `h` pixels (extents read as
    /// `i32` values; a height past `i32::MAX` is negative and fills nothing)
    /// with a vertical gradient from `top` (first row) towards `bot`, clipped
    /// to the canvas: row `k` gets `bot` blended over `top` with weight
    /// `k * 255 / h`, computed for the rows on the canvas.
    pub fn fill_gradient_v(&mut self, x: i32, y: i32, w: u32, h: u32, top: Color, bot: Color)
        requires
            old(self).wf(),
            fits(x as int, signed(w)),
            fits(y as int, signed(h)),
            rows_weighable(y as int, signed(h), old(self).height as int),
        ensures
            final(self).wf(),
            old(self).same_frame(&*final(self)),
            final(self)@ == old(self).drawn(paint_gradient(x as int, y as int, signed(w), signed(h), top@, bot@)),
    {
        let (cw, ch) = (self.width, self.height);
        fb_fill_gradient_v(self.pixels.as_mut_slice(), cw, ch, x, y, w, h, top.to_u32(), bot.to_u32());
    }

    /// Paints every row with its colour of the vertical gradient from `top`
    /// (first row) towards `bot`, and clears the depth plane to 0xFFFF.
    pub fn clear_gradient(&mut self, top: Color, bot: Color)
        requires
            old(self).wf(),
            old(self).height == 0 || (old(self).height - 1) * 255 <= u32::MAX,
        ensures
            final(self).wf(),
            final(self).width == old(self).width,
            final(self).height == old(self).height,
            final(self).stride == old(self).stride,
            final(self).font_view() == old(self).font_view(),
            final(self)@ == old(self).drawn(paint_full_gradient(old(self).height as int, top@, bot@)),
            final(self).depth_view() == Seq::new(old(self).depth_view().len(), |i: int| 0xFFFFu16),
    {
        let (cw, ch) = (self.width, self.height);
        fb_clear_gradient(self.pixels.as_mut_slice(), cw, ch, top, bot);
        let m = self.depth.len();
        let ghost dlen = self.depth@.len();
        let ghost pix = self.pixels@;
        let mut j: usize = 0;
        while j < m
            invariant
                j <= m,
                m == dlen,
                self.depth@.len() == dlen,
                self.width == old(self).width,
                self.height == old(self).height,
                self.stride == old(self).stride,
                self.font@ == old(self).font@,
                self.pixels@ == pix,
                forall|k: int| 0 <= k < j ==> #[trigger] self.depth@[k] == 0xFFFFu16,
            decreases m - j,
        {
            self.depth.set(j, 0xFFFF);
            j = j + 1;
        }
        assert(self.depth_view() =~= Seq::new(dlen, |i: int| 0xFFFFu16));
    }

    /// Lays glass over the rectangle at `(x, y)` of `w` x `h` pixels (extents
    /// read as `i32` values): `base` blended in with weight 180, then a white
    /// sheen fading from top to bottom, its weight computed for the rows on
    /// the canvas.
    pub fn fill_glass_rect(&mut self, x: i32, y: i32, w: u32, h: u32, base: Color)
        requires
            old(self).wf(),
            fits(x as int, signed(w)),
            fits(y as int, signed(h)),
            rows_weighable(y as int, signed(h), old(self).height as int),
        ensures
            final(self).wf(),
            old(self).same_frame(&*final(self)),
            final(self)@ == old(self).drawn(paint_glass(x as int, y as int, signed(w), signed(h), base@)),
    {
        let (cw, ch) = (self.width, self.height);
        fb_fill_glass_rect(self.pixels.as_mut_slice(), cw, ch, x, y, w, h, base);
    }

    /// Darkens `radius` rings around the rectangle at `(x, y)` of `w` x `h`
    /// pixels, the innermost ring darkest.
    pub fn draw_shadow(&mut self, x: i32, y: i32, w: u32, h: u32, radius: i32)
        requires
            old(self).wf(),
            radius * 32 <= i32::MAX,
            radius > 0 ==> {
                &&& i32::MIN <= x - radius
                &&& i32::MIN <= y - radius
                &&& x + signed(w) + radius <= i32::MAX + 1
                &&& y + signed(h) + radius <= i32::MAX + 1
                &&& signed(w) + radius <= i32::MAX
                &&& signed(h) + radius <= i32::MAX
            },
        ensures
            final(self).wf(),
            old(self).same_frame(&*final(self)),
            final(self)@ == shadow_rings(old(self)@, old(self).width as int, old(self).height as int, x as int, y as int, signed(w), signed(h), radius as int, radius as int),
    {
        let (cw, ch) = (self.width, self.height);
        fb_draw_shadow(self.pixels.as_mut_slice(), cw, ch, x, y, w, h, radius);
    }

    /// Draws character `c` from the canvas's font with its top-left corner at
    /// `(x, y)`, clipped to the canvas.
    pub fn draw_char(&mut self, x: i32, y: i32, c: char, color: Color)
        requires
            old(self).wf(),
            fits(x as int, FONT_W as int),
            fits(y as int, FONT_H as int),
        ensures
            final(self).wf(),
            old(self).same_frame(&*final(self)),
            final(self)@ == old(self).drawn(paint_glyph(x as int, y as int, glyph_of(old(self).font_view(), c), color@)),
    {
        let rows = self.font.glyph(c);
        assert(rows@ =~= glyph_of(self.font_view(), c));
        let (cw, ch) = (self.width, self.height);
        fb_draw_glyph(self.pixels.as_mut_slice(), cw, ch, x, y, &rows, color.to_u32());
    }

    /// Draws character `c` from the canvas's font at `(x, y)`, `scale` times
    /// larger: nothing at scale 0, its bits at scale 1, bilinear sampling of
    /// its bits above.
    pub fn draw_char_scaled(&mut self, x: i32, y: i32, c: char, color: Color, scale: u32)
        requires
            old(self).wf(),
            FONT_H * scale <= i32::MAX,
            fits(x as int, FONT_W * scale),
            fits(y as int, FONT_H * scale),
        ensures
            final(self).wf(),
            old(self).same_frame(&*final(self)),
            final(self)@ == old(self).drawn(paint_char_scaled(x as int, y as int, glyph_of(old(self).font_view(), c), color@, scale as int)),
    {
        if scale == 0 {
            proof {
                crate::raster::lemma_apply_identity(self@, self.width as int, self.height as int, |px: int, py: int, v: u32| v);
            }
            return;
        }
        let rows = self.font.glyph(c);
        assert(rows@ =~= glyph_of(self.font_view(), c));
        let (cw, ch) = (self.width, self.height);
        if scale == 1 {
            fb_draw_glyph(self.pixels.as_mut_slice(), cw, ch, x, y, &rows, color.to_u32());
        } else {
            fb_draw_smooth(self.pixels.as_mut_slice(), cw, ch, x, y, &rows, color, scale);
        }
    }

    /// Draws `text` character by character from `(x, y)`, one glyph cell plus
    /// one pixel apart.
    pub fn draw_text(&mut self, x: i32, y: i32, text: &str, color: Color)
        requires
            old(self).wf(),
            x + text@.len() * (FONT_W + 1) <= i32::MAX,
            fits(y as int, FONT_H as int),
        ensures
            final(self).wf(),
            old(self).same_frame(&*final(self)),
            final(self)@ == text_layers(old(self)@, old(self).width as int, old(self).height as int, old(self).font_view(), text@, x as int, y as int, 1, color@, text@.len() as int),
    {
        self.draw_text_large(x, y, text, color, 1);
    }

    /// Draws `text` character by character from `(x, y)`, `scale` times
    /// larger, `(FONT_W + 1) * scale` pixels apart.
    pub fn draw_text_large(&mut self, x: i32, y: i32, text: &str, color: Color, scale: u32)
        requires
            old(self).wf(),
            (FONT_W + 1) * scale <= i32::MAX,
            FONT_H * scale <= i32::MAX,
            x + text@.len() * ((FONT_W + 1) * scale) <= i32::MAX,
            fits(y as int, FONT_H * scale),
        ensures
            final(self).wf(),
            old(self).same_frame(&*final(self)),
            final(self)@ == text_layers(old(self)@, old(self).width as int, old(self).height as int, old(self).font_view(), text@, x as int, y as int, scale as int, color@, text@.len() as int),
    {
        broadcast use vstd::string::axiom_spec_iter;
        let ghost s = self@;
        let ghost n = text@.len();
        let step: i32 = 9 * scale as i32;
        let mut cx = x;
        for ch in it: text.chars()
            invariant
                it.seq() == text@,
                n == text@.len(),
                step == (FONT_W + 1) * scale,
                (FONT_W + 1) * scale <= i32::MAX,
                FONT_H * scale <= i32::MAX,
                x + n * ((FONT_W + 1) * scale) <= i32::MAX,
                fits(y as int, FONT_H * scale),
                cx == x + it.index() * step,
                self.wf(),
                old(self).same_frame(&*self),
                self@ == text_layers(s, self.width as int, self.height as int, self.font_view(), text@, x as int, y as int, scale as int, color@, it.index() as int),
        {
            assert(it.index() < n);
            assert(0 <= it.index() * step <= (n - 1) * step) by (nonlinear_arith)
                requires 0 <= it.index() < n, 0 <= step;
            assert((it.index() + 1) * step <= n * step) by (nonlinear_arith)
                requires 0 <= it.index() < n, 0 <= step;
            assert(ch == text@[it.index() as int]);
            assert(cx + step <= x + n * step) by (nonlinear_arith)
                requires cx == x + it.index() * step, (it.index() + 1) * step <= n * step;
            assert(FONT_W * scale <= step) by (nonlinear_arith)
                requires step == (FONT_W + 1) * scale, FONT_W == 8, scale >= 0;
            assert(fits(cx as int, FONT_W * scale));
            self.draw_char_scaled(cx, y, ch, color, scale);
            assert(cx + step == x + (it.index() + 1) * step) by (nonlinear_arith)
                requires cx == x + it.index() * step;
            cx = cx + step;
        }
    }

    /// Draws a one-pixel horizontal line of `w` pixels (taken as an `i32`
    /// value) from `(x, y)`, clipped to the canvas.
    pub fn hline(&mut self, x: i32, y: i32, w: u32, color: Color)
        requires
            old(self).wf(),
            0 <= y < old(self).height ==> fits(x as int, signed(w)),
        ensures
            final(self).wf(),
            old(self).same_frame(&*final(self)),
            final(self)@ == old(self).drawn(paint_rect(x as int, y as int, signed(w), 1, color@)),
    {
        let (cw, ch) = (self.width, self.height);
        fb_hline(self.pixels.as_mut_slice(), cw, ch, x, y, w, color.to_u32());
    }

    /// Draws a one-pixel vertical line of `h` pixels (taken as an `i32`
    /// value) down from `(x, y)`, clipped to the canvas.
    pub fn vline(&mut self, x: i32, y: i32, h: u32, color: Color)
        requires
            old(self).wf(),
            fits(y as int, signed(h)),
        ensures
            final(self).wf(),
            old(self).same_frame(&*final(self)),
            final(self)@ == old(self).drawn(paint_rect(x as int, y as int, 1, signed(h), color@)),
    {
        let (cw, ch) = (self.width, self.height);
        fb_fill_rect(self.pixels.as_mut_slice(), cw, ch, x, y, 1, h, color.to_u32());
    }

    /// Fills the disc of radius `r` around `(cx, cy)`, clipped to the canvas.
    pub fn fill_circle(&mut self, cx: i32, cy: i32, r: u32, color: Color)
        requires
            old(self).wf(),
            r <= 46340,
            i32::MIN <= cx - r,
            cx + r <= i32::MAX,
            i32::MIN <= cy - r,
            cy + r <= i32::MAX,
        ensures
            final(self).wf(),
            old(self).same_frame(&*final(self)),
            final(self)@ == old(self).drawn(paint_disc(cx as int, cy as int, r as int, color@)),
    {
        let (cw, ch) = (self.width, self.height);
        fb_fill_circle(self.pixels.as_mut_slice(), cw, ch, cx, cy, r, color.to_u32());
    }

    /// Draws the one-pixel outline of the rounded rectangle at `(x, y)` of
    /// `w` x `h` pixels; nothing for rectangles under 3 pixels or without
    /// rounding.
    pub fn stroke_round_rect(&mut self, x: i32, y: i32, w: u32, h: u32, radius: u32, color: Color)
        requires
            old(self).wf(),
            w <= i32::MAX && h <= i32::MAX ==> fits(x as int, w as int) && fits(y as int, h as int),
            round_radius(radius, w, h) <= 46340,
        ensures
            final(self).wf(),
            old(self).same_frame(&*final(self)),
            final(self)@ == old(self).drawn(paint_stroke(x as int, y as int, w, h, radius, color@)),
    {
        let (cw, ch) = (self.width, self.height);
        fb_stroke_round_rect(self.pixels.as_mut_slice(), cw, ch, x, y, w, h, radius, color.to_u32());
    }

    /// Draws icon `kind` of `size` pixels centred on `(cx, cy)`, its letters
    /// taken from the canvas's font.
    pub fn draw_icon(&mut self, cx: i32, cy: i32, size: u32, kind: u32, color: Color)
        requires
            old(self).wf(),
            icon_ok(cx as int, cy as int, size as int, kind),
        ensures
            final(self).wf(),
            old(self).same_frame(&*final(self)),
            final(self)@ == icon_image(old(self)@, old(self).width as int, old(self).height as int, old(self).font_view(), cx as int, cy as int, size as int, kind, color@),
    {
        let (cw, ch) = (self.width, self.height);
        fb_draw_icon(self.pixels.as_mut_slice(), cw, ch, &self.font, cx, cy, size, kind, color.to_u32());
    }

    /// Presenting a region is the display's business; the canvas itself
    /// does nothing.
    pub fn present_region(&mut self, _x: u32, _y: u32, _w: u32, _h: u32)
        ensures
            *final(self) == *old(self),
    {
    }
}

} // verus!
