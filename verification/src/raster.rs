use vstd::prelude::*;
use vstd::arithmetic::div_mod::{
    lemma_fundamental_div_mod, lemma_fundamental_div_mod_converse, lemma_mod_pos_bound,
};
use crate::color::{Color, blend_packed, pack_argb, red_of, green_of, blue_of};
use crate::rect::{in_span, signed, to_i32};
use crate::font::{FONT_H, FONT_W, glyph_bit};

verus! {

/// Index of pixel `(px, py)` in a row-major buffer whose rows are `w` pixels long.
pub open spec fn idx(px: int, py: int, w: int) -> int {
    py * w + px
}

/// Whether `(px, py)` is a pixel of a `w` x `h` buffer.
pub open spec fn in_bounds(px: int, py: int, w: int, h: int) -> bool {
    0 <= px < w && 0 <= py < h
}

/// The buffer `s` (a `w` x `h` image stored row by row, possibly followed by
/// more words) after each of its first `k` image words has been rewritten by
/// `f`, which maps a pixel's coordinates and old value to its new value.
pub open spec fn apply_upto(
    s: Seq<u32>,
    w: int,
    h: int,
    f: spec_fn(int, int, u32) -> u32,
    k: int,
) -> Seq<u32> {
    Seq::new(
        s.len(),
        |i: int|
            if 0 <= i < k && i < w * h && w > 0 {
                f(i % w, i / w, s[i])
            } else {
                s[i]
            },
    )
}

/// The buffer `s` after every pixel of its `w` x `h` image has been rewritten
/// by `f`; words past the image are unchanged.
pub open spec fn apply(s: Seq<u32>, w: int, h: int, f: spec_fn(int, int, u32) -> u32) -> Seq<u32> {
    apply_upto(s, w, h, f, w * h)
}

/// Paints colour `c` on the pixels of the rectangle at `(x, y)` of `rw` x `rh`
/// pixels; other pixels keep their value.
pub open spec fn paint_rect(x: int, y: int, rw: int, rh: int, c: u32) -> spec_fn(int, int, u32) -> u32 {
    |px: int, py: int, v: u32| if in_span(px, x, rw) && in_span(py, y, rh) { c } else { v }
}

/// `start + len` stays within `i32`, so walking `len` steps from `start` does
/// not overflow.
pub open spec fn fits(start: int, len: int) -> bool {
    start + len <= i32::MAX + 1
}

/// Whether a buffer of `len` words holds a `w` x `h` image.
pub open spec fn holds_image(len: int, w: int, h: int) -> bool {
    w * h <= len
}

pub proof fn lemma_decode(px: int, py: int, w: int)
    requires
        0 <= px < w,
    ensures
        (py * w + px) % w == px,
        (py * w + px) / w == py,
{
    lemma_fundamental_div_mod_converse(py * w + px, w, py, px);
}

pub proof fn lemma_idx_bound(px: int, py: int, w: int, h: int)
    requires
        in_bounds(px, py, w, h),
    ensures
        0 <= idx(px, py, w) < w * h,
        idx(px, py, w) + (w - px) <= w * h,
{
    assert(0 <= py * w + px && py * w + w <= w * h) by (nonlinear_arith)
        requires 0 <= px < w, 0 <= py < h;
}

pub proof fn lemma_apply_empty(s: Seq<u32>, w: int, h: int, f: spec_fn(int, int, u32) -> u32)
    ensures
        apply_upto(s, w, h, f, 0) == s,
{
    assert(apply_upto(s, w, h, f, 0) =~= s);
}

pub proof fn lemma_apply_write(
    s: Seq<u32>,
    w: int,
    h: int,
    f: spec_fn(int, int, u32) -> u32,
    px: int,
    py: int,
)
    requires
        in_bounds(px, py, w, h),
        holds_image(s.len() as int, w, h),
    ensures
        0 <= idx(px, py, w) < s.len(),
        apply_upto(s, w, h, f, idx(px, py, w)).update(idx(px, py, w), f(px, py, s[idx(px, py, w)]))
            == apply_upto(s, w, h, f, idx(px, py, w) + 1),
{
    let k = idx(px, py, w);
    lemma_idx_bound(px, py, w, h);
    lemma_decode(px, py, w);
    assert(apply_upto(s, w, h, f, k).update(k, f(px, py, s[k])) =~= apply_upto(s, w, h, f, k + 1));
}

pub proof fn lemma_apply_skip_cols(
    s: Seq<u32>,
    w: int,
    h: int,
    f: spec_fn(int, int, u32) -> u32,
    py: int,
    c1: int,
    c2: int,
)
    requires
        0 <= c1 <= c2 <= w,
        0 <= py < h,
        holds_image(s.len() as int, w, h),
        forall|px: int|
            c1 <= px < c2 ==> #[trigger] f(px, py, s[idx(px, py, w)]) == s[idx(px, py, w)],
    ensures
        apply_upto(s, w, h, f, idx(c1, py, w)) == apply_upto(s, w, h, f, idx(c2, py, w)),
{
    assert forall|i: int| 0 <= i < s.len() implies #[trigger] apply_upto(s, w, h, f, idx(c1, py, w))[i]
        == apply_upto(s, w, h, f, idx(c2, py, w))[i] by {
        if idx(c1, py, w) <= i < idx(c2, py, w) {
            let px = i - py * w;
            lemma_decode(px, py, w);
            assert(f(px, py, s[idx(px, py, w)]) == s[idx(px, py, w)]);
        }
    }
    assert(apply_upto(s, w, h, f, idx(c1, py, w)) =~= apply_upto(s, w, h, f, idx(c2, py, w)));
}

pub proof fn lemma_apply_skip_rows(
    s: Seq<u32>,
    w: int,
    h: int,
    f: spec_fn(int, int, u32) -> u32,
    r1: int,
    r2: int,
)
    requires
        0 <= r1 <= r2 <= h,
        0 < w,
        forall|px: int, py: int|
            0 <= px < w && r1 <= py < r2 ==> #[trigger] f(px, py, s[idx(px, py, w)]) == s[idx(
                px,
                py,
                w,
            )],
    ensures
        apply_upto(s, w, h, f, r1 * w) == apply_upto(s, w, h, f, r2 * w),
{
    assert(r1 * w <= r2 * w && r2 * w <= w * h) by (nonlinear_arith)
        requires r1 <= r2 <= h, 0 < w;
    assert forall|i: int| 0 <= i < s.len() implies #[trigger] apply_upto(s, w, h, f, r1 * w)[i]
        == apply_upto(s, w, h, f, r2 * w)[i] by {
        if r1 * w <= i < r2 * w {
            let q = i / w;
            let r = i % w;
            lemma_fundamental_div_mod(i, w);
            lemma_mod_pos_bound(i, w);
            assert(0 <= r < w);
            assert(i == q * w + r) by (nonlinear_arith)
                requires i == w * (i / w) + (i % w), q == i / w, r == i % w;
            assert(r1 <= q < r2) by (nonlinear_arith)
                requires r1 * w <= i < r2 * w, i == q * w + r, 0 <= r < w, 0 < w;
            assert(f(r, q, s[idx(r, q, w)]) == s[idx(r, q, w)]);
        }
    }
    assert(apply_upto(s, w, h, f, r1 * w) =~= apply_upto(s, w, h, f, r2 * w));
}

/// A rewrite that keeps every pixel leaves the buffer unchanged.
pub proof fn lemma_apply_identity(s: Seq<u32>, w: int, h: int, f: spec_fn(int, int, u32) -> u32)
    requires
        0 <= h,
        forall|px: int, py: int|
            in_bounds(px, py, w, h) ==> #[trigger] f(px, py, s[idx(px, py, w)]) == s[idx(px, py, w)],
    ensures
        apply(s, w, h, f) == s,
{
    if w > 0 {
        lemma_apply_empty(s, w, h, f);
        lemma_apply_skip_rows(s, w, h, f, 0, h);
        assert(h * w == w * h) by (nonlinear_arith);
    } else {
        assert(apply(s, w, h, f) =~= s);
    }
}

/// Moving from the end of row `py` to the start of row `py + 1`.
pub proof fn lemma_next_row(py: int, w: int)
    ensures
        idx(w, py, w) == (py + 1) * w,
        idx(0, py, w) == py * w,
{
    assert(py * w + w == (py + 1) * w) by (nonlinear_arith);
}

/// Sets columns `c1..c2` of row `py` to `c`, where the rewrite `f` paints
/// exactly `c` there.
fn fill_span(
    fb: &mut [u32],
    w: u32,
    h: u32,
    py: u32,
    c1: u32,
    c2: u32,
    c: u32,
    Ghost(s): Ghost<Seq<u32>>,
    Ghost(f): Ghost<spec_fn(int, int, u32) -> u32>,
)
    requires
        c1 <= c2 <= w,
        py < h,
        holds_image(s.len() as int, w as int, h as int),
        s.len() <= usize::MAX,
        old(fb)@ == apply_upto(s, w as int, h as int, f, idx(c1 as int, py as int, w as int)),
        forall|px: int| c1 <= px < c2 ==> #[trigger] f(px, py as int, s[idx(px, py as int, w as int)]) == c,
    ensures
        final(fb)@ == apply_upto(s, w as int, h as int, f, idx(c2 as int, py as int, w as int)),
{
    let mut px = c1;
    while px < c2
        invariant
            c1 <= px <= c2 <= w,
            py < h,
            holds_image(s.len() as int, w as int, h as int),
            s.len() <= usize::MAX,
            fb@ == apply_upto(s, w as int, h as int, f, idx(px as int, py as int, w as int)),
            forall|qx: int| c1 <= qx < c2 ==> #[trigger] f(qx, py as int, s[idx(qx, py as int, w as int)]) == c,
        decreases c2 - px,
    {
        proof {
            lemma_apply_write(s, w as int, h as int, f, px as int, py as int);
            lemma_idx_bound(px as int, py as int, w as int, h as int);
        }
        let i = py as usize * w as usize + px as usize;
        fb[i] = c;
        px = px + 1;
    }
}

/// Blends `fg` with weight `alpha` over columns `c1..c2` of row `py`, where
/// the rewrite `f` does exactly that there.
fn blend_span(
    fb: &mut [u32],
    w: u32,
    h: u32,
    py: u32,
    c1: u32,
    c2: u32,
    fg: Color,
    alpha: u8,
    Ghost(s): Ghost<Seq<u32>>,
    Ghost(f): Ghost<spec_fn(int, int, u32) -> u32>,
)
    requires
        c1 <= c2 <= w,
        py < h,
        holds_image(s.len() as int, w as int, h as int),
        s.len() <= usize::MAX,
        old(fb)@ == apply_upto(s, w as int, h as int, f, idx(c1 as int, py as int, w as int)),
        forall|px: int|
            c1 <= px < c2 ==> #[trigger] f(px, py as int, s[idx(px, py as int, w as int)])
                == blend_packed(fg@, s[idx(px, py as int, w as int)], alpha),
    ensures
        final(fb)@ == apply_upto(s, w as int, h as int, f, idx(c2 as int, py as int, w as int)),
{
    let mut px = c1;
    while px < c2
        invariant
            c1 <= px <= c2 <= w,
            py < h,
            holds_image(s.len() as int, w as int, h as int),
            s.len() <= usize::MAX,
            fb@ == apply_upto(s, w as int, h as int, f, idx(px as int, py as int, w as int)),
            forall|qx: int|
                c1 <= qx < c2 ==> #[trigger] f(qx, py as int, s[idx(qx, py as int, w as int)])
                    == blend_packed(fg@, s[idx(qx, py as int, w as int)], alpha),
        decreases c2 - px,
    {
        proof {
            lemma_apply_write(s, w as int, h as int, f, px as int, py as int);
            lemma_idx_bound(px as int, py as int, w as int, h as int);
        }
        let i = py as usize * w as usize + px as usize;
        let old_v = fb[i];
        fb[i] = fg.blend(Color::from_u32(old_v), alpha).to_u32();
        px = px + 1;
    }
}

/// Paints `c` on the box `x0..x1` x `y0..y1` (already inside the image), where
/// the rewrite `f` paints `c` inside the box and keeps every other pixel.
fn paint_box(
    fb: &mut [u32],
    w: u32,
    h: u32,
    x0: u32,
    x1: u32,
    y0: u32,
    y1: u32,
    c: u32,
    Ghost(f): Ghost<spec_fn(int, int, u32) -> u32>,
)
    requires
        x0 <= x1 <= w,
        y0 <= y1 <= h,
        holds_image(old(fb)@.len() as int, w as int, h as int),
        old(fb)@.len() <= usize::MAX,
        forall|px: int, py: int|
            in_bounds(px, py, w as int, h as int) ==> #[trigger] f(px, py, old(fb)@[idx(px, py, w as int)])
                == if x0 <= px < x1 && y0 <= py < y1 {
                c
            } else {
                old(fb)@[idx(px, py, w as int)]
            },
    ensures
        final(fb)@ == apply(old(fb)@, w as int, h as int, f),
{
    let ghost s = fb@;
    if w == 0 {
        assert(fb@ =~= apply(s, w as int, h as int, f));
        return;
    }
    proof {
        lemma_apply_empty(s, w as int, h as int, f);
        lemma_apply_skip_rows(s, w as int, h as int, f, 0, y0 as int);
    }
    let mut py = y0;
    while py < y1
        invariant
            x0 <= x1 <= w,
            y0 <= py <= y1 <= h,
            0 < w,
            holds_image(s.len() as int, w as int, h as int),
            s.len() <= usize::MAX,
            forall|px: int, qy: int|
                in_bounds(px, qy, w as int, h as int) ==> #[trigger] f(px, qy, s[idx(px, qy, w as int)])
                    == if x0 <= px < x1 && y0 <= qy < y1 {
                    c
                } else {
                    s[idx(px, qy, w as int)]
                },
            fb@ == apply_upto(s, w as int, h as int, f, py * w),
        decreases y1 - py,
    {
        proof {
            lemma_next_row(py as int, w as int);
            lemma_apply_skip_cols(s, w as int, h as int, f, py as int, 0, x0 as int);
        }
        fill_span(fb, w, h, py, x0, x1, c, Ghost(s), Ghost(f));
        proof {
            lemma_apply_skip_cols(s, w as int, h as int, f, py as int, x1 as int, w as int);
        }
        py = py + 1;
    }
    proof {
        lemma_apply_skip_rows(s, w as int, h as int, f, y1 as int, h as int);
    }
}

/// Clips the span `start .. start + len` (as `i64`) to `0 .. limit`, giving
/// an empty span when nothing is left.
pub fn clip_span(start: i64, len: i64, limit: u32) -> (r: (u32, u32))
    requires
        -0x1_0000_0000 <= start <= 0x1_0000_0000,
        -0x1_0000_0000 <= len <= 0x1_0000_0000,
    ensures
        r.0 <= r.1 <= limit,
        forall|p: int| (r.0 <= p < r.1) == (0 <= p < limit && #[trigger] in_span(p, start as int, len as int)),
{
    let lo: i64 = if start > 0 { start } else { 0 };
    let end = start + len;
    let hi: i64 = if end < limit as i64 { end } else { limit as i64 };
    if lo < hi {
        (lo as u32, hi as u32)
    } else {
        (0, 0)
    }
}

/// Fills the rectangle at `(x, y)` of `rw` x `rh` pixels (width and height
/// taken as `i32` values) with `color`, clipped to the `w` x `h` image.
pub fn fb_fill_rect(fb: &mut [u32], w: u32, h: u32, x: i32, y: i32, rw: u32, rh: u32, color: u32)
    requires
        holds_image(old(fb)@.len() as int, w as int, h as int),
        fits(x as int, signed(rw)),
        fits(y as int, signed(rh)),
    ensures
        final(fb)@ == apply(old(fb)@, w as int, h as int, paint_rect(x as int, y as int, signed(rw), signed(rh), color)),
{
    let ghost f = paint_rect(x as int, y as int, signed(rw), signed(rh), color);
    let _n = fb.len();
    let (x0, x1) = clip_span(x as i64, to_i32(rw) as i64, w);
    let (y0, y1) = clip_span(y as i64, to_i32(rh) as i64, h);
    paint_box(fb, w, h, x0, x1, y0, y1, color, Ghost(f));
}


/// Sets columns `a..b` of row `py` to `c` and leaves the rest of the row, where
/// the rewrite `f` does exactly that on this row.
fn paint_row(
    fb: &mut [u32],
    w: u32,
    h: u32,
    py: u32,
    a: u32,
    b: u32,
    c: u32,
    Ghost(s): Ghost<Seq<u32>>,
    Ghost(f): Ghost<spec_fn(int, int, u32) -> u32>,
)
    requires
        a <= b <= w,
        py < h,
        holds_image(s.len() as int, w as int, h as int),
        s.len() <= usize::MAX,
        old(fb)@ == apply_upto(s, w as int, h as int, f, py * w),
        forall|px: int|
            0 <= px < w ==> #[trigger] f(px, py as int, s[idx(px, py as int, w as int)]) == if a <= px < b {
                c
            } else {
                s[idx(px, py as int, w as int)]
            },
    ensures
        final(fb)@ == apply_upto(s, w as int, h as int, f, (py + 1) * w),
{
    proof {
        lemma_next_row(py as int, w as int);
        lemma_apply_skip_cols(s, w as int, h as int, f, py as int, 0, a as int);
    }
    fill_span(fb, w, h, py, a, b, c, Ghost(s), Ghost(f));
    proof {
        lemma_apply_skip_cols(s, w as int, h as int, f, py as int, b as int, w as int);
    }
}

/// Blends `fg` with weight `alpha` over columns `a..b` of row `py` and leaves
/// the rest of the row, where the rewrite `f` does exactly that on this row.
fn blend_row(
    fb: &mut [u32],
    w: u32,
    h: u32,
    py: u32,
    a: u32,
    b: u32,
    fg: Color,
    alpha: u8,
    Ghost(s): Ghost<Seq<u32>>,
    Ghost(f): Ghost<spec_fn(int, int, u32) -> u32>,
)
    requires
        a <= b <= w,
        py < h,
        holds_image(s.len() as int, w as int, h as int),
        s.len() <= usize::MAX,
        old(fb)@ == apply_upto(s, w as int, h as int, f, py * w),
        forall|px: int|
            0 <= px < w ==> #[trigger] f(px, py as int, s[idx(px, py as int, w as int)]) == if a <= px < b {
                blend_packed(fg@, s[idx(px, py as int, w as int)], alpha)
            } else {
                s[idx(px, py as int, w as int)]
            },
    ensures
        final(fb)@ == apply_upto(s, w as int, h as int, f, (py + 1) * w),
{
    proof {
        lemma_next_row(py as int, w as int);
        lemma_apply_skip_cols(s, w as int, h as int, f, py as int, 0, a as int);
    }
    blend_span(fb, w, h, py, a, b, fg, alpha, Ghost(s), Ghost(f));
    proof {
        lemma_apply_skip_cols(s, w as int, h as int, f, py as int, b as int, w as int);
    }
}

/// Sets pixel `(x, y)` to `color` when it lies in the `w` x `h` image.
pub fn fb_set_pixel(fb: &mut [u32], w: u32, h: u32, x: i32, y: i32, color: u32)
    requires
        holds_image(old(fb)@.len() as int, w as int, h as int),
    ensures
        final(fb)@ == apply(old(fb)@, w as int, h as int, paint_rect(x as int, y as int, 1, 1, color)),
{
    fb_fill_rect(fb, w, h, x, y, 1, 1, color);
}

/// Paints `color` on `len` pixels of row `y` starting at column `x` (the
/// length taken as an `i32` value), clipped to the image.
pub fn fb_hline(fb: &mut [u32], w: u32, h: u32, x: i32, y: i32, len: u32, color: u32)
    requires
        holds_image(old(fb)@.len() as int, w as int, h as int),
        0 <= y < h ==> fits(x as int, signed(len)),
    ensures
        final(fb)@ == apply(old(fb)@, w as int, h as int, paint_rect(x as int, y as int, signed(len), 1, color)),
{
    if y < 0 || y as u32 >= h {
        let ghost s = fb@;
        let ghost f = paint_rect(x as int, y as int, signed(len), 1, color);
        proof {
            lemma_apply_identity(s, w as int, h as int, f);
        }
        return;
    }
    fb_fill_rect(fb, w, h, x, y, len, 1, color);
}

/// Rewrite that blends `fg` with weight `alpha` over pixel `(x, y)` only.
pub open spec fn blend_at(x: int, y: int, fg: u32, alpha: u8) -> spec_fn(int, int, u32) -> u32 {
    |px: int, py: int, v: u32| if px == x && py == y { blend_packed(fg, v, alpha) } else { v }
}

/// Blends `fg` with weight `alpha` over pixel `(x, y)` when it lies in the image.
pub fn fb_blend_pixel(fb: &mut [u32], w: u32, h: u32, x: i32, y: i32, fg: Color, alpha: u8)
    requires
        holds_image(old(fb)@.len() as int, w as int, h as int),
    ensures
        final(fb)@ == apply(old(fb)@, w as int, h as int, blend_at(x as int, y as int, fg@, alpha)),
{
    let ghost s = fb@;
    let ghost f = blend_at(x as int, y as int, fg@, alpha);
    let _n = fb.len();
    if x < 0 || y < 0 || x as u32 >= w || y as u32 >= h {
        proof {
            lemma_apply_identity(s, w as int, h as int, f);
        }
        return;
    }
    proof {
        lemma_idx_bound(x as int, y as int, w as int, h as int);
        lemma_apply_empty(s, w as int, h as int, f);
        lemma_apply_skip_rows(s, w as int, h as int, f, 0, y as int);
        lemma_next_row(y as int, w as int);
        lemma_apply_skip_cols(s, w as int, h as int, f, y as int, 0, x as int);
    }
    blend_span(fb, w, h, y as u32, x as u32, x as u32 + 1, fg, alpha, Ghost(s), Ghost(f));
    proof {
        lemma_apply_skip_cols(s, w as int, h as int, f, y as int, x + 1, w as int);
        lemma_apply_skip_rows(s, w as int, h as int, f, y + 1, h as int);
    }
}

/// Whether `(px, py)` lies in the rectangle at `(x, y)` of `w` x `h` pixels
/// whose corners are rounded with radius `r`: inside the rectangle, and, in a
/// corner square, within distance `r` of that corner's centre.
pub open spec fn in_rrect(px: int, py: int, x: int, y: int, w: int, h: int, r: int) -> bool {
    if px < x || py < y || px >= x + w || py >= y + h {
        false
    } else if r <= 0 {
        true
    } else {
        let left = x + r;
        let right = x + w - r - 1;
        let top = y + r;
        let bot = y + h - r - 1;
        if (left <= px <= right) || (top <= py <= bot) {
            true
        } else {
            let cx = if px < left { left } else { right };
            let cy = if py < top { top } else { bot };
            (px - cx) * (px - cx) + (py - cy) * (py - cy) <= r * r
        }
    }
}

/// The corner radius actually used for a `w` x `h` rounded rectangle: the
/// requested radius, at most half the shorter side.
pub open spec fn round_radius(radius: u32, w: u32, h: u32) -> int {
    let m = if w < h { w as int } else { h as int };
    if (radius as int) < m / 2 { radius as int } else { m / 2 }
}

/// Whether `(px, py)` is a pixel of the rounded rectangle at `(x, y)` of
/// `w` x `h` pixels with the requested corner radius. Sizes are read as
/// `i32` values, so a side longer than `i32::MAX` is negative and the
/// rectangle holds no pixel.
pub open spec fn in_round_rect(px: int, py: int, x: int, y: int, w: u32, h: u32, radius: u32) -> bool {
    0 < w <= i32::MAX && 0 < h <= i32::MAX && in_rrect(px, py, x, y, w as int, h as int, round_radius(radius, w, h))
}

/// Paints `c` on the rounded rectangle.
pub open spec fn paint_round_rect(x: int, y: int, w: u32, h: u32, radius: u32, c: u32) -> spec_fn(int, int, u32) -> u32 {
    |px: int, py: int, v: u32| if in_round_rect(px, py, x, y, w, h, radius) { c } else { v }
}

/// `isqrt(n)` is the largest `r` with `r * r <= n`.
pub open spec fn is_isqrt(n: int, r: int) -> bool {
    0 <= r && r * r <= n < (r + 1) * (r + 1)
}

/// The integer square root, rounded down.
pub fn isqrt(n: i32) -> (r: i32)
    requires
        n >= 0,
    ensures
        is_isqrt(n as int, r as int),
{
    let mut lo: i32 = 0;
    let mut hi: i32 = 46341;
    assert(46341 * 46341 > i32::MAX);
    while hi - lo > 1
        invariant
            0 <= lo < hi <= 46341,
            lo * lo <= n,
            n < hi * hi,
        decreases hi - lo,
    {
        let mid = lo + (hi - lo) / 2;
        assert(mid * mid <= 46341 * 46341) by (nonlinear_arith)
            requires 0 <= mid <= 46341;
        if (mid as i64) * (mid as i64) <= n as i64 {
            lo = mid;
        } else {
            hi = mid;
        }
    }
    lo
}

/// With `r` the integer square root of `q`, `k <= r` exactly when `k * k <= q`.
pub proof fn lemma_isqrt_compare(q: int, r: int, k: int)
    requires
        is_isqrt(q, r),
        0 <= k,
    ensures
        (k <= r) == (k * k <= q),
{
    if k <= r {
        assert(k * k <= r * r) by (nonlinear_arith)
            requires 0 <= k <= r;
    } else {
        assert((r + 1) * (r + 1) <= k * k) by (nonlinear_arith)
            requires 0 <= r, r + 1 <= k;
    }
}


/// The integer square root of `n`, rounded down.
pub open spec fn floor_sqrt(n: int) -> int {
    choose|r: int| is_isqrt(n, r)
}

/// The integer square root is unique, so it is `floor_sqrt`.
pub proof fn lemma_floor_sqrt(n: int, r: int)
    requires
        is_isqrt(n, r),
    ensures
        floor_sqrt(n) == r,
{
    let r2 = floor_sqrt(n);
    assert(is_isqrt(n, r2));
    if r2 < r {
        assert((r2 + 1) * (r2 + 1) <= r * r) by (nonlinear_arith)
            requires 0 <= r2, r2 + 1 <= r;
    } else if r < r2 {
        assert((r + 1) * (r + 1) <= r2 * r2) by (nonlinear_arith)
            requires 0 <= r, r + 1 <= r2;
    }
}

/// How far a corner row at vertical distance `d` from the corner centre
/// reaches past the corner centre, for corner radius `r`.
pub open spec fn corner_reach(r: int, d: int) -> int {
    floor_sqrt(r * r - d * d)
}

/// Vertical distance from row `row` of a `h`-row rectangle with corner radius
/// `r` to the nearest corner centre row, or 0 in the middle rows.
pub open spec fn corner_dist(row: int, h: int, r: int) -> int {
    if row < r {
        r - row
    } else if row > h - r - 1 {
        row - (h - r - 1)
    } else {
        0
    }
}

/// First column of row `row` of the rounded rectangle at column `x`, `w`
/// wide and `h` high, with corner radius `r`.
pub open spec fn span_left(row: int, h: int, r: int, x: int, w: int) -> int {
    if r <= 0 || corner_dist(row, h, r) == 0 {
        x
    } else {
        x + r - corner_reach(r, corner_dist(row, h, r))
    }
}

/// Last column of row `row` of that rounded rectangle.
pub open spec fn span_right(row: int, h: int, r: int, x: int, w: int) -> int {
    if r <= 0 || corner_dist(row, h, r) == 0 {
        x + w - 1
    } else {
        x + w - r - 1 + corner_reach(r, corner_dist(row, h, r))
    }
}

/// In a corner row at vertical distance `d` from the corner centre, with
/// `ins` the integer square root of `r * r - d * d`, the pixels of the rounded
/// rectangle are exactly the columns `x + r - ins ..= x + w - r - 1 + ins`.
proof fn lemma_corner_row(px: int, row: int, x: int, w: int, h: int, r: int, cy: int, d: int, ins: int)
    requires
        0 < r,
        2 * r <= w,
        2 * r <= h,
        0 <= row < h,
        1 <= d <= r,
        (row < r && cy == r && d == r - row) || (row > h - r - 1 && cy == h - r - 1 && d == row - cy),
        is_isqrt(r * r - d * d, ins),
        ins < r,
    ensures
        (x + r - ins <= px <= x + w - r - 1 + ins) == in_rrect(px, row, x, 0, w, h, r),
{
    let q = r * r - d * d;
    let left = x + r;
    let right = x + w - r - 1;
    assert((row - cy) * (row - cy) == d * d) by (nonlinear_arith)
        requires row - cy == d || row - cy == -d;
    if px < left {
        lemma_isqrt_compare(q, ins, left - px);
        assert((px - left) * (px - left) == (left - px) * (left - px)) by (nonlinear_arith);
    } else if px > right {
        lemma_isqrt_compare(q, ins, px - right);
    }
}

/// Every number from 0 on has an integer square root, so `floor_sqrt`
/// gives it.
pub proof fn lemma_isqrt_exists(n: int)
    requires
        0 <= n,
    ensures
        is_isqrt(n, floor_sqrt(n)),
    decreases n,
{
    if n == 0 {
        assert(is_isqrt(0, 0));
    } else {
        lemma_isqrt_exists(n - 1);
        let r = floor_sqrt(n - 1);
        if (r + 1) * (r + 1) <= n {
            assert((r + 1) * (r + 1) == n);
            assert(n < (r + 2) * (r + 2)) by (nonlinear_arith)
                requires (r + 1) * (r + 1) == n, 0 <= r;
            assert(is_isqrt(n, r + 1));
        } else {
            assert(is_isqrt(n, r));
        }
    }
}

/// The columns just outside a row's span are not pixels of the rounded
/// rectangle; when the span is not empty (as in every row but the first
/// and the last), its first and last columns are.
pub proof fn lemma_span_edges(row: int, h: int, r: int, x: int, w: int)
    requires
        0 < r,
        2 * r <= w,
        2 * r <= h,
        0 <= row < h,
    ensures
        0 < row < h - 1 ==> span_left(row, h, r, x, w) <= span_right(row, h, r, x, w),
        span_left(row, h, r, x, w) <= span_right(row, h, r, x, w) ==> in_rrect(span_left(row, h, r, x, w), row, x, 0, w, h, r),
        span_left(row, h, r, x, w) <= span_right(row, h, r, x, w) ==> in_rrect(span_right(row, h, r, x, w), row, x, 0, w, h, r),
        !in_rrect(span_left(row, h, r, x, w) - 1, row, x, 0, w, h, r),
        !in_rrect(span_right(row, h, r, x, w) + 1, row, x, 0, w, h, r),
{
    let d = corner_dist(row, h, r);
    if d != 0 {
        let cy = if row < r { r } else { h - r - 1 };
        let q = r * r - d * d;
        assert(1 <= d * d <= r * r) by (nonlinear_arith)
            requires 1 <= d <= r;
        lemma_isqrt_exists(q);
        let ins = floor_sqrt(q);
        assert(ins < r) by (nonlinear_arith)
            requires is_isqrt(q, ins), q < r * r, 0 <= r;
        if 0 < row < h - 1 {
            assert(d < r);
            assert(1 <= q) by (nonlinear_arith)
                requires q == r * r - d * d, 1 <= d < r;
            assert(1 <= ins) by (nonlinear_arith)
                requires is_isqrt(q, ins), 1 <= q;
        }
        let l = span_left(row, h, r, x, w);
        let rt = span_right(row, h, r, x, w);
        lemma_corner_row(l, row, x, w, h, r, cy, d, ins);
        lemma_corner_row(rt, row, x, w, h, r, cy, d, ins);
        lemma_corner_row(l - 1, row, x, w, h, r, cy, d, ins);
        lemma_corner_row(rt + 1, row, x, w, h, r, cy, d, ins);
    }
}

/// The span of columns covered by row `row` of a `w` x `h` rectangle at column
/// `x` with corner radius `r`: the full width in the middle rows, narrowed by
/// the integer square root in the `r` rows at the top and at the bottom.
pub fn rrect_span(row: i32, h: i32, r: i32, r2: i32, x: i32, w: i32) -> (sp: (i32, i32))
    requires
        0 <= row < h,
        0 <= r,
        0 < w,
        r2 == r * r,
        2 * r <= w,
        2 * r <= h,
        fits(x as int, w as int),
    ensures
        forall|px: int| (sp.0 <= px <= sp.1) == #[trigger] in_rrect(px, row as int, x as int, 0, w as int, h as int, r as int),
        sp.0 == span_left(row as int, h as int, r as int, x as int, w as int),
        sp.1 == span_right(row as int, h as int, r as int, x as int, w as int),
{
    if r <= 0 {
        return (x, x + (w - 1));
    }
    if row < r || row > h - r - 1 {
        let cy = if row < r { r } else { h - r - 1 };
        let d = if row < r { r - row } else { row - cy };
        assert(1 <= d * d <= r * r) by (nonlinear_arith)
            requires 1 <= d <= r;
        let q = r2 - d * d;
        let ins = isqrt(q);
        proof {
            lemma_floor_sqrt(q as int, ins as int);
        }
        assert(ins < r) by (nonlinear_arith)
            requires is_isqrt(q as int, ins as int), q < r * r, 0 <= r;
        assert forall|px: int| (x + r - ins <= px <= x + (w - r - 1 + ins)) == #[trigger] in_rrect(
            px,
            row as int,
            x as int,
            0,
            w as int,
            h as int,
            r as int,
        ) by {
            lemma_corner_row(px, row as int, x as int, w as int, h as int, r as int, cy as int, d as int, ins as int);
        }
        (x + (r - ins), x + (w - r - 1 + ins))
    } else {
        (x, x + (w - 1))
    }
}

/// Fills the rounded rectangle at `(x, y)` of `rw` x `rh` pixels with `color`,
/// one row span at a time, clipped to the image.
pub fn fb_fill_round_rect(
    fb: &mut [u32],
    w: u32,
    h: u32,
    x: i32,
    y: i32,
    rw: u32,
    rh: u32,
    radius: u32,
    color: u32,
)
    requires
        holds_image(old(fb)@.len() as int, w as int, h as int),
        rw <= i32::MAX && rh <= i32::MAX ==> fits(x as int, rw as int) && fits(y as int, rh as int),
        round_radius(radius, rw, rh) <= 46340,
    ensures
        final(fb)@ == apply(old(fb)@, w as int, h as int, paint_round_rect(x as int, y as int, rw, rh, radius, color)),
{
    let ghost s = fb@;
    let ghost f = paint_round_rect(x as int, y as int, rw, rh, radius, color);
    let _n = fb.len();
    if w == 0 || rw == 0 || rh == 0 || rw > 0x7fff_ffff || rh > 0x7fff_ffff {
        proof {
            lemma_apply_identity(s, w as int, h as int, f);
        }
        return;
    }
    let m = if rw < rh { rw } else { rh };
    let r: i32 = if radius < m / 2 { radius as i32 } else { (m / 2) as i32 };
    assert(r == round_radius(radius, rw, rh));
    assert(r * r <= 46340 * 46340) by (nonlinear_arith)
        requires 0 <= r <= 46340;
    let r2 = r * r;
    let (y0, y1) = clip_span(y as i64, rh as i64, h);
    proof {
        assert forall|px: int, qy: int| 0 <= px < w && 0 <= qy < y0 implies #[trigger] f(
            px,
            qy,
            s[idx(px, qy, w as int)],
        ) == s[idx(px, qy, w as int)] by {
            assert(!in_span(qy, y as int, rh as int));
        }
        lemma_apply_empty(s, w as int, h as int, f);
        lemma_apply_skip_rows(s, w as int, h as int, f, 0, y0 as int);
    }
    let mut py = y0;
    while py < y1
        invariant
            y0 <= py <= y1 <= h,
            0 < w,
            0 < rw <= i32::MAX,
            0 < rh <= i32::MAX,
            fits(x as int, rw as int),
            fits(y as int, rh as int),
            r == round_radius(radius, rw, rh),
            0 <= r <= 46340,
            r2 == r * r,
            holds_image(s.len() as int, w as int, h as int),
            s.len() <= usize::MAX,
            f == paint_round_rect(x as int, y as int, rw, rh, radius, color),
            forall|p: int| (y0 <= p < y1) == (0 <= p < h && #[trigger] in_span(p, y as int, rh as int)),
            fb@ == apply_upto(s, w as int, h as int, f, py * w),
        decreases y1 - py,
    {
        assert(in_span(py as int, y as int, rh as int));
        let row = (py as i64 - y as i64) as i32;
        let (sx0, sx1) = rrect_span(row, rh as i32, r, r2, x, rw as i32);
        let a: i64 = if sx0 > 0 { sx0 as i64 } else { 0 };
        let b: i64 = if (sx1 as i64) + 1 < w as i64 { sx1 as i64 + 1 } else { w as i64 };
        let (a, b) = if a < b { (a as u32, b as u32) } else { (0u32, 0u32) };
        assert forall|px: int| 0 <= px < w implies #[trigger] f(px, py as int, s[idx(px, py as int, w as int)])
            == if a <= px < b { color } else { s[idx(px, py as int, w as int)] } by {
            assert(in_rrect(px, row as int, x as int, 0, rw as int, rh as int, r as int) == in_rrect(
                px,
                py as int,
                x as int,
                y as int,
                rw as int,
                rh as int,
                r as int,
            ));
        }
        paint_row(fb, w, h, py, a, b, color, Ghost(s), Ghost(f));
        py = py + 1;
    }
    proof {
        assert forall|px: int, qy: int| 0 <= px < w && y1 <= qy < h implies #[trigger] f(
            px,
            qy,
            s[idx(px, qy, w as int)],
        ) == s[idx(px, qy, w as int)] by {
            assert(!in_span(qy, y as int, rh as int));
        }
        lemma_apply_skip_rows(s, w as int, h as int, f, y1 as int, h as int);
    }
}


/// Rewrites every pixel of the box `x0..x1` x `y0..y1` (inside the image) by
/// the pixel function `op`, which computes the rewrite `f`; `f` keeps every
/// pixel outside the box.
pub fn map_box<F: Fn(u32, u32, u32) -> u32>(
    fb: &mut [u32],
    w: u32,
    h: u32,
    x0: u32,
    x1: u32,
    y0: u32,
    y1: u32,
    op: F,
    Ghost(f): Ghost<spec_fn(int, int, u32) -> u32>,
)
    requires
        x0 <= x1 <= w,
        y0 <= y1 <= h,
        holds_image(old(fb)@.len() as int, w as int, h as int),
        old(fb)@.len() <= usize::MAX,
        forall|px: u32, py: u32, v: u32| x0 <= px < x1 && y0 <= py < y1 ==> #[trigger] op.requires((px, py, v)),
        forall|px: u32, py: u32, v: u32, r: u32|
            #[trigger] op.ensures((px, py, v), r) ==> r == f(px as int, py as int, v),
        forall|px: int, py: int|
            in_bounds(px, py, w as int, h as int) && !(x0 <= px < x1 && y0 <= py < y1) ==> #[trigger] f(
                px,
                py,
                old(fb)@[idx(px, py, w as int)],
            ) == old(fb)@[idx(px, py, w as int)],
    ensures
        final(fb)@ == apply(old(fb)@, w as int, h as int, f),
{
    let ghost s = fb@;
    if w == 0 {
        proof {
            lemma_apply_identity(s, w as int, h as int, f);
        }
        return;
    }
    proof {
        lemma_apply_empty(s, w as int, h as int, f);
        lemma_apply_skip_rows(s, w as int, h as int, f, 0, y0 as int);
    }
    let mut py = y0;
    while py < y1
        invariant
            x0 <= x1 <= w,
            y0 <= py <= y1 <= h,
            0 < w,
            holds_image(s.len() as int, w as int, h as int),
            s.len() <= usize::MAX,
            forall|px: u32, qy: u32, v: u32| x0 <= px < x1 && y0 <= qy < y1 ==> #[trigger] op.requires((px, qy, v)),
            forall|px: u32, qy: u32, v: u32, r: u32|
                #[trigger] op.ensures((px, qy, v), r) ==> r == f(px as int, qy as int, v),
            forall|px: int, qy: int|
                in_bounds(px, qy, w as int, h as int) && !(x0 <= px < x1 && y0 <= qy < y1) ==> #[trigger] f(
                    px,
                    qy,
                    s[idx(px, qy, w as int)],
                ) == s[idx(px, qy, w as int)],
            fb@ == apply_upto(s, w as int, h as int, f, py * w),
        decreases y1 - py,
    {
        proof {
            lemma_next_row(py as int, w as int);
            lemma_apply_skip_cols(s, w as int, h as int, f, py as int, 0, x0 as int);
        }
        let mut px = x0;
        while px < x1
            invariant
                x0 <= px <= x1 <= w,
                y0 <= py < y1 <= h,
                0 < w,
                holds_image(s.len() as int, w as int, h as int),
                s.len() <= usize::MAX,
                forall|qx: u32, qy: u32, v: u32| x0 <= qx < x1 && y0 <= qy < y1 ==> #[trigger] op.requires((qx, qy, v)),
                forall|qx: u32, qy: u32, v: u32, r: u32|
                    #[trigger] op.ensures((qx, qy, v), r) ==> r == f(qx as int, qy as int, v),
                fb@ == apply_upto(s, w as int, h as int, f, idx(px as int, py as int, w as int)),
            decreases x1 - px,
        {
            proof {
                lemma_apply_write(s, w as int, h as int, f, px as int, py as int);
                lemma_idx_bound(px as int, py as int, w as int, h as int);
            }
            let i = py as usize * w as usize + px as usize;
            let old_v = fb[i];
            let new_v = op(px, py, old_v);
            fb[i] = new_v;
            px = px + 1;
        }
        proof {
            lemma_apply_skip_cols(s, w as int, h as int, f, py as int, x1 as int, w as int);
        }
        py = py + 1;
    }
    proof {
        lemma_apply_skip_rows(s, w as int, h as int, f, y1 as int, h as int);
    }
}


/// Paints `color` on the set bits of the glyph `rows` placed with its top-left
/// corner at `(x, y)`.
pub open spec fn paint_glyph(x: int, y: int, rows: Seq<u8>, color: u32) -> spec_fn(int, int, u32) -> u32 {
    |px: int, py: int, v: u32|
        if 0 <= px - x < FONT_W && 0 <= py - y < FONT_H && glyph_bit(rows[py - y], px - x) {
            color
        } else {
            v
        }
}

/// Paints `color` on the set bits of the glyph `rows` drawn `scale` times
/// larger, each glyph bit becoming a `scale` x `scale` block.
pub open spec fn paint_blocks(x: int, y: int, rows: Seq<u8>, color: u32, scale: int) -> spec_fn(
    int,
    int,
    u32,
) -> u32 {
    |px: int, py: int, v: u32|
        if scale > 0 && 0 <= px - x < FONT_W * scale && 0 <= py - y < FONT_H * scale && glyph_bit(
            rows[(py - y) / scale],
            (px - x) / scale,
        ) {
            color
        } else {
            v
        }
}

/// Draws the glyph `rows` (`FONT_H` row bytes) at `(x, y)` in `color`,
/// clipped to the image.
pub fn fb_draw_glyph(fb: &mut [u32], w: u32, h: u32, x: i32, y: i32, rows: &Vec<u8>, color: u32)
    requires
        holds_image(old(fb)@.len() as int, w as int, h as int),
        rows.len() == FONT_H,
        fits(x as int, FONT_W as int),
        fits(y as int, FONT_H as int),
    ensures
        final(fb)@ == apply(old(fb)@, w as int, h as int, paint_glyph(x as int, y as int, rows@, color)),
{
    let ghost f = paint_glyph(x as int, y as int, rows@, color);
    let _n = fb.len();
    let (x0, x1) = clip_span(x as i64, 8, w);
    let (y0, y1) = clip_span(y as i64, 13, h);
    let op = |px: u32, py: u32, v: u32| -> (r: u32)
        requires
            x0 <= px < x1,
            y0 <= py < y1,
        ensures
            r == paint_glyph(x as int, y as int, rows@, color)(px as int, py as int, v),
        {
            assert(in_span(px as int, x as int, 8));
            assert(in_span(py as int, y as int, 13));
            let col = (px as i64 - x as i64) as u8;
            let row = (py as i64 - y as i64) as usize;
            let bits = rows[row];
            if bits & (0x80u8 >> col) != 0 {
                color
            } else {
                v
            }
        };
    proof {
        assert forall|px: int, py: int|
            in_bounds(px, py, w as int, h as int) && !(x0 <= px < x1 && y0 <= py < y1) implies #[trigger] f(
            px,
            py,
            fb@[idx(px, py, w as int)],
        ) == fb@[idx(px, py, w as int)] by {
            assert(!(in_span(px, x as int, 8) && in_span(py, y as int, 13)));
        }
    }
    map_box(fb, w, h, x0, x1, y0, y1, op, Ghost(f));
}

/// Draws the glyph `rows` at `(x, y)` in `color`, each bit a `scale` x `scale`
/// block, clipped to the image; nothing when `scale` is 0.
pub fn fb_draw_blocks(fb: &mut [u32], w: u32, h: u32, x: i32, y: i32, rows: &Vec<u8>, color: u32, scale: u32)
    requires
        holds_image(old(fb)@.len() as int, w as int, h as int),
        rows.len() == FONT_H,
        FONT_H * scale <= i32::MAX,
        fits(x as int, FONT_W * scale),
        fits(y as int, FONT_H * scale),
    ensures
        final(fb)@ == apply(old(fb)@, w as int, h as int, paint_blocks(x as int, y as int, rows@, color, scale as int)),
{
    let ghost f = paint_blocks(x as int, y as int, rows@, color, scale as int);
    let _n = fb.len();
    if scale == 0 {
        proof {
            lemma_apply_identity(fb@, w as int, h as int, f);
        }
        return;
    }
    let (x0, x1) = clip_span(x as i64, 8 * scale as i64, w);
    let (y0, y1) = clip_span(y as i64, 13 * scale as i64, h);
    let op = |px: u32, py: u32, v: u32| -> (r: u32)
        requires
            x0 <= px < x1,
            y0 <= py < y1,
            scale > 0,
        ensures
            r == paint_blocks(x as int, y as int, rows@, color, scale as int)(px as int, py as int, v),
        {
            assert(in_span(px as int, x as int, 8 * scale as int));
            assert(in_span(py as int, y as int, 13 * scale as int));
            let dx = (px as i64 - x as i64) as u32;
            let dy = (py as i64 - y as i64) as u32;
            let col = dx / scale;
            let row = dy / scale;
            assert(col < 8 && row < 13) by (nonlinear_arith)
                requires dx < 8 * scale, dy < 13 * scale, col == dx / scale, row == dy / scale, scale > 0;
            let bits = rows[row as usize];
            if bits & (0x80u8 >> (col as u8)) != 0 {
                color
            } else {
                v
            }
        };
    proof {
        assert forall|px: int, py: int|
            in_bounds(px, py, w as int, h as int) && !(x0 <= px < x1 && y0 <= py < y1) implies #[trigger] f(
            px,
            py,
            fb@[idx(px, py, w as int)],
        ) == fb@[idx(px, py, w as int)] by {
            assert(!(in_span(px, x as int, 8 * scale as int) && in_span(py, y as int, 13 * scale as int)));
        }
    }
    map_box(fb, w, h, x0, x1, y0, y1, op, Ghost(f));
}


/// Whether `(px, py)` is within distance `r` of `(cx, cy)`.
pub open spec fn in_disc(px: int, py: int, cx: int, cy: int, r: int) -> bool {
    (px - cx) * (px - cx) + (py - cy) * (py - cy) <= r * r
}

/// Paints `c` on the disc of radius `r` around `(cx, cy)`.
pub open spec fn paint_disc(cx: int, cy: int, r: int, c: u32) -> spec_fn(int, int, u32) -> u32 {
    |px: int, py: int, v: u32| if in_disc(px, py, cx, cy, r) { c } else { v }
}

proof fn lemma_disc_row(px: int, py: int, cx: int, cy: int, r: int, dx: int)
    requires
        0 <= r,
        (py - cy) * (py - cy) <= r * r,
        is_isqrt(r * r - (py - cy) * (py - cy), dx),
    ensures
        in_disc(px, py, cx, cy, r) == (cx - dx <= px <= cx + dx),
{
    let k = if px >= cx { px - cx } else { cx - px };
    assert((px - cx) * (px - cx) == k * k) by (nonlinear_arith)
        requires k == px - cx || k == cx - px;
    lemma_isqrt_compare(r * r - (py - cy) * (py - cy), dx, k);
}

proof fn lemma_disc_far_row(px: int, py: int, cx: int, cy: int, r: int)
    requires
        0 <= r,
        !(cy - r <= py <= cy + r),
    ensures
        !in_disc(px, py, cx, cy, r),
{
    assert((py - cy) * (py - cy) > r * r) by (nonlinear_arith)
        requires 0 <= r, py - cy > r || cy - py > r;
    assert((px - cx) * (px - cx) >= 0) by (nonlinear_arith);
}

/// Fills the disc of radius `r` around `(cx, cy)` with `color`, clipped to the
/// image.
pub fn fb_fill_circle(fb: &mut [u32], w: u32, h: u32, cx: i32, cy: i32, r: u32, color: u32)
    requires
        holds_image(old(fb)@.len() as int, w as int, h as int),
        r <= 46340,
        i32::MIN <= cx - r,
        cx + r <= i32::MAX,
        i32::MIN <= cy - r,
        cy + r <= i32::MAX,
    ensures
        final(fb)@ == apply(old(fb)@, w as int, h as int, paint_disc(cx as int, cy as int, r as int, color)),
{
    let ghost s = fb@;
    let ghost f = paint_disc(cx as int, cy as int, r as int, color);
    let _n = fb.len();
    if w == 0 {
        proof {
            lemma_apply_identity(s, w as int, h as int, f);
        }
        return;
    }
    let ri = r as i32;
    assert(ri * ri <= 46340 * 46340) by (nonlinear_arith)
        requires 0 <= ri <= 46340;
    let rr = ri * ri;
    let (y0, y1) = clip_span(cy as i64 - ri as i64, 2 * ri as i64 + 1, h);
    proof {
        assert forall|px: int, qy: int| 0 <= px < w && 0 <= qy < y0 implies #[trigger] f(
            px,
            qy,
            s[idx(px, qy, w as int)],
        ) == s[idx(px, qy, w as int)] by {
            assert(!in_span(qy, cy - ri, 2 * ri + 1));
            lemma_disc_far_row(px, qy, cx as int, cy as int, r as int);
        }
        lemma_apply_empty(s, w as int, h as int, f);
        lemma_apply_skip_rows(s, w as int, h as int, f, 0, y0 as int);
    }
    let mut py = y0;
    while py < y1
        invariant
            y0 <= py <= y1 <= h,
            0 < w,
            ri == r,
            r <= 46340,
            rr == ri * ri,
            i32::MIN <= cx - r,
            cx + r <= i32::MAX,
            i32::MIN <= cy - r,
            cy + r <= i32::MAX,
            holds_image(s.len() as int, w as int, h as int),
            s.len() <= usize::MAX,
            f == paint_disc(cx as int, cy as int, r as int, color),
            forall|p: int| (y0 <= p < y1) == (0 <= p < h && #[trigger] in_span(p, cy - ri, 2 * ri + 1)),
            fb@ == apply_upto(s, w as int, h as int, f, py * w),
        decreases y1 - py,
    {
        assert(in_span(py as int, cy - ri, 2 * ri + 1));
        let dy = (py as i64 - cy as i64) as i32;
        assert(0 <= dy * dy <= ri * ri) by (nonlinear_arith)
            requires -ri <= dy <= ri;
        let dx = isqrt(rr - dy * dy);
        assert(dx <= ri) by (nonlinear_arith)
            requires is_isqrt(rr - dy * dy, dx as int), rr == ri * ri, 0 <= ri, 0 <= dy * dy;
        let a: i64 = if cx as i64 - dx as i64 > 0 { cx as i64 - dx as i64 } else { 0 };
        let b: i64 = if cx as i64 + dx as i64 + 1 < w as i64 { cx as i64 + dx as i64 + 1 } else { w as i64 };
        let (a, b) = if a < b { (a as u32, b as u32) } else { (0u32, 0u32) };
        assert forall|px: int| 0 <= px < w implies #[trigger] f(px, py as int, s[idx(px, py as int, w as int)])
            == if a <= px < b { color } else { s[idx(px, py as int, w as int)] } by {
            lemma_disc_row(px, py as int, cx as int, cy as int, r as int, dx as int);
        }
        paint_row(fb, w, h, py, a, b, color, Ghost(s), Ghost(f));
        py = py + 1;
    }
    proof {
        assert forall|px: int, qy: int| 0 <= px < w && y1 <= qy < h implies #[trigger] f(
            px,
            qy,
            s[idx(px, qy, w as int)],
        ) == s[idx(px, qy, w as int)] by {
            assert(!in_span(qy, cy - ri, 2 * ri + 1));
            lemma_disc_far_row(px, qy, cx as int, cy as int, r as int);
        }
        lemma_apply_skip_rows(s, w as int, h as int, f, y1 as int, h as int);
    }
}


/// Colour of row `row` of a vertical gradient `gh` rows high from `top` to
/// `bot`: `bot` blended over `top` with weight `row * 255 / gh`.
pub open spec fn gradient_color(top: u32, bot: u32, row: int, gh: int) -> u32 {
    blend_packed(bot, top, ((row * 255) / gh) as u8)
}

/// The gradient colour of one row, with its value stated.
fn gradient_row_color(top: Color, bot: Color, row: u32, gh: u32) -> (c: u32)
    requires
        row < gh,
        row * 255 <= u32::MAX,
    ensures
        c == gradient_color(top@, bot@, row as int, gh as int),
{
    let t = (row * 255) / gh;
    assert(t < 255) by (nonlinear_arith)
        requires t as int == (row as int * 255) / (gh as int), row < gh;
    bot.blend(top, t as u8).to_u32()
}

/// Whether every row of a `gh`-row rectangle at `y` that lands on an image
/// of `ih` rows has its index within the rectangle, times 255, in `u32`
/// (the gradient and glass weights of a row are computed so).
pub open spec fn rows_weighable(y: int, gh: int, ih: int) -> bool {
    forall|py: int| 0 <= py < ih && #[trigger] in_span(py, y, gh) ==> (py - y) * 255 <= u32::MAX
}

/// Paints the rectangle at `(x, y)` of `gw` x `gh` pixels with the vertical
/// gradient from `top` to `bot`.
pub open spec fn paint_gradient(x: int, y: int, gw: int, gh: int, top: u32, bot: u32) -> spec_fn(int, int, u32) -> u32 {
    |px: int, py: int, v: u32|
        if in_span(px, x, gw) && in_span(py, y, gh) {
            gradient_color(top, bot, py - y, gh)
        } else {
            v
        }
}

/// Fills the rectangle at `(x, y)` of `gw` x `gh` pixels with a vertical
/// gradient from `top` (first row) towards `bot`, clipped to the image.
pub fn fb_fill_gradient_v(
    fb: &mut [u32],
    w: u32,
    h: u32,
    x: i32,
    y: i32,
    gw: u32,
    gh: u32,
    top: u32,
    bot: u32,
)
    requires
        holds_image(old(fb)@.len() as int, w as int, h as int),
        fits(x as int, signed(gw)),
        fits(y as int, signed(gh)),
        rows_weighable(y as int, signed(gh), h as int),
    ensures
        final(fb)@ == apply(old(fb)@, w as int, h as int, paint_gradient(x as int, y as int, signed(gw), signed(gh), top, bot)),
{
    let ghost s = fb@;
    let ghost f = paint_gradient(x as int, y as int, signed(gw), signed(gh), top, bot);
    let _n = fb.len();
    if w == 0 || gh == 0 || gh > 0x7fff_ffff {
        proof {
            lemma_apply_identity(s, w as int, h as int, f);
        }
        return;
    }
    let top_c = Color::from_u32(top);
    let bot_c = Color::from_u32(bot);
    let (x0, x1) = clip_span(x as i64, to_i32(gw) as i64, w);
    let (y0, y1) = clip_span(y as i64, gh as i64, h);
    proof {
        assert forall|px: int, qy: int| 0 <= px < w && 0 <= qy < y0 implies #[trigger] f(
            px,
            qy,
            s[idx(px, qy, w as int)],
        ) == s[idx(px, qy, w as int)] by {
            assert(!in_span(qy, y as int, gh as int));
        }
        lemma_apply_empty(s, w as int, h as int, f);
        lemma_apply_skip_rows(s, w as int, h as int, f, 0, y0 as int);
    }
    let mut py = y0;
    while py < y1
        invariant
            y0 <= py <= y1 <= h,
            x0 <= x1 <= w,
            0 < w,
            0 < gh <= i32::MAX,
            rows_weighable(y as int, gh as int, h as int),
            top_c@ == top,
            bot_c@ == bot,
            holds_image(s.len() as int, w as int, h as int),
            s.len() <= usize::MAX,
            f == paint_gradient(x as int, y as int, signed(gw), signed(gh), top, bot),
            forall|p: int| (y0 <= p < y1) == (0 <= p < h && #[trigger] in_span(p, y as int, gh as int)),
            forall|p: int| (x0 <= p < x1) == (0 <= p < w && #[trigger] in_span(p, x as int, signed(gw))),
            fb@ == apply_upto(s, w as int, h as int, f, py * w),
        decreases y1 - py,
    {
        assert(in_span(py as int, y as int, gh as int));
        let row = (py as i64 - y as i64) as u32;
        let c = gradient_row_color(top_c, bot_c, row, gh);
        assert forall|px: int| 0 <= px < w implies #[trigger] f(px, py as int, s[idx(px, py as int, w as int)])
            == if x0 <= px < x1 { c } else { s[idx(px, py as int, w as int)] } by {
            assert(in_span(px, x as int, signed(gw)) == (x0 <= px < x1));
        }
        paint_row(fb, w, h, py, x0, x1, c, Ghost(s), Ghost(f));
        py = py + 1;
    }
    proof {
        assert forall|px: int, qy: int| 0 <= px < w && y1 <= qy < h implies #[trigger] f(
            px,
            qy,
            s[idx(px, qy, w as int)],
        ) == s[idx(px, qy, w as int)] by {
            assert(!in_span(qy, y as int, gh as int));
        }
        lemma_apply_skip_rows(s, w as int, h as int, f, y1 as int, h as int);
    }
}

/// Paints the whole image with the vertical gradient from `top` to `bot`.
pub open spec fn paint_full_gradient(h: int, top: u32, bot: u32) -> spec_fn(int, int, u32) -> u32 {
    |px: int, py: int, v: u32| gradient_color(top, bot, py, h)
}

/// Paints every row of the image with its gradient colour from `top` to `bot`.
pub fn fb_clear_gradient(fb: &mut [u32], w: u32, h: u32, top: Color, bot: Color)
    requires
        holds_image(old(fb)@.len() as int, w as int, h as int),
        h == 0 || (h - 1) * 255 <= u32::MAX,
    ensures
        final(fb)@ == apply(old(fb)@, w as int, h as int, paint_full_gradient(h as int, top@, bot@)),
{
    let ghost s = fb@;
    let ghost f = paint_full_gradient(h as int, top@, bot@);
    let _n = fb.len();
    if w == 0 {
        proof {
            lemma_apply_identity(s, w as int, h as int, f);
        }
        return;
    }
    proof {
        lemma_apply_empty(s, w as int, h as int, f);
    }
    let mut py: u32 = 0;
    while py < h
        invariant
            py <= h,
            0 < w,
            h == 0 || (h - 1) * 255 <= u32::MAX,
            holds_image(s.len() as int, w as int, h as int),
            s.len() <= usize::MAX,
            f == paint_full_gradient(h as int, top@, bot@),
            fb@ == apply_upto(s, w as int, h as int, f, py * w),
        decreases h - py,
    {
        let c = gradient_row_color(top, bot, py, h);
        paint_row(fb, w, h, py, 0, w, c, Ghost(s), Ghost(f));
        py = py + 1;
    }
    assert(h * w == w * h) by (nonlinear_arith);
}

/// Alpha of shadow ring `r` (counting from 1) out of `radius` rings.
pub open spec fn shadow_alpha(r: int, radius: int) -> u8 {
    (32 - (r * 32) / (radius + 1)) as u8
}

/// Darkens, with weight `alpha`, the ring of pixels at most `r` outside the
/// rectangle at `(x, y)` of `w` x `h` pixels, the rectangle itself excluded.
pub open spec fn shadow_ring(x: int, y: int, w: int, h: int, r: int, alpha: u8) -> spec_fn(int, int, u32) -> u32 {
    |px: int, py: int, v: u32|
        if -r <= py - y < h + r && -r <= px - x < w + r && !(0 <= py - y < h && 0 <= px - x < w) {
            blend_packed(0xFF000000u32, v, alpha)
        } else {
            v
        }
}

/// The buffer after the first `n` shadow rings have been laid, ring 1 first.
pub open spec fn shadow_rings(
    s: Seq<u32>,
    iw: int,
    ih: int,
    x: int,
    y: int,
    w: int,
    h: int,
    radius: int,
    n: int,
) -> Seq<u32>
    decreases n,
{
    if n <= 0 {
        s
    } else {
        apply(
            shadow_rings(s, iw, ih, x, y, w, h, radius, n - 1),
            iw,
            ih,
            shadow_ring(x, y, w, h, n, shadow_alpha(n, radius)),
        )
    }
}

/// Lays one shadow ring.
fn fb_shadow_ring(fb: &mut [u32], iw: u32, ih: u32, x: i32, y: i32, w: i32, h: i32, r: i32, alpha: u8)
    requires
        holds_image(old(fb)@.len() as int, iw as int, ih as int),
        0 < r,
        i32::MIN <= x - r,
        i32::MIN <= y - r,
        x + w + r <= i32::MAX + 1,
        y + h + r <= i32::MAX + 1,
        w + r <= i32::MAX,
        h + r <= i32::MAX,
    ensures
        final(fb)@ == apply(old(fb)@, iw as int, ih as int, shadow_ring(x as int, y as int, w as int, h as int, r as int, alpha)),
{
    let ghost f = shadow_ring(x as int, y as int, w as int, h as int, r as int, alpha);
    let _n = fb.len();
    let span_w: i64 = if w as i64 + 2 * r as i64 > 0 { w as i64 + 2 * r as i64 } else { 0 };
    let span_h: i64 = if h as i64 + 2 * r as i64 > 0 { h as i64 + 2 * r as i64 } else { 0 };
    let sw = span_w;
    let sh = span_h;
    let (x0, x1) = clip_span(x as i64 - r as i64, sw, iw);
    let (y0, y1) = clip_span(y as i64 - r as i64, sh, ih);
    let black = Color::black();
    let op = |px: u32, py: u32, v: u32| -> (res: u32)
        requires
            x0 <= px < x1,
            y0 <= py < y1,
        ensures
            res == shadow_ring(x as int, y as int, w as int, h as int, r as int, alpha)(px as int, py as int, v),
        {
            let row = py as i64 - y as i64;
            let col = px as i64 - x as i64;
            if -(r as i64) <= row && row < h as i64 + r as i64 && -(r as i64) <= col && col < w as i64 + r as i64
                && !(0 <= row && row < h as i64 && 0 <= col && col < w as i64) {
                black.blend(Color::from_u32(v), alpha).to_u32()
            } else {
                v
            }
        };
    proof {
        assert forall|px: int, py: int|
            in_bounds(px, py, iw as int, ih as int) && !(x0 <= px < x1 && y0 <= py < y1) implies #[trigger] f(
            px,
            py,
            fb@[idx(px, py, iw as int)],
        ) == fb@[idx(px, py, iw as int)] by {
            assert(!(in_span(px, x - r, sw as int) && in_span(py, y - r, sh as int)));
        }
    }
    map_box(fb, iw, ih, x0, x1, y0, y1, op, Ghost(f));
}

/// Lays `radius` rings of shadow around the rectangle at `(x, y)` of `w` x `h`
/// pixels, ring `r` darkening with alpha `32 - r * 32 / (radius + 1)`.
pub fn fb_draw_shadow(fb: &mut [u32], iw: u32, ih: u32, x: i32, y: i32, w: u32, h: u32, radius: i32)
    requires
        holds_image(old(fb)@.len() as int, iw as int, ih as int),
        radius * 32 <= i32::MAX,
        radius > 0 ==> {
            &&& i32::MIN <= x - radius
            &&& i32::MIN <= y - radius
            &&& x + signed(w) + radius <= i32::MAX + 1
            &&& y + signed(h) + radius <= i32::MAX + 1
            &&& signed(w) + radius <= i32::MAX
            &&& signed(h) + radius <= i32::MAX
        },
    ensures
        final(fb)@.len() == old(fb)@.len(),
        final(fb)@ == shadow_rings(old(fb)@, iw as int, ih as int, x as int, y as int, signed(w), signed(h), radius as int, radius as int),
{
    let ghost s = fb@;
    let wi = to_i32(w);
    let hi = to_i32(h);
    let mut r: i32 = 1;
    while r <= radius
        invariant
            1 <= r,
            radius > 0 ==> r <= radius + 1,
            radius <= 0 ==> r == 1,
            wi == signed(w),
            hi == signed(h),
            radius * 32 <= i32::MAX,
            radius > 0 ==> {
                &&& i32::MIN <= x - radius
                &&& i32::MIN <= y - radius
                &&& x + signed(w) + radius <= i32::MAX + 1
                &&& y + signed(h) + radius <= i32::MAX + 1
                &&& signed(w) + radius <= i32::MAX
                &&& signed(h) + radius <= i32::MAX
            },
            fb@.len() == s.len(),
            holds_image(s.len() as int, iw as int, ih as int),
            fb@ == shadow_rings(s, iw as int, ih as int, x as int, y as int, wi as int, hi as int, radius as int, r - 1),
        decreases radius - r + 1,
    {
        assert(r * 32 <= radius * 32);
        let alpha = 32 - (r * 32) / (radius + 1);
        assert(0 <= (r * 32) / (radius + 1) < 32) by (nonlinear_arith)
            requires 1 <= r <= radius;
        fb_shadow_ring(fb, iw, ih, x, y, wi, hi, r, alpha as u8);
        r = r + 1;
    }
}

/// Alpha of the white glass sheen on row `row` of a `gh`-row glass rectangle:
/// from 0x66 at the top towards 0x22.
pub open spec fn glass_alpha(row: int, gh: int) -> int {
    let t = (row * 255) / gh;
    (0x66 * (255 - t) + 0x22 * t) / 255
}

/// One channel of glass: the channel scaled by `255 - gt`, plus `gt`, kept to
/// its low byte.
pub open spec fn glass_channel(c: u8, gt: int) -> u8 {
    ((c as int * (255 - gt) + gt) % 256) as u8
}

/// Glass over the rectangle at `(x, y)` of `w` x `gh` pixels: each pixel is
/// `base` blended over it with weight 180, then its channels are glazed with
/// the row's sheen alpha; the result is opaque.
pub open spec fn paint_glass(x: int, y: int, w: int, gh: int, base: u32) -> spec_fn(int, int, u32) -> u32 {
    |px: int, py: int, v: u32|
        if in_span(px, x, w) && in_span(py, y, gh) {
            let b = blend_packed(base, v, 180);
            let gt = glass_alpha(py - y, gh);
            pack_argb(0xFF, glass_channel(red_of(b), gt), glass_channel(green_of(b), gt), glass_channel(blue_of(b), gt))
        } else {
            v
        }
}

fn glass_pixel(base: Color, v: u32, row: u32, gh: u32) -> (r: u32)
    requires
        row < gh,
        row * 255 <= u32::MAX,
    ensures
        r == ({
            let b = blend_packed(base@, v, 180);
            let gt = glass_alpha(row as int, gh as int);
            pack_argb(0xFF, glass_channel(red_of(b), gt), glass_channel(green_of(b), gt), glass_channel(blue_of(b), gt))
        }),
{
    let t = (row * 255) / gh;
    assert(t <= 255) by (nonlinear_arith)
        requires t as int == (row as int * 255) / (gh as int), row < gh;
    let gt = (0x66 * (255 - t) + 0x22 * t) / 255;
    assert(gt <= 0x66) by (nonlinear_arith)
        requires gt as int == (0x66 * (255 - t as int) + 0x22 * t as int) / 255, t <= 255;
    let b = base.blend(Color::from_u32(v), 180);
    let br = b.r() as u32;
    let bg = b.g() as u32;
    let bb = b.b() as u32;
    assert(br * (255 - gt) <= 255 * 255 && bg * (255 - gt) <= 255 * 255 && bb * (255 - gt) <= 255 * 255)
        by (nonlinear_arith)
        requires br <= 255, bg <= 255, bb <= 255, gt <= 0x66;
    let r = br * (255 - gt) + 0xFF * gt / 255;
    let g = bg * (255 - gt) + 0xFF * gt / 255;
    let bl = bb * (255 - gt) + 0xFF * gt / 255;
    assert(0xFF * gt / 255 == gt);
    Color::from_argb(0xFF, (r % 256) as u8, (g % 256) as u8, (bl % 256) as u8).to_u32()
}

/// Lays glass over the rectangle at `(x, y)` of `w` x `gh` pixels (extents
/// taken as `i32` values), clipped to the image.
pub fn fb_fill_glass_rect(fb: &mut [u32], iw: u32, ih: u32, x: i32, y: i32, w: u32, gh: u32, base: Color)
    requires
        holds_image(old(fb)@.len() as int, iw as int, ih as int),
        fits(x as int, signed(w)),
        fits(y as int, signed(gh)),
        rows_weighable(y as int, signed(gh), ih as int),
    ensures
        final(fb)@ == apply(old(fb)@, iw as int, ih as int, paint_glass(x as int, y as int, signed(w), signed(gh), base@)),
{
    let ghost f = paint_glass(x as int, y as int, signed(w), signed(gh), base@);
    let _n = fb.len();
    if gh > 0x7fff_ffff {
        proof {
            lemma_apply_identity(fb@, iw as int, ih as int, f);
        }
        return;
    }
    let (x0, x1) = clip_span(x as i64, to_i32(w) as i64, iw);
    let (y0, y1) = clip_span(y as i64, gh as i64, ih);
    let op = |px: u32, py: u32, v: u32| -> (res: u32)
        requires
            x0 <= px < x1,
            y0 <= py < y1,
            py < ih,
            gh <= i32::MAX,
            rows_weighable(y as int, gh as int, ih as int),
        ensures
            res == paint_glass(x as int, y as int, signed(w), signed(gh), base@)(px as int, py as int, v),
        {
            assert(in_span(px as int, x as int, signed(w)));
            assert(in_span(py as int, y as int, gh as int));
            let row = (py as i64 - y as i64) as u32;
            glass_pixel(base, v, row, gh)
        };
    proof {
        assert forall|px: int, py: int|
            in_bounds(px, py, iw as int, ih as int) && !(x0 <= px < x1 && y0 <= py < y1) implies #[trigger] f(
            px,
            py,
            fb@[idx(px, py, iw as int)],
        ) == fb@[idx(px, py, iw as int)] by {
            assert(!(in_span(px, x as int, signed(w)) && in_span(py, y as int, gh as int)));
        }
    }
    map_box(fb, iw, ih, x0, x1, y0, y1, op, Ghost(f));
}


/// Where column (or row) `c` of a glyph drawn `s` times larger samples the
/// glyph: the cell index and the position within the cell in 256ths, for the
/// sample point `(c + 1/2) / s - 1/2`, held at 0 below the first cell.
pub open spec fn sample_point(c: int, s: int) -> (int, int) {
    let num = 2 * c + 1 - s;
    if num <= 0 {
        (0, 0)
    } else {
        (num / (2 * s), (256 * (num % (2 * s))) / (2 * s))
    }
}

/// 1 when the glyph bit at column `ix` of row `iy` is set, else 0.
pub open spec fn bit_value(rows: Seq<u8>, ix: int, iy: int) -> int {
    if glyph_bit(rows[iy], ix) {
        1
    } else {
        0
    }
}

/// Bilinear coverage, from 0 to 255, of pixel `(col, row)` of a glyph drawn
/// `s` times larger: the four glyph bits around the sample point, weighted
/// by its position (the weights sum to 65536), scaled to 255: 255 where
/// every sample hits a set bit, 0 where none does.
pub open spec fn smooth_coverage(rows: Seq<u8>, col: int, row: int, s: int) -> int {
    let (ix, fx) = sample_point(col, s);
    let (iy, fy) = sample_point(row, s);
    let p00 = bit_value(rows, ix, iy);
    let p10 = if ix + 1 < FONT_W { bit_value(rows, ix + 1, iy) } else { p00 };
    let p01 = if iy + 1 < FONT_H { bit_value(rows, ix, iy + 1) } else { p00 };
    let p11 = if ix + 1 < FONT_W && iy + 1 < FONT_H { bit_value(rows, ix + 1, iy + 1) } else { p01 };
    255 * ((256 - fx) * (256 - fy) * p00 + fx * (256 - fy) * p10 + (256 - fx) * fy * p01 + fx * fy * p11) / 65536
}

/// The glyph `rows` drawn `s` times larger at `(x, y)`: each pixel of the
/// `FONT_W * s` x `FONT_H * s` box with positive coverage gets `color`
/// (coverage 255 and up) or `color` blended over it with the coverage as weight.
pub open spec fn paint_smooth(x: int, y: int, rows: Seq<u8>, color: u32, s: int) -> spec_fn(int, int, u32) -> u32 {
    |px: int, py: int, v: u32|
        if 0 <= px - x < FONT_W * s && 0 <= py - y < FONT_H * s {
            let cov = smooth_coverage(rows, px - x, py - y, s);
            if cov > 0 {
                if cov >= 255 {
                    color
                } else {
                    blend_packed(color, v, cov as u8)
                }
            } else {
                v
            }
        } else {
            v
        }
}

fn sample(c: u32, s: u32) -> (r: (u32, u32))
    requires
        0 < s,
        c < FONT_H * s,
        FONT_H * s <= i32::MAX,
    ensures
        r.0 as int == sample_point(c as int, s as int).0,
        r.1 as int == sample_point(c as int, s as int).1,
        r.0 < FONT_H,
        r.1 < 256,
{
    let num = 2 * c as i64 + 1 - s as i64;
    if num <= 0 {
        (0, 0)
    } else {
        let d = 2 * s as i64;
        let ix = num / d;
        let rem = num % d;
        assert(ix < 13) by (nonlinear_arith)
            requires ix == num / d, num == 2 * c + 1 - s, c < 13 * s, d == 2 * s, s > 0;
        assert((256 * rem as int) / (d as int) < 256) by (nonlinear_arith)
            requires 0 <= rem < d, d > 0;
        (ix as u32, (256 * rem / d) as u32)
    }
}

fn bit_of(rows: &Vec<u8>, ix: u32, iy: u32) -> (b: u32)
    requires
        rows.len() == FONT_H,
        ix < FONT_W,
        iy < FONT_H,
    ensures
        b == bit_value(rows@, ix as int, iy as int),
{
    if rows[iy as usize] & (0x80u8 >> (ix as u8)) != 0 {
        1
    } else {
        0
    }
}

fn smooth_pixel(rows: &Vec<u8>, col: u32, row: u32, s: u32) -> (cov: u32)
    requires
        rows.len() == FONT_H,
        0 < s,
        col < FONT_W * s,
        row < FONT_H * s,
        FONT_H * s <= i32::MAX,
    ensures
        cov == smooth_coverage(rows@, col as int, row as int, s as int),
{
    let (ix, fx) = sample(col, s);
    let (iy, fy) = sample(row, s);
    assert(ix < 8) by (nonlinear_arith)
        requires ix as int == sample_point(col as int, s as int).0, col < 8 * s, s > 0;
    let p00 = bit_of(rows, ix, iy);
    let p10 = if ix + 1 < 8 { bit_of(rows, ix + 1, iy) } else { p00 };
    let p01 = if iy + 1 < 13 { bit_of(rows, ix, iy + 1) } else { p00 };
    let p11 = if ix + 1 < 8 && iy + 1 < 13 { bit_of(rows, ix + 1, iy + 1) } else { p01 };
    let fx_inv = 256 - fx;
    let fy_inv = 256 - fy;
    assert(fx_inv * fy_inv <= 65536 && fx * fy_inv <= 65536 && fx_inv * fy <= 65536 && fx * fy <= 65536)
        by (nonlinear_arith)
        requires fx < 256, fy < 256, fx_inv == 256 - fx, fy_inv == 256 - fy;
    let w00 = fx_inv * fy_inv;
    let w10 = fx * fy_inv;
    let w01 = fx_inv * fy;
    let w11 = fx * fy;
    assert(w00 * p00 <= w00 && w10 * p10 <= w10 && w01 * p01 <= w01 && w11 * p11 <= w11) by (nonlinear_arith)
        requires p00 <= 1, p10 <= 1, p01 <= 1, p11 <= 1;
    let total = w00 * p00 + w10 * p10 + w01 * p01 + w11 * p11;
    assert(total as int == (256 - fx as int) * (256 - fy as int) * p00 as int + fx as int * (256 - fy as int) * p10 as int
        + (256 - fx as int) * fy as int * p01 as int + fx as int * fy as int * p11 as int) by (nonlinear_arith)
        requires total == w00 * p00 + w10 * p10 + w01 * p01 + w11 * p11, w00 == fx_inv * fy_inv, w10 == fx * fy_inv,
            w01 == fx_inv * fy, w11 == fx * fy, fx_inv == 256 - fx, fy_inv == 256 - fy;
    assert(total <= 4 * 65536);
    total * 255 / 65536
}

/// Draws the glyph `rows` at `(x, y)`, `scale` times larger, with bilinear
/// sampling of the glyph bits, clipped to the image.
pub fn fb_draw_smooth(fb: &mut [u32], w: u32, h: u32, x: i32, y: i32, rows: &Vec<u8>, color: Color, scale: u32)
    requires
        holds_image(old(fb)@.len() as int, w as int, h as int),
        rows.len() == FONT_H,
        0 < scale,
        FONT_H * scale <= i32::MAX,
        fits(x as int, FONT_W * scale),
        fits(y as int, FONT_H * scale),
    ensures
        final(fb)@ == apply(old(fb)@, w as int, h as int, paint_smooth(x as int, y as int, rows@, color@, scale as int)),
{
    let ghost f = paint_smooth(x as int, y as int, rows@, color@, scale as int);
    let _n = fb.len();
    let (x0, x1) = clip_span(x as i64, 8 * scale as i64, w);
    let (y0, y1) = clip_span(y as i64, 13 * scale as i64, h);
    let op = |px: u32, py: u32, v: u32| -> (res: u32)
        requires
            x0 <= px < x1,
            y0 <= py < y1,
        ensures
            res == paint_smooth(x as int, y as int, rows@, color@, scale as int)(px as int, py as int, v),
        {
            assert(in_span(px as int, x as int, 8 * scale as int));
            assert(in_span(py as int, y as int, 13 * scale as int));
            let col = (px as i64 - x as i64) as u32;
            let row = (py as i64 - y as i64) as u32;
            let cov = smooth_pixel(rows, col, row, scale);
            if cov > 0 {
                if cov >= 255 {
                    color.to_u32()
                } else {
                    color.blend(Color::from_u32(v), cov as u8).to_u32()
                }
            } else {
                v
            }
        };
    proof {
        assert forall|px: int, py: int|
            in_bounds(px, py, w as int, h as int) && !(x0 <= px < x1 && y0 <= py < y1) implies #[trigger] f(
            px,
            py,
            fb@[idx(px, py, w as int)],
        ) == fb@[idx(px, py, w as int)] by {
            assert(!(in_span(px, x as int, 8 * scale as int) && in_span(py, y as int, 13 * scale as int)));
        }
    }
    map_box(fb, w, h, x0, x1, y0, y1, op, Ghost(f));
}


/// Sets column `p` (when `use_p`) and column `q` (when `use_q`) of row `py` to
/// `c` and leaves the rest of the row, where the rewrite `f` does exactly that.
fn paint_row_two(
    fb: &mut [u32],
    w: u32,
    h: u32,
    py: u32,
    p: u32,
    use_p: bool,
    q: u32,
    use_q: bool,
    c: u32,
    Ghost(s): Ghost<Seq<u32>>,
    Ghost(f): Ghost<spec_fn(int, int, u32) -> u32>,
)
    requires
        p < w,
        q < w,
        use_p && use_q ==> p < q,
        py < h,
        holds_image(s.len() as int, w as int, h as int),
        s.len() <= usize::MAX,
        old(fb)@ == apply_upto(s, w as int, h as int, f, py * w),
        forall|px: int|
            0 <= px < w ==> #[trigger] f(px, py as int, s[idx(px, py as int, w as int)]) == if (use_p && px == p) || (
            use_q && px == q) {
                c
            } else {
                s[idx(px, py as int, w as int)]
            },
    ensures
        final(fb)@ == apply_upto(s, w as int, h as int, f, (py + 1) * w),
{
    proof {
        lemma_next_row(py as int, w as int);
    }
    let mut cur: u32 = 0;
    if use_p {
        proof {
            lemma_apply_skip_cols(s, w as int, h as int, f, py as int, 0, p as int);
        }
        fill_span(fb, w, h, py, p, p + 1, c, Ghost(s), Ghost(f));
        cur = p + 1;
    }
    if use_q {
        proof {
            lemma_apply_skip_cols(s, w as int, h as int, f, py as int, cur as int, q as int);
        }
        fill_span(fb, w, h, py, q, q + 1, c, Ghost(s), Ghost(f));
        cur = q + 1;
    }
    proof {
        lemma_apply_skip_cols(s, w as int, h as int, f, py as int, cur as int, w as int);
    }
}

/// Whether `(px, py)` is on the outline of the rounded rectangle at `(x, y)`
/// of `w` x `h` pixels: in each row, the first column of the outer span when
/// the span one pixel inside starts later, and the last column when the inner
/// span ends earlier. Rectangles under 3 pixels in either direction, with a
/// side longer than `i32::MAX` (read as a negative `i32`), or with no
/// rounding, have no outline.
pub open spec fn in_stroke(px: int, py: int, x: int, y: int, w: u32, h: u32, radius: u32) -> bool {
    let r = round_radius(radius, w, h);
    let row = py - y;
    let wi = w as int;
    let hi = h as int;
    if w < 3 || h < 3 || r <= 0 || w > i32::MAX || h > i32::MAX || !(0 <= row < hi) {
        false
    } else {
        let ri = r - 1;
        let ol = span_left(row, hi, r, x, wi);
        let or = span_right(row, hi, r, x, wi);
        let inner = 0 <= row - 1 < hi - 2;
        let il = if inner { span_left(row - 1, hi - 2, ri, x + 1, wi - 2) } else { or + 1 };
        let ir = if inner { span_right(row - 1, hi - 2, ri, x + 1, wi - 2) } else { ol - 1 };
        (px == ol && il > ol) || (px == or && ir < or)
    }
}

/// Paints `c` on the outline of the rounded rectangle.
pub open spec fn paint_stroke(x: int, y: int, w: u32, h: u32, radius: u32, c: u32) -> spec_fn(int, int, u32) -> u32 {
    |px: int, py: int, v: u32| if in_stroke(px, py, x, y, w, h, radius) { c } else { v }
}

/// Draws the one-pixel outline of the rounded rectangle at `(x, y)` of
/// `w` x `h` pixels in `color`, clipped to the image.
pub fn fb_stroke_round_rect(
    fb: &mut [u32],
    iw: u32,
    ih: u32,
    x: i32,
    y: i32,
    w: u32,
    h: u32,
    radius: u32,
    color: u32,
)
    requires
        holds_image(old(fb)@.len() as int, iw as int, ih as int),
        w <= i32::MAX && h <= i32::MAX ==> fits(x as int, w as int) && fits(y as int, h as int),
        round_radius(radius, w, h) <= 46340,
    ensures
        final(fb)@ == apply(old(fb)@, iw as int, ih as int, paint_stroke(x as int, y as int, w, h, radius, color)),
{
    let ghost s = fb@;
    let ghost f = paint_stroke(x as int, y as int, w, h, radius, color);
    let _n = fb.len();
    let m = if w < h { w } else { h };
    let r: i32 = if radius < m / 2 { radius as i32 } else { (m / 2) as i32 };
    assert(r == round_radius(radius, w, h));
    if iw == 0 || w < 3 || h < 3 || r <= 0 || w > 0x7fff_ffff || h > 0x7fff_ffff {
        proof {
            lemma_apply_identity(s, iw as int, ih as int, f);
        }
        return;
    }
    assert(r * r <= 46340 * 46340) by (nonlinear_arith)
        requires 0 <= r <= 46340;
    let r2 = r * r;
    let ri = r - 1;
    assert(ri * ri <= 46340 * 46340) by (nonlinear_arith)
        requires 0 <= ri <= 46340;
    let r2i = ri * ri;
    let (y0, y1) = clip_span(y as i64, h as i64, ih);
    proof {
        assert forall|px: int, qy: int| 0 <= px < iw && 0 <= qy < y0 implies #[trigger] f(
            px,
            qy,
            s[idx(px, qy, iw as int)],
        ) == s[idx(px, qy, iw as int)] by {
            assert(!in_span(qy, y as int, h as int));
        }
        lemma_apply_empty(s, iw as int, ih as int, f);
        lemma_apply_skip_rows(s, iw as int, ih as int, f, 0, y0 as int);
    }
    let mut py = y0;
    while py < y1
        invariant
            y0 <= py <= y1 <= ih,
            0 < iw,
            3 <= w <= i32::MAX,
            3 <= h <= i32::MAX,
            fits(x as int, w as int),
            fits(y as int, h as int),
            r == round_radius(radius, w, h),
            0 < r <= 46340,
            r2 == r * r,
            ri == r - 1,
            r2i == ri * ri,
            holds_image(s.len() as int, iw as int, ih as int),
            s.len() <= usize::MAX,
            f == paint_stroke(x as int, y as int, w, h, radius, color),
            forall|p: int| (y0 <= p < y1) == (0 <= p < ih && #[trigger] in_span(p, y as int, h as int)),
            fb@ == apply_upto(s, iw as int, ih as int, f, py * iw),
        decreases y1 - py,
    {
        assert(in_span(py as int, y as int, h as int));
        let row = (py as i64 - y as i64) as i32;
        assert(2 * r <= w && 2 * r <= h) by (nonlinear_arith)
            requires r == round_radius(radius, w, h), 0 < r;
        let (ol, or_) = rrect_span(row, h as i32, r, r2, x, w as i32);
        let inner_row = row - 1;
        let (il, ir): (i64, i64) = if inner_row >= 0 && inner_row < h as i32 - 2 {
            let (a, b) = rrect_span(inner_row, h as i32 - 2, ri, r2i, x + 1, w as i32 - 2);
            (a as i64, b as i64)
        } else {
            (or_ as i64 + 1, ol as i64 - 1)
        };
        let cond_l = il > ol as i64 && 0 <= ol && (ol as i64) < iw as i64;
        let cond_r = ir < or_ as i64 && 0 <= or_ && (or_ as i64) < iw as i64;
        let (p, use_p, q, use_q) = if cond_l && cond_r {
            if ol < or_ {
                (ol as u32, true, or_ as u32, true)
            } else if ol == or_ {
                (ol as u32, true, 0u32, false)
            } else {
                (or_ as u32, true, ol as u32, true)
            }
        } else if cond_l {
            (ol as u32, true, 0u32, false)
        } else if cond_r {
            (0u32, false, or_ as u32, true)
        } else {
            (0u32, false, 0u32, false)
        };
        assert forall|px: int| 0 <= px < iw implies #[trigger] f(px, py as int, s[idx(px, py as int, iw as int)])
            == if (use_p && px == p) || (use_q && px == q) { color } else { s[idx(px, py as int, iw as int)] } by {
        }
        paint_row_two(fb, iw, ih, py, p, use_p, q, use_q, color, Ghost(s), Ghost(f));
        py = py + 1;
    }
    proof {
        assert forall|px: int, qy: int| 0 <= px < iw && y1 <= qy < ih implies #[trigger] f(
            px,
            qy,
            s[idx(px, qy, iw as int)],
        ) == s[idx(px, qy, iw as int)] by {
            assert(!in_span(qy, y as int, h as int));
        }
        lemma_apply_skip_rows(s, iw as int, ih as int, f, y1 as int, ih as int);
    }
}


/// Blends `tint` with weight `opacity` over the rounded rectangle.
pub open spec fn blend_round_rect(x: int, y: int, w: u32, h: u32, radius: u32, tint: u32, opacity: u8) -> spec_fn(int, int, u32) -> u32 {
    |px: int, py: int, v: u32| if in_round_rect(px, py, x, y, w, h, radius) { blend_packed(tint, v, opacity) } else { v }
}

/// Blends `tint` with weight `opacity` over the rounded rectangle at `(x, y)`
/// of `rw` x `rh` pixels, one row span at a time, clipped to the image.
pub fn fb_blend_round_rect(
    fb: &mut [u32],
    w: u32,
    h: u32,
    x: i32,
    y: i32,
    rw: u32,
    rh: u32,
    radius: u32,
    tint: Color,
    opacity: u8,
)
    requires
        holds_image(old(fb)@.len() as int, w as int, h as int),
        rw <= i32::MAX,
        rh <= i32::MAX,
        fits(x as int, rw as int),
        fits(y as int, rh as int),
        round_radius(radius, rw, rh) <= 46340,
    ensures
        final(fb)@ == apply(old(fb)@, w as int, h as int, blend_round_rect(x as int, y as int, rw, rh, radius, tint@, opacity)),
{
    let ghost s = fb@;
    let ghost f = blend_round_rect(x as int, y as int, rw, rh, radius, tint@, opacity);
    let _n = fb.len();
    if w == 0 || rw == 0 || rh == 0 {
        proof {
            lemma_apply_identity(s, w as int, h as int, f);
        }
        return;
    }
    let m = if rw < rh { rw } else { rh };
    let r: i32 = if radius < m / 2 { radius as i32 } else { (m / 2) as i32 };
    assert(r == round_radius(radius, rw, rh));
    assert(r * r <= 46340 * 46340) by (nonlinear_arith)
        requires 0 <= r <= 46340;
    let r2 = r * r;
    let (y0, y1) = clip_span(y as i64, rh as i64, h);
    proof {
        assert forall|px: int, qy: int| 0 <= px < w && 0 <= qy < y0 implies #[trigger] f(
            px,
            qy,
            s[idx(px, qy, w as int)],
        ) == s[idx(px, qy, w as int)] by {
            assert(!in_span(qy, y as int, rh as int));
        }
        lemma_apply_empty(s, w as int, h as int, f);
        lemma_apply_skip_rows(s, w as int, h as int, f, 0, y0 as int);
    }
    let mut py = y0;
    while py < y1
        invariant
            y0 <= py <= y1 <= h,
            0 < w,
            0 < rw <= i32::MAX,
            0 < rh <= i32::MAX,
            fits(x as int, rw as int),
            fits(y as int, rh as int),
            r == round_radius(radius, rw, rh),
            0 <= r <= 46340,
            r2 == r * r,
            holds_image(s.len() as int, w as int, h as int),
            s.len() <= usize::MAX,
            f == blend_round_rect(x as int, y as int, rw, rh, radius, tint@, opacity),
            forall|p: int| (y0 <= p < y1) == (0 <= p < h && #[trigger] in_span(p, y as int, rh as int)),
            fb@ == apply_upto(s, w as int, h as int, f, py * w),
        decreases y1 - py,
    {
        assert(in_span(py as int, y as int, rh as int));
        let row = (py as i64 - y as i64) as i32;
        let (sx0, sx1) = rrect_span(row, rh as i32, r, r2, x, rw as i32);
        let a: i64 = if sx0 > 0 { sx0 as i64 } else { 0 };
        let b: i64 = if (sx1 as i64) + 1 < w as i64 { sx1 as i64 + 1 } else { w as i64 };
        let (a, b) = if a < b { (a as u32, b as u32) } else { (0u32, 0u32) };
        assert forall|px: int| 0 <= px < w implies #[trigger] f(px, py as int, s[idx(px, py as int, w as int)])
            == if a <= px < b { blend_packed(tint@, s[idx(px, py as int, w as int)], opacity) } else { s[idx(px, py as int, w as int)] } by {
            assert(in_rrect(px, row as int, x as int, 0, rw as int, rh as int, r as int) == in_rrect(
                px,
                py as int,
                x as int,
                y as int,
                rw as int,
                rh as int,
                r as int,
            ));
        }
        blend_row(fb, w, h, py, a, b, tint, opacity, Ghost(s), Ghost(f));
        py = py + 1;
    }
    proof {
        assert forall|px: int, qy: int| 0 <= px < w && y1 <= qy < h implies #[trigger] f(
            px,
            qy,
            s[idx(px, qy, w as int)],
        ) == s[idx(px, qy, w as int)] by {
            assert(!in_span(qy, y as int, rh as int));
        }
        lemma_apply_skip_rows(s, w as int, h as int, f, y1 as int, h as int);
    }
}


/// Blends `fg` with weight `alpha` over the whole of row `py`, where the
/// rewrite `f` does exactly that on this row.
pub fn blend_full_row(
    fb: &mut [u32],
    w: u32,
    h: u32,
    py: u32,
    fg: Color,
    alpha: u8,
    Ghost(s): Ghost<Seq<u32>>,
    Ghost(f): Ghost<spec_fn(int, int, u32) -> u32>,
)
    requires
        py < h,
        holds_image(s.len() as int, w as int, h as int),
        s.len() <= usize::MAX,
        old(fb)@ == apply_upto(s, w as int, h as int, f, py * w),
        forall|px: int|
            0 <= px < w ==> #[trigger] f(px, py as int, s[idx(px, py as int, w as int)])
                == blend_packed(fg@, s[idx(px, py as int, w as int)], alpha),
    ensures
        final(fb)@ == apply_upto(s, w as int, h as int, f, (py + 1) * w),
{
    blend_row(fb, w, h, py, 0, w, fg, alpha, Ghost(s), Ghost(f));
}

} // verus!
