use vstd::prelude::*;
use crate::canvas::Canvas;
use crate::color::{Color, blend_packed, pack_argb, red_of, green_of, blue_of};
use crate::raster::{
    lemma_apply_empty, lemma_apply_skip_cols, lemma_next_row, blend_full_row,
    apply, apply_upto, holds_image, fits, idx, in_bounds, in_rrect, in_round_rect, is_isqrt, floor_sqrt, isqrt,
    lemma_floor_sqrt, map_box, clip_span, paint_stroke, round_radius, fb_stroke_round_rect,
    fb_blend_round_rect, blend_round_rect, lemma_apply_identity,
};
use crate::rect::{in_span, signed, to_i32};
pub use crate::blur::box_blur;

verus! {

/// Glow strength at rounded distance `d` from the glow centre.
pub open spec fn glow_lut(d: int) -> int {
    if d == 0 {
        255
    } else if d == 1 {
        180
    } else if d == 2 {
        100
    } else if d == 3 {
        55
    } else if d == 4 {
        30
    } else if d == 5 {
        16
    } else if d == 6 {
        8
    } else if d == 7 {
        4
    } else if d == 8 {
        2
    } else if d == 9 {
        1
    } else {
        0
    }
}

fn glow_lut_value(d: u32) -> (v: u32)
    requires
        d <= 15,
    ensures
        v == glow_lut(d as int),
        v <= 255,
{
    match d {
        0 => 255,
        1 => 180,
        2 => 100,
        3 => 55,
        4 => 30,
        5 => 16,
        6 => 8,
        7 => 4,
        8 => 2,
        9 => 1,
        _ => 0,
    }
}

/// `sqrt(n)` rounded to the nearest integer.
pub open spec fn round_sqrt(n: int) -> int {
    let k = floor_sqrt(n);
    if n - k * k > k {
        k + 1
    } else {
        k
    }
}

/// `sqrt(n)` rounded to the nearest integer, for `0 <= n <= i32::MAX`.
fn round_sqrt_exec(n: i64) -> (r: i64)
    requires
        0 <= n <= i32::MAX,
    ensures
        r == round_sqrt(n as int),
        0 <= r <= 46341,
        n < 225 ==> r <= 15,
{
    let k = isqrt(n as i32);
    proof {
        lemma_floor_sqrt(n as int, k as int);
    }
    assert(n < 225 ==> k <= 14) by (nonlinear_arith)
        requires is_isqrt(n as int, k as int);
    assert(k <= 46340) by (nonlinear_arith)
        requires is_isqrt(n as int, k as int), n <= i32::MAX;
    if n - (k as i64) * (k as i64) > k as i64 {
        k as i64 + 1
    } else {
        k as i64
    }
}

/// The glow alpha at rounded distance `d` for the given intensity.
pub open spec fn glow_alpha(d: int, intensity: u8) -> int {
    glow_lut(d) * intensity / 255
}

/// A radial glow of radius `r` (at most 15) around `(cx, cy)`: each pixel of
/// the square within `r` whose rounded distance is at most `r` gets `color`
/// blended in with the glow alpha for that distance, when positive.
pub open spec fn paint_glow(cx: int, cy: int, r: int, color: u32, intensity: u8) -> spec_fn(int, int, u32) -> u32 {
    |px: int, py: int, v: u32|
        {
            let dx = px - cx;
            let dy = py - cy;
            if -r <= dx <= r && -r <= dy <= r && round_sqrt(dx * dx + dy * dy) <= r && glow_alpha(
                round_sqrt(dx * dx + dy * dy),
                intensity,
            ) > 0 {
                blend_packed(color, v, glow_alpha(round_sqrt(dx * dx + dy * dy), intensity) as u8)
            } else {
                v
            }
        }
}

/// The glow radius used for a requested radius: the radius as an `i32`
/// value, at most 15.
pub open spec fn glow_radius(radius: u32) -> int {
    if signed(radius) < 15 {
        signed(radius)
    } else {
        15
    }
}

/// Draws a radial glow around `(cx, cy)` with radius at most 15.
pub fn glow(canvas: &mut Canvas, cx: i32, cy: i32, radius: u32, color: Color, intensity: u8)
    requires
        old(canvas).wf(),
        i32::MIN + 15 <= cx <= i32::MAX - 15,
        i32::MIN + 15 <= cy <= i32::MAX - 15,
    ensures
        final(canvas).wf(),
        old(canvas).same_frame(&*final(canvas)),
        final(canvas)@ == old(canvas).drawn(paint_glow(cx as int, cy as int, glow_radius(radius), color@, intensity)),
{
    let ri = to_i32(radius);
    let r: i32 = if ri < 15 { ri } else { 15 };
    let ghost f = paint_glow(cx as int, cy as int, r as int, color@, intensity);
    let (w, h) = (canvas.width, canvas.height);
    let fb = canvas.pixels.as_mut_slice();
    let _n = fb.len();
    if r < 0 {
        proof {
            lemma_apply_identity(fb@, w as int, h as int, f);
        }
        return;
    }
    let (x0, x1) = clip_span(cx as i64 - r as i64, 2 * r as i64 + 1, w);
    let (y0, y1) = clip_span(cy as i64 - r as i64, 2 * r as i64 + 1, h);
    let op = |px: u32, py: u32, v: u32| -> (res: u32)
        requires
            x0 <= px < x1,
            y0 <= py < y1,
        ensures
            res == paint_glow(cx as int, cy as int, r as int, color@, intensity)(px as int, py as int, v),
        {
            assert(in_span(px as int, cx - r, 2 * r + 1));
            assert(in_span(py as int, cy - r, 2 * r + 1));
            let dx = px as i64 - cx as i64;
            let dy = py as i64 - cy as i64;
            assert(0 <= dx * dx <= 225 && 0 <= dy * dy <= 225) by (nonlinear_arith)
                requires -15 <= dx <= 15, -15 <= dy <= 15;
            let dist = round_sqrt_exec(dx * dx + dy * dy);
            if dist <= r as i64 {
                let a = glow_lut_value(dist as u32) * intensity as u32 / 255;
                if a > 0 {
                    return color.blend(Color::from_u32(v), a as u8).to_u32();
                }
            }
            v
        };
    proof {
        assert forall|px: int, py: int|
            in_bounds(px, py, w as int, h as int) && !(x0 <= px < x1 && y0 <= py < y1) implies #[trigger] f(
            px,
            py,
            fb@[idx(px, py, w as int)],
        ) == fb@[idx(px, py, w as int)] by {
            assert(!(in_span(px, cx - r, 2 * r + 1) && in_span(py, cy - r, 2 * r + 1)));
        }
    }
    map_box(fb, w, h, x0, x1, y0, y1, op, Ghost(f));
}

/// `v` held to `lo..=hi` (`lo` wins when `lo > hi`).
pub open spec fn clamp_spec(v: int, lo: int, hi: int) -> int {
    if v < lo {
        lo
    } else if v > hi {
        hi
    } else {
        v
    }
}

pub fn clamp(v: i32, lo: i32, hi: i32) -> (r: i32)
    ensures
        r == clamp_spec(v as int, lo as int, hi as int),
{
    if v < lo {
        lo
    } else if v > hi {
        hi
    } else {
        v
    }
}

/// Whether `(px, py)` lies in the rectangle at `(x, y)` of `w` x `h` pixels
/// (taken as `i32` values) rounded with radius `r`.
pub fn in_rrect_exec(px: i32, py: i32, x: i32, y: i32, w: u32, h: u32, r: i32) -> (b: bool)
    requires
        -46340 <= r <= 46340,
    ensures
        b == in_rrect(px as int, py as int, x as int, y as int, signed(w), signed(h), r as int),
{
    let wi = to_i32(w) as i64;
    let hi = to_i32(h) as i64;
    let (px, py, x, y, r) = (px as i64, py as i64, x as i64, y as i64, r as i64);
    if px < x || py < y || px >= x + wi || py >= y + hi {
        return false;
    }
    if r <= 0 {
        return true;
    }
    let left = x + r;
    let right = x + wi - r - 1;
    let top = y + r;
    let bot = y + hi - r - 1;
    if (px >= left && px <= right) || (py >= top && py <= bot) {
        return true;
    }
    let cx = if px < left { left } else { right };
    let cy = if py < top { top } else { bot };
    let dx = px - cx;
    let dy = py - cy;
    assert(-r <= dx <= r && -r <= dy <= r);
    assert(0 <= dx * dx <= 46340 * 46340 && 0 <= dy * dy <= 46340 * 46340) by (nonlinear_arith)
        requires -r <= dx <= r, -r <= dy <= r, r <= 46340;
    assert(r * r <= 46340 * 46340) by (nonlinear_arith)
        requires 0 <= r <= 46340;
    dx * dx + dy * dy <= r * r
}


/// Glow reach around a rounded rectangle: the corner radius plus 4, at most 15.
pub open spec fn glow_reach(radius: u32) -> int {
    if radius as int + 4 < 15 {
        radius as int + 4
    } else {
        15
    }
}

/// Distance `sqrt(d2)` rounded to the nearest integer, capped at 15.
pub open spec fn capped_dist(d2: int) -> int {
    if d2 >= 225 {
        15
    } else {
        round_sqrt(d2)
    }
}

/// A glow around the rounded rectangle at `(x, y)` of `w` x `h` pixels:
/// pixels of the rounded rectangle grown by the glow reach `g` (corner radius
/// `r + g`) that lie outside the rectangle and outside the rounded rectangle
/// itself get `color` blended in with the glow alpha for their distance from
/// the rounded rectangle, when positive.
pub open spec fn paint_glow_rect(x: int, y: int, w: u32, h: u32, radius: u32, color: u32, intensity: u8) -> spec_fn(
    int,
    int,
    u32,
) -> u32 {
    |px: int, py: int, v: u32|
        {
            let g = glow_reach(radius);
            let r = round_radius(radius, w, h);
            let wi = w as int;
            let hi = h as int;
            let dx = px - x;
            let dy = py - y;
            if -g <= dy < hi + g && -g <= dx < wi + g && !(0 <= dx < wi && 0 <= dy < hi) && in_rrect(
                px,
                py,
                x - g,
                y - g,
                wi + 2 * g,
                hi + 2 * g,
                r + g,
            ) && !in_rrect(px, py, x, y, wi, hi, r) {
                let cx2 = clamp_spec(px, x + r, x + wi - r - 1);
                let cy2 = clamp_spec(py, y + r, y + hi - r - 1);
                let d2 = (px - cx2) * (px - cx2) + (py - cy2) * (py - cy2);
                let a = glow_alpha(capped_dist(d2), intensity);
                if a > 0 {
                    blend_packed(color, v, a as u8)
                } else {
                    v
                }
            } else {
                v
            }
        }
}

fn glow_rect_pixel(
    x: i32,
    y: i32,
    w: u32,
    h: u32,
    radius: u32,
    r: i32,
    g: u32,
    color: Color,
    intensity: u8,
    px: i32,
    py: i32,
    v: u32,
) -> (res: u32)
    requires
        w <= i32::MAX - 30,
        h <= i32::MAX - 30,
        i32::MIN + 15 <= x,
        i32::MIN + 15 <= y,
        x + w + 15 <= i32::MAX,
        y + h + 15 <= i32::MAX,
        radius <= 46000,
        r == round_radius(radius, w, h),
        g == glow_reach(radius),
        x - g <= px < x + w + g,
        y - g <= py < y + h + g,
    ensures
        res == paint_glow_rect(x as int, y as int, w, h, radius, color@, intensity)(px as int, py as int, v),
{
    let gi = g as i32;
    let dx = px as i64 - x as i64;
    let dy = py as i64 - y as i64;
    if dx >= 0 && dx < w as i64 && dy >= 0 && dy < h as i64 {
        return v;
    }
    let inside = in_rrect_exec(px, py, x - gi, y - gi, w + 2 * g, h + 2 * g, r + gi);
    if !inside {
        return v;
    }
    let inside_inner = in_rrect_exec(px, py, x, y, w, h, r);
    if inside_inner {
        return v;
    }
    let cx2 = clamp(px, x + r, x + w as i32 - r - 1);
    let cy2 = clamp(py, y + r, y + h as i32 - r - 1);
    let ddx = px as i64 - cx2 as i64;
    let ddy = py as i64 - cy2 as i64;
    assert(-46100 <= ddx <= 46100 && -46100 <= ddy <= 46100);
    assert(0 <= ddx * ddx <= 46100 * 46100 && 0 <= ddy * ddy <= 46100 * 46100) by (nonlinear_arith)
        requires -46100 <= ddx <= 46100, -46100 <= ddy <= 46100;
    let d2 = ddx * ddx + ddy * ddy;
    let dist: i64 = if d2 >= 225 { 15 } else { round_sqrt_exec(d2) };
    let a = glow_lut_value(dist as u32) * intensity as u32 / 255;
    if a > 0 {
        color.blend(Color::from_u32(v), a as u8).to_u32()
    } else {
        v
    }
}

/// Draws a glow around the rounded rectangle at `(x, y)` of `w` x `h` pixels.
pub fn glow_rect(canvas: &mut Canvas, x: i32, y: i32, w: u32, h: u32, radius: u32, color: Color, intensity: u8)
    requires
        old(canvas).wf(),
        w <= i32::MAX - 30,
        h <= i32::MAX - 30,
        i32::MIN + 15 <= x,
        i32::MIN + 15 <= y,
        x + w + 15 <= i32::MAX,
        y + h + 15 <= i32::MAX,
        radius <= 46000,
    ensures
        final(canvas).wf(),
        old(canvas).same_frame(&*final(canvas)),
        final(canvas)@ == old(canvas).drawn(paint_glow_rect(x as int, y as int, w, h, radius, color@, intensity)),
{
    let ghost f = paint_glow_rect(x as int, y as int, w, h, radius, color@, intensity);
    let g: u32 = if radius + 4 < 15 { radius + 4 } else { 15 };
    let m = if w < h { w } else { h };
    let r: i32 = if radius < m / 2 { radius as i32 } else { (m / 2) as i32 };
    assert(r == round_radius(radius, w, h));
    let (cw, ch) = (canvas.width, canvas.height);
    let fb = canvas.pixels.as_mut_slice();
    let _n = fb.len();
    let gi = g as i32;
    let (x0, x1) = clip_span(x as i64 - gi as i64, w as i64 + 2 * gi as i64, cw);
    let (y0, y1) = clip_span(y as i64 - gi as i64, h as i64 + 2 * gi as i64, ch);
    let op = |px: u32, py: u32, v: u32| -> (res: u32)
        requires
            x0 <= px < x1,
            y0 <= py < y1,
        ensures
            res == paint_glow_rect(x as int, y as int, w, h, radius, color@, intensity)(px as int, py as int, v),
        {
            assert(in_span(px as int, x - gi, w + 2 * gi));
            assert(in_span(py as int, y - gi, h + 2 * gi));
            glow_rect_pixel(x, y, w, h, radius, r, g, color, intensity, px as i32, py as i32, v)
        };
    proof {
        assert forall|px: int, py: int|
            in_bounds(px, py, cw as int, ch as int) && !(x0 <= px < x1 && y0 <= py < y1) implies #[trigger] f(
            px,
            py,
            fb@[idx(px, py, cw as int)],
        ) == fb@[idx(px, py, cw as int)] by {
            assert(!(in_span(px, x - gi, w + 2 * gi) && in_span(py, y - gi, h + 2 * gi)));
        }
    }
    map_box(fb, cw, ch, x0, x1, y0, y1, op, Ghost(f));
}


/// The colour of a glass panel's border: `glow` at alpha 60.
pub open spec fn panel_border(glow: u32) -> u32 {
    pack_argb(60, red_of(glow), green_of(glow), blue_of(glow))
}

/// The pixels `pix` of a `cw` x `ch` canvas after a glass panel is drawn
/// at `(x, y)` of `w` x `h` pixels: a glow around it when `glow_intensity`
/// is not 0, its rounded rectangle blended with `tint` at `opacity`, and a
/// faint outline in the glow colour.
pub open spec fn glass_image(
    pix: Seq<u32>,
    cw: int,
    ch: int,
    x: int,
    y: int,
    w: u32,
    h: u32,
    radius: u32,
    tint: u32,
    opacity: u8,
    glow_color: u32,
    glow_intensity: u8,
) -> Seq<u32> {
    let glowed = if glow_intensity > 0 {
        apply(pix, cw, ch, paint_glow_rect(x, y, w, h, radius, glow_color, glow_intensity))
    } else {
        pix
    };
    let tinted = apply(glowed, cw, ch, blend_round_rect(x, y, w, h, radius, tint, opacity));
    apply(tinted, cw, ch, paint_stroke(x, y, w, h, radius, panel_border(glow_color)))
}

/// Draws a glass panel: an optional glow around it, the rounded rectangle
/// tinted with `tint` at weight `opacity`, then its outline in the glow colour
/// at alpha 60.
pub fn glass_panel(
    canvas: &mut Canvas,
    x: i32,
    y: i32,
    w: u32,
    h: u32,
    radius: u32,
    tint: Color,
    opacity: u8,
    glow_color: Color,
    glow_intensity: u8,
)
    requires
        old(canvas).wf(),
        w <= i32::MAX - 30,
        h <= i32::MAX - 30,
        i32::MIN + 15 <= x,
        i32::MIN + 15 <= y,
        x + w + 15 <= i32::MAX,
        y + h + 15 <= i32::MAX,
        radius <= 46000,
    ensures
        final(canvas).wf(),
        old(canvas).same_frame(&*final(canvas)),
        final(canvas)@ == glass_image(
            old(canvas)@,
            old(canvas).width as int,
            old(canvas).height as int,
            x as int,
            y as int,
            w,
            h,
            radius,
            tint@,
            opacity,
            glow_color@,
            glow_intensity,
        ),
{
    if glow_intensity > 0 {
        glow_rect(canvas, x, y, w, h, radius, glow_color, glow_intensity);
    }
    let (cw, ch) = (canvas.width, canvas.height);
    fb_blend_round_rect(canvas.pixels.as_mut_slice(), cw, ch, x, y, w, h, radius, tint, opacity);
    let border = Color::from_argb(60, glow_color.r(), glow_color.g(), glow_color.b());
    canvas.stroke_round_rect(x, y, w, h, radius, border);
}

/// Row distance from `py` to the scan line at `offset`, capped at `h - 1`.
pub open spec fn scan_dist(py: int, offset: int, h: int) -> int {
    let d = if py >= offset { py - offset } else { offset - py };
    if d < h - 1 { d } else { h - 1 }
}

/// A faint horizontal scan line: rows within 2 of row `(time_ms / 16) % h` are
/// brightened with white, at alpha 6 on the line itself and 3 beside it.
pub open spec fn paint_scanline(h: int, time_ms: u32) -> spec_fn(int, int, u32) -> u32 {
    |px: int, py: int, v: u32|
        {
            let d = scan_dist(py, (time_ms / 16) as int % h, h);
            if d <= 2 {
                blend_packed(0xFFFFFFFFu32, v, if d == 0 { 6u8 } else { 3u8 })
            } else {
                v
            }
        }
}

/// Draws the scan line for `time_ms` over the whole canvas, which has at
/// least one row (the line's row is taken modulo the height) and at most
/// 2^31 (row numbers are `i32` values).
pub fn scanline(canvas: &mut Canvas, time_ms: u32)
    requires
        old(canvas).wf(),
        0 < old(canvas).height <= i32::MAX + 1,
    ensures
        final(canvas).wf(),
        old(canvas).same_frame(&*final(canvas)),
        final(canvas)@ == old(canvas).drawn(paint_scanline(old(canvas).height as int, time_ms)),
{
    let h = canvas.height;
    let w = canvas.width;
    let offset = (time_ms / 16) % h;
    let ghost f = paint_scanline(h as int, time_ms);
    let white = Color::white();
    let fb = canvas.pixels.as_mut_slice();
    let ghost s = fb@;
    let _n = fb.len();
    if w == 0 {
        proof {
            lemma_apply_identity(s, w as int, h as int, f);
        }
        return;
    }
    proof {
        lemma_apply_empty(s, w as int, h as int, f);
    }
    let mut py: u32 = 0;
    while py < h
        invariant
            py <= h,
            0 < w,
            0 < h <= i32::MAX + 1,
            offset == (time_ms / 16) % h,
            white@ == 0xFFFFFFFFu32,
            holds_image(s.len() as int, w as int, h as int),
            s.len() <= usize::MAX,
            f == paint_scanline(h as int, time_ms),
            fb@ == apply_upto(s, w as int, h as int, f, py * w),
        decreases h - py,
    {
        let d0: i32 = (py as i32 - offset as i32);
        let d1: u32 = if d0 >= 0 { d0 as u32 } else { (-d0) as u32 };
        let dist = if d1 < h - 1 { d1 } else { h - 1 };
        assert(dist == scan_dist(py as int, offset as int, h as int));
        if dist <= 2 {
            let alpha: u8 = if dist == 0 { 6 } else { 3 };
            blend_full_row(fb, w, h, py, white, alpha, Ghost(s), Ghost(f));
        } else {
            proof {
                lemma_next_row(py as int, w as int);
                lemma_apply_skip_cols(s, w as int, h as int, f, py as int, 0, w as int);
            }
        }
        py = py + 1;
    }
    assert(h * w == w * h) by (nonlinear_arith);
}

/// The radius of a pulsing glow at `time_ms`: the base radius plus a step of
/// 0 to 3 that advances every 100 ms.
pub open spec fn pulse_radius(base_radius: u32, time_ms: u32) -> u32 {
    (base_radius + ((time_ms % 1000) / 100) % 4) as u32
}

/// Draws a glow around `(cx, cy)` whose radius pulses with `time_ms` and whose
/// intensity is scaled by `pulse` (0 to 255).
pub fn pulse_glow_at(
    canvas: &mut Canvas,
    cx: i32,
    cy: i32,
    base_radius: u32,
    time_ms: u32,
    color: Color,
    intensity: u8,
    pulse: u8,
)
    requires
        old(canvas).wf(),
        base_radius <= u32::MAX - 3,
        i32::MIN + 15 <= cx <= i32::MAX - 15,
        i32::MIN + 15 <= cy <= i32::MAX - 15,
    ensures
        final(canvas).wf(),
        old(canvas).same_frame(&*final(canvas)),
        final(canvas)@ == old(canvas).drawn(
            paint_glow(cx as int, cy as int, glow_radius(pulse_radius(base_radius, time_ms)), color@, (intensity as int * pulse as int / 255) as u8),
        ),
{
    let radius = base_radius + ((time_ms % 1000) / 100) % 4;
    assert(intensity as u32 * pulse as u32 <= 255 * 255) by (nonlinear_arith)
        requires intensity <= 255, pulse <= 255;
    let adj = (intensity as u32 * pulse as u32 / 255) as u8;
    glow(canvas, cx, cy, radius, color, adj);
}

} // verus!
