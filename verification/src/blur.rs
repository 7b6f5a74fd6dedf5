use vstd::prelude::*;
use crate::canvas::Canvas;
use crate::color::{alpha_of, lemma_unpack_pack, pack_argb, red_of, green_of, blue_of, Color};
use crate::raster::idx;
use crate::rect::signed;

verus! {

/// Channel `ch` of a packed colour: 0 red, 1 green, otherwise blue.
pub open spec fn channel(v: u32, ch: int) -> int {
    if ch == 0 {
        red_of(v) as int
    } else if ch == 1 {
        green_of(v) as int
    } else {
        blue_of(v) as int
    }
}

/// Sum of channel `ch` over columns `x0..x0 + n` of row `y`.
pub open spec fn row_sum(p: Seq<u32>, w: int, y: int, x0: int, n: int, ch: int) -> int
    decreases n,
{
    if n <= 0 {
        0
    } else {
        row_sum(p, w, y, x0, n - 1, ch) + channel(p[idx(x0 + n - 1, y, w)], ch)
    }
}

/// Sum of channel `ch` over columns `x0..x0 + n` of rows `y0..y0 + m`.
pub open spec fn box_sum(p: Seq<u32>, w: int, x0: int, n: int, y0: int, m: int, ch: int) -> int
    decreases m,
{
    if m <= 0 {
        0
    } else {
        box_sum(p, w, x0, n, y0, m - 1, ch) + row_sum(p, w, y0 + m - 1, x0, n, ch)
    }
}

/// The part of `lo..=hi` inside `0..limit`: its first value and how many
/// values it has.
pub open spec fn clip_range(lo: int, hi: int, limit: int) -> (int, int) {
    let a = if lo < 0 { 0 } else { lo };
    let b = if hi > limit - 1 { limit - 1 } else { hi };
    (a, if b >= a { b - a + 1 } else { 0 })
}

/// The average colour of the pixels of `p` within `r` of `(px, py)` along
/// each axis and inside the `w` x `h` image: each channel's sum divided by
/// the number of pixels, rounded down, fully opaque.
pub open spec fn blur_color(p: Seq<u32>, w: int, h: int, px: int, py: int, r: int) -> u32 {
    let (x0, n) = clip_range(px - r, px + r, w);
    let (y0, m) = clip_range(py - r, py + r, h);
    let count = n * m;
    pack_argb(
        0xFF,
        (box_sum(p, w, x0, n, y0, m, 0) / count) as u8,
        (box_sum(p, w, x0, n, y0, m, 1) / count) as u8,
        (box_sum(p, w, x0, n, y0, m, 2) / count) as u8,
    )
}

/// The smaller of `a` and `b`.
pub open spec fn imin(a: int, b: int) -> int {
    if a < b { a } else { b }
}

/// Whether every channel sum over a neighbourhood of radius `r` (at most
/// `2r + 1` pixels each way, and no more than the `w` x `h` image) fits a
/// `u32`: the blur adds channel values in `u32`.
pub open spec fn window_fits(w: int, h: int, r: int) -> bool {
    255 * imin(2 * r + 1, w) * imin(2 * r + 1, h) <= u32::MAX
}

/// Whether a blur of radius `r` over the `w` x `h` image may run on the
/// rectangle at `(x, y)` of `bw` x `bh` pixels: the channel sums fit a
/// `u32`, and every pixel of the rectangle on the image is at most
/// `i32::MAX - r` along each axis, so that its neighbours' coordinates are
/// `i32` values.
pub open spec fn blur_ok(w: int, h: int, x: int, y: int, bw: int, bh: int, r: int) -> bool {
    let (x0, nx) = clip_range(x, x + bw - 1, w);
    let (y0, ny) = clip_range(y, y + bh - 1, h);
    &&& window_fits(w, h, r)
    &&& nx > 0 ==> x0 + nx - 1 + r <= i32::MAX
    &&& ny > 0 ==> y0 + ny - 1 + r <= i32::MAX
}

/// The pixels after the first `k` pixels of the `nx` x `ny` block at
/// `(x0, y0)` have been replaced, row by row, by the average of their
/// neighbourhood of radius `r`, each average taken over the pixels as they
/// are at that moment.
pub open spec fn blur_steps(p: Seq<u32>, w: int, h: int, x0: int, nx: int, y0: int, r: int, k: int) -> Seq<u32>
    decreases k,
{
    if k <= 0 || nx <= 0 {
        p
    } else {
        let prev = blur_steps(p, w, h, x0, nx, y0, r, k - 1);
        let px = x0 + (k - 1) % nx;
        let py = y0 + (k - 1) / nx;
        prev.update(idx(px, py, w), blur_color(prev, w, h, px, py, r))
    }
}

/// A row sum is at most 255 per pixel.
proof fn lemma_row_sum_bound(p: Seq<u32>, w: int, y: int, x0: int, n: int, ch: int)
    ensures
        0 <= row_sum(p, w, y, x0, n, ch) <= 255 * (if n < 0 { 0 } else { n }),
    decreases n,
{
    if n > 0 {
        lemma_row_sum_bound(p, w, y, x0, n - 1, ch);
    }
}

/// A box sum is at most 255 per pixel.
proof fn lemma_box_sum_bound(p: Seq<u32>, w: int, x0: int, n: int, y0: int, m: int, ch: int)
    requires
        0 <= n,
    ensures
        0 <= box_sum(p, w, x0, n, y0, m, ch) <= 255 * n * (if m < 0 { 0 } else { m }),
    decreases m,
{
    if m > 0 {
        lemma_box_sum_bound(p, w, x0, n, y0, m - 1, ch);
        lemma_row_sum_bound(p, w, y0 + m - 1, x0, n, ch);
        assert(255 * n * (m - 1) + 255 * n == 255 * n * m) by (nonlinear_arith);
    }
}

/// The sum of one channel over the `n` x `m` block at `(x0, y0)`.
fn window_sum(fb: &[u32], w: u32, x0: u32, n: u32, y0: u32, m: u32, ch: u8) -> (s: u32)
    requires
        0 < n,
        x0 + n <= w,
        (y0 + m) * w <= fb@.len(),
        255 * n * m <= u32::MAX,
        ch <= 2,
    ensures
        s == box_sum(fb@, w as int, x0 as int, n as int, y0 as int, m as int, ch as int),
{
    let len: usize = fb.len();
    let mut s: u32 = 0;
    let mut j: u32 = 0;
    while j < m
        invariant
            j <= m,
            fb@.len() == len,
            0 < n,
            x0 + n <= w,
            (y0 + m) * w <= fb@.len(),
            255 * n * m <= u32::MAX,
            ch <= 2,
            s == box_sum(fb@, w as int, x0 as int, n as int, y0 as int, j as int, ch as int),
        decreases m - j,
    {
        proof {
            lemma_box_sum_bound(fb@, w as int, x0 as int, n as int, y0 as int, j as int, ch as int);
            assert(255 * n * j + 255 * n <= 255 * n * m) by (nonlinear_arith)
                requires j < m, 0 <= n;
            assert((y0 + j + 1) * w <= (y0 + m) * w) by (nonlinear_arith)
                requires j < m;
            assert((y0 + j) * w + w == (y0 + j + 1) * w) by (nonlinear_arith);
            assert(y0 + j <= (y0 + j) * w) by (nonlinear_arith)
                requires w >= 1;
        }
        let row = (y0 as usize + j as usize) * w as usize;
        let mut t: u32 = 0;
        let mut i: u32 = 0;
        while i < n
            invariant
                i <= n,
                j < m,
                x0 + n <= w,
                row == (y0 + j) * w,
                row + w <= fb@.len(),
                fb@.len() == len,
                255 * n * m <= u32::MAX,
                255 * n * j + 255 * n <= 255 * n * m,
                ch <= 2,
                s == box_sum(fb@, w as int, x0 as int, n as int, y0 as int, j as int, ch as int),
                0 <= s <= 255 * n * j,
                t == row_sum(fb@, w as int, (y0 + j) as int, x0 as int, i as int, ch as int),
                0 <= t <= 255 * i,
            decreases n - i,
        {
            let v = fb[row + (x0 + i) as usize];
            assert(idx((x0 + i) as int, (y0 + j) as int, w as int) == row + x0 + i);
            let c = Color::from_u32(v);
            let part: u8 = if ch == 0 {
                c.r()
            } else if ch == 1 {
                c.g()
            } else {
                c.b()
            };
            assert(255 * i + 255 <= 255 * n) by (nonlinear_arith)
                requires i < n;
            t = t + part as u32;
            i = i + 1;
        }
        s = s + t;
        j = j + 1;
    }
    s
}

/// Replaces each pixel of the rectangle at `(x, y)` of `bw` x `bh` pixels
/// (extents taken as `i32` values) that lies on the canvas, row by row, by
/// the average of the pixels within `radius` of it along each axis (as the
/// canvas is at that moment); nothing for a radius of 0 or past `i32`.
pub fn box_blur(canvas: &mut Canvas, x: i32, y: i32, bw: u32, bh: u32, radius: u32)
    requires
        old(canvas).wf(),
        x + signed(bw) <= i32::MAX + 1,
        y + signed(bh) <= i32::MAX + 1,
        0 < radius <= i32::MAX ==> blur_ok(
            old(canvas).width as int,
            old(canvas).height as int,
            x as int,
            y as int,
            signed(bw),
            signed(bh),
            radius as int,
        ),
    ensures
        final(canvas).wf(),
        old(canvas).same_frame(&*final(canvas)),
        ({
            let (x0, nx) = clip_range(x as int, x + signed(bw) - 1, old(canvas).width as int);
            let (y0, ny) = clip_range(y as int, y + signed(bh) - 1, old(canvas).height as int);
            final(canvas)@ == if 0 < radius <= i32::MAX {
                blur_steps(old(canvas)@, old(canvas).width as int, old(canvas).height as int, x0, nx, y0, radius as int, nx * ny)
            } else {
                old(canvas)@
            }
        }),
{
    if radius == 0 || radius > 0x7fff_ffff {
        return;
    }
    let r = radius;
    let (w, h) = (canvas.width, canvas.height);
    let ghost p = canvas@;
    // the rectangle's part on the canvas
    let xe: i64 = x as i64 + crate::rect::to_i32(bw) as i64;
    let ye: i64 = y as i64 + crate::rect::to_i32(bh) as i64;
    let cx0: i64 = if x < 0 { 0 } else { x as i64 };
    let cy0: i64 = if y < 0 { 0 } else { y as i64 };
    let cx1: i64 = if xe > w as i64 { w as i64 } else { xe };
    let cy1: i64 = if ye > h as i64 { h as i64 } else { ye };
    if cx1 <= cx0 || cy1 <= cy0 {
        proof {
            let (x0, nx) = clip_range(x as int, x + signed(bw) - 1, w as int);
            let (y0, ny) = clip_range(y as int, y + signed(bh) - 1, h as int);
            assert(nx * ny == 0) by (nonlinear_arith)
                requires nx == 0 || ny == 0;
        }
        return;
    }
    let nx = (cx1 - cx0) as u32;
    let ny = (cy1 - cy0) as u32;
    let x0 = cx0 as u32;
    let y0 = cy0 as u32;
    let ghost total = nx * ny;
    let mut j: u32 = 0;
    while j < ny
        invariant
            j <= ny,
            canvas.wf(),
            old(canvas).same_frame(&*canvas),
            w == canvas.width,
            h == canvas.height,
            p == old(canvas)@,
            1 <= r <= i32::MAX,
            window_fits(w as int, h as int, r as int),
            x0 + nx <= w,
            y0 + ny <= h,
            canvas@ == blur_steps(p, w as int, h as int, x0 as int, nx as int, y0 as int, r as int, j * nx),
        decreases ny - j,
    {
        let mut i: u32 = 0;
        while i < nx
            invariant
                i <= nx,
                j < ny,
                canvas.wf(),
                old(canvas).same_frame(&*canvas),
                w == canvas.width,
                h == canvas.height,
                p == old(canvas)@,
                1 <= r <= i32::MAX,
                window_fits(w as int, h as int, r as int),
                x0 + nx <= w,
                y0 + ny <= h,
                canvas@ == blur_steps(p, w as int, h as int, x0 as int, nx as int, y0 as int, r as int, j * nx + i),
            decreases nx - i,
        {
            let px = x0 + i;
            let py = y0 + j;
            let ghost k = j * nx + i;
            proof {
                vstd::arithmetic::div_mod::lemma_fundamental_div_mod_converse(k as int, nx as int, j as int, i as int);
            }
            self::blur_pixel(canvas, px, py, r);
            i = i + 1;
        }
        assert((j + 1) * nx == j * nx + nx) by (nonlinear_arith);
        j = j + 1;
    }
    proof {
        assert(j * nx == nx * ny) by (nonlinear_arith)
            requires j == ny;
        let (xa, xn) = clip_range(x as int, x + signed(bw) - 1, w as int);
        let (ya, yn) = clip_range(y as int, y + signed(bh) - 1, h as int);
        assert(xa == x0 && xn == nx && ya == y0 && yn == ny);
    }
}

/// Replaces pixel `(px, py)` by the average of its neighbourhood of radius
/// `r`.
fn blur_pixel(canvas: &mut Canvas, px: u32, py: u32, r: u32)
    requires
        old(canvas).wf(),
        px < old(canvas).width,
        py < old(canvas).height,
        1 <= r <= i32::MAX,
        window_fits(old(canvas).width as int, old(canvas).height as int, r as int),
    ensures
        final(canvas).wf(),
        old(canvas).same_frame(&*final(canvas)),
        final(canvas)@ == old(canvas)@.update(
            idx(px as int, py as int, old(canvas).width as int),
            blur_color(old(canvas)@, old(canvas).width as int, old(canvas).height as int, px as int, py as int, r as int),
        ),
{
    let (w, h) = (canvas.width, canvas.height);
    let ru = r;
    let wx0 = if px < ru { 0 } else { px - ru };
    let wy0 = if py < ru { 0 } else { py - ru };
    let wx1 = if px as u64 + ru as u64 > w as u64 - 1 { w - 1 } else { px + ru };
    let wy1 = if py as u64 + ru as u64 > h as u64 - 1 { h - 1 } else { py + ru };
    let n = wx1 - wx0 + 1;
    let m = wy1 - wy0 + 1;
    let ghost (a, b) = (imin(2 * r + 1, w as int), imin(2 * r + 1, h as int));
    assert(n <= a && m <= b);
    assert(255 * n * m <= 255 * a * b) by (nonlinear_arith)
        requires n <= a, m <= b, 1 <= n, 1 <= m;
    assert((wy0 + m) * w <= h * w) by (nonlinear_arith)
        requires wy0 + m <= h;
    assert(h * w == w * h) by (nonlinear_arith);
    assert(n * m >= 1) by (nonlinear_arith)
        requires n >= 1, m >= 1;
    let fb = canvas.pixels.as_slice();
    let sr = window_sum(fb, w, wx0, n, wy0, m, 0);
    let sg = window_sum(fb, w, wx0, n, wy0, m, 1);
    let sb = window_sum(fb, w, wx0, n, wy0, m, 2);
    assert(n * m <= 255 * n * m) by (nonlinear_arith)
        requires 1 <= n, 1 <= m;
    let count = n * m;
    proof {
        let ghost s = canvas@;
        lemma_box_sum_bound(s, w as int, wx0 as int, n as int, wy0 as int, m as int, 0);
        lemma_box_sum_bound(s, w as int, wx0 as int, n as int, wy0 as int, m as int, 1);
        lemma_box_sum_bound(s, w as int, wx0 as int, n as int, wy0 as int, m as int, 2);
        assert(sr / count <= 255 && sg / count <= 255 && sb / count <= 255) by (nonlinear_arith)
            requires sr <= 255 * n * m, sg <= 255 * n * m, sb <= 255 * n * m, count == n * m, count >= 1;
    }
    let avg = Color::from_rgb((sr / count) as u8, (sg / count) as u8, (sb / count) as u8);
    proof {
        crate::raster::lemma_idx_bound(px as int, py as int, w as int, h as int);
    }
    let i = py as usize * w as usize + px as usize;
    canvas.pixels.set(i, avg.to_u32());
}

/// Whether every pixel of the `w` x `h` image `p` is `v`.
pub open spec fn flat_image(p: Seq<u32>, w: int, h: int, v: u32) -> bool {
    &&& w * h <= p.len()
    &&& forall|i: int| 0 <= i < w * h ==> #[trigger] p[i] == v
}

/// Over a flat image a row sum is the row's length times the channel.
proof fn lemma_row_sum_flat(p: Seq<u32>, w: int, h: int, v: u32, y: int, x0: int, n: int, ch: int)
    requires
        flat_image(p, w, h, v),
        0 <= y < h,
        0 <= x0,
        0 <= n,
        x0 + n <= w,
    ensures
        row_sum(p, w, y, x0, n, ch) == n * channel(v, ch),
    decreases n,
{
    if n > 0 {
        lemma_row_sum_flat(p, w, h, v, y, x0, n - 1, ch);
        crate::raster::lemma_idx_bound(x0 + n - 1, y, w, h);
        assert(p[idx(x0 + n - 1, y, w)] == v);
        assert(row_sum(p, w, y, x0, n, ch) == row_sum(p, w, y, x0, n - 1, ch) + channel(v, ch));
        assert((n - 1) * channel(v, ch) + channel(v, ch) == n * channel(v, ch)) by (nonlinear_arith);
    } else {
        assert(row_sum(p, w, y, x0, n, ch) == 0);
    }
}

/// Over a flat image a box sum is the box's area times the channel.
proof fn lemma_box_sum_flat(p: Seq<u32>, w: int, h: int, v: u32, x0: int, n: int, y0: int, m: int, ch: int)
    requires
        flat_image(p, w, h, v),
        0 <= x0,
        0 <= n,
        x0 + n <= w,
        0 <= y0,
        0 <= m,
        y0 + m <= h,
    ensures
        box_sum(p, w, x0, n, y0, m, ch) == n * m * channel(v, ch),
    decreases m,
{
    if m > 0 {
        lemma_box_sum_flat(p, w, h, v, x0, n, y0, m - 1, ch);
        lemma_row_sum_flat(p, w, h, v, y0 + m - 1, x0, n, ch);
        assert(n * (m - 1) * channel(v, ch) + n * channel(v, ch) == n * m * channel(v, ch)) by (nonlinear_arith);
    } else {
        assert(n * m * channel(v, ch) == 0) by (nonlinear_arith)
            requires m == 0;
    }
}

/// The average of a neighbourhood of a flat opaque image is its colour.
proof fn lemma_blur_color_flat(p: Seq<u32>, w: int, h: int, v: u32, px: int, py: int, r: int)
    requires
        flat_image(p, w, h, v),
        alpha_of(v) == 0xFF,
        0 <= px < w,
        0 <= py < h,
        r >= 0,
    ensures
        blur_color(p, w, h, px, py, r) == v,
{
    let (x0, n) = clip_range(px - r, px + r, w);
    let (y0, m) = clip_range(py - r, py + r, h);
    let count = n * m;
    assert(count > 0) by (nonlinear_arith)
        requires n > 0, m > 0, count == n * m;
    lemma_box_sum_flat(p, w, h, v, x0, n, y0, m, 0);
    lemma_box_sum_flat(p, w, h, v, x0, n, y0, m, 1);
    lemma_box_sum_flat(p, w, h, v, x0, n, y0, m, 2);
    vstd::arithmetic::div_mod::lemma_div_multiples_vanish(channel(v, 0), count);
    vstd::arithmetic::div_mod::lemma_div_multiples_vanish(channel(v, 1), count);
    vstd::arithmetic::div_mod::lemma_div_multiples_vanish(channel(v, 2), count);
    assert(n * m * channel(v, 0) == count * channel(v, 0));
    assert(n * m * channel(v, 1) == count * channel(v, 1));
    assert(n * m * channel(v, 2) == count * channel(v, 2));
    lemma_unpack_pack(v);
}

/// Blurring a flat opaque image leaves it as it is: every neighbourhood
/// average is the image's colour, so each step writes back the colour that
/// is already there.
pub proof fn law_blur_keeps_flat_image(p: Seq<u32>, w: int, h: int, x0: int, nx: int, y0: int, ny: int, r: int, k: int, v: u32)
    requires
        flat_image(p, w, h, v),
        alpha_of(v) == 0xFF,
        0 <= x0,
        0 < nx,
        x0 + nx <= w,
        0 <= y0,
        0 <= ny,
        y0 + ny <= h,
        r >= 0,
        0 <= k <= nx * ny,
    ensures
        blur_steps(p, w, h, x0, nx, y0, r, k) == p,
    decreases k,
{
    if k > 0 {
        law_blur_keeps_flat_image(p, w, h, x0, nx, y0, ny, r, k - 1, v);
        let px = x0 + (k - 1) % nx;
        let py = y0 + (k - 1) / nx;
        assert(0 <= (k - 1) % nx < nx) by (nonlinear_arith)
            requires nx > 0, k >= 1;
        assert((k - 1) / nx < ny) by (nonlinear_arith)
            requires nx > 0, 1 <= k <= nx * ny;
        assert(0 <= (k - 1) / nx) by (nonlinear_arith)
            requires nx > 0, k >= 1;
        lemma_blur_color_flat(p, w, h, v, px, py, r);
        crate::raster::lemma_idx_bound(px, py, w, h);
        assert(p.update(idx(px, py, w), v) =~= p);
    }
}

} // verus!
