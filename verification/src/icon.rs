use vstd::prelude::*;
use crate::canvas::glyph_of;
use crate::font::Font;
use crate::raster::{apply, holds_image, paint_disc, paint_glyph, paint_rect, fb_fill_rect, fb_fill_circle, fb_hline,
    fb_set_pixel, fb_draw_glyph};
use crate::rect::{signed, tdiv};

verus! {

/// Opaque black, the colour the icons cut holes with.
pub const BLACK: u32 = 0xFF000000;

/// `p` with the rectangle at `(x, y)` of `rw` x `rh` pixels painted `c`.
pub open spec fn rect_on(p: Seq<u32>, w: int, h: int, x: int, y: int, rw: int, rh: int, c: u32) -> Seq<u32> {
    apply(p, w, h, paint_rect(x, y, rw, rh, c))
}

/// `p` with the disc of radius `r` around `(cx, cy)` painted `c`.
pub open spec fn disc_on(p: Seq<u32>, w: int, h: int, cx: int, cy: int, r: int, c: u32) -> Seq<u32> {
    apply(p, w, h, paint_disc(cx, cy, r, c))
}

/// `p` with glyph `ch` of `font` drawn at `(x, y)` in `c`.
pub open spec fn glyph_on(p: Seq<u32>, w: int, h: int, font: Seq<u8>, x: int, y: int, ch: char, c: u32) -> Seq<u32> {
    apply(p, w, h, paint_glyph(x, y, glyph_of(font, ch), c))
}

/// The larger of `a` and `b`.
pub open spec fn imax(a: int, b: int) -> int {
    if a >= b {
        a
    } else {
        b
    }
}

/// Terminal: a square in `color` with a black inset holding `>` over `_`.
pub open spec fn terminal_icon(p: Seq<u32>, w: int, h: int, font: Seq<u8>, cx: int, cy: int, s: int, color: u32) -> Seq<u32> {
    let half = s / 2;
    let inset = 2 * imax(s / 10, 1);
    let inner = imax(s - 2 * inset, 0);
    let p1 = rect_on(p, w, h, cx - half, cy - half, s, s, color);
    let p2 = rect_on(p1, w, h, cx - half + inset, cy - half + inset, inner, inner, BLACK);
    let p3 = glyph_on(p2, w, h, font, cx - half + inset + 2, cy - half + inset + 1, '>', color);
    glyph_on(p3, w, h, font, cx - half + inset + 2, cy - half + inset + 1 + 13, '_', color)
}

/// The first `k` cells of the calculator's 3 x 3 keypad, row by row.
pub open spec fn calc_cells(p: Seq<u32>, w: int, h: int, cx: int, cy: int, s: int, color: u32, k: int) -> Seq<u32>
    decreases k,
{
    if k <= 0 {
        p
    } else {
        let j = k - 1;
        let cell = imax(s / 4, 2);
        let gap = imax(cell / 3, 1);
        let off = cx - s / 2 + gap;
        rect_on(
            calc_cells(p, w, h, cx, cy, s, color, k - 1),
            w,
            h,
            off + (j % 3) * (cell + gap),
            cy - s / 2 + gap + (j / 3) * (cell + gap),
            cell,
            cell,
            color,
        )
    }
}

/// Files: a folder body with a tab above it.
pub open spec fn files_icon(p: Seq<u32>, w: int, h: int, cx: int, cy: int, s: int, color: u32) -> Seq<u32> {
    let bw = imax(s * 3 / 4, 4);
    let bh = imax(s * 2 / 3, 4);
    let fx = cx - bw / 2;
    let fy = cy - bh / 2;
    let p1 = rect_on(p, w, h, fx, fy + bh / 3, bw, bh - bh / 3, color);
    rect_on(p1, w, h, fx - s / 8, fy, bw + s / 4, bh / 3, color)
}

/// Clock: a ring and two hands.
pub open spec fn clock_icon(p: Seq<u32>, w: int, h: int, cx: int, cy: int, s: int, color: u32) -> Seq<u32> {
    let r = s / 3;
    let p1 = disc_on(p, w, h, cx, cy, r, color);
    let p2 = disc_on(p1, w, h, cx, cy, imax(r - 2, 1), BLACK);
    let p3 = rect_on(p2, w, h, cx, cy, r / 2, 1, color);
    rect_on(p3, w, h, cx + r / 3, cy - r / 3, r / 3, 1, color)
}

/// Direction of the `k`-th arm of the settings gear: right, left, down, up.
pub open spec fn arm_dir(k: int) -> (int, int) {
    if k == 0 {
        (1, 0)
    } else if k == 1 {
        (-1, 0)
    } else if k == 2 {
        (0, 1)
    } else {
        (0, -1)
    }
}

/// The first `k` arms of the settings gear.
pub open spec fn gear_arms(p: Seq<u32>, w: int, h: int, cx: int, cy: int, s: int, color: u32, k: int) -> Seq<u32>
    decreases k,
{
    if k <= 0 {
        p
    } else {
        let arm = imax(s / 6, 2);
        let (dx, dy) = arm_dir(k - 1);
        rect_on(
            gear_arms(p, w, h, cx, cy, s, color, k - 1),
            w,
            h,
            cx + dx * arm - arm / 2,
            cy + dy * arm - arm / 2,
            arm,
            arm,
            color,
        )
    }
}

/// Settings: a gear, a disc with a black hub and four arms.
pub open spec fn settings_icon(p: Seq<u32>, w: int, h: int, cx: int, cy: int, s: int, color: u32) -> Seq<u32> {
    let p1 = disc_on(p, w, h, cx, cy, s / 3, color);
    let p2 = disc_on(p1, w, h, cx, cy, imax(s / 5, 2), BLACK);
    gear_arms(p2, w, h, cx, cy, s, color, 4)
}

/// Offset of the `k`-th ray of the weather sun, the corners of a hexagon of
/// radius `r` from the top clockwise.
pub open spec fn ray_dir(k: int, r: int) -> (int, int) {
    if k == 0 {
        (0, -r)
    } else if k == 1 {
        (r, -(r / 2))
    } else if k == 2 {
        (r, r / 2)
    } else if k == 3 {
        (0, r)
    } else if k == 4 {
        (-r, r / 2)
    } else {
        (-r, -(r / 2))
    }
}

/// The first `k` rays of the weather sun.
pub open spec fn sun_rays(p: Seq<u32>, w: int, h: int, cx: int, cy: int, s: int, color: u32, k: int) -> Seq<u32>
    decreases k,
{
    if k <= 0 {
        p
    } else {
        let (dx, dy) = ray_dir(k - 1, s / 3);
        disc_on(sun_rays(p, w, h, cx, cy, s, color, k - 1), w, h, cx + dx, cy + dy, imax(s / 12, 1), color)
    }
}

/// Photos: a square with three coloured blocks.
pub open spec fn photos_icon(p: Seq<u32>, w: int, h: int, cx: int, cy: int, s: int, color: u32) -> Seq<u32> {
    let half = s / 2;
    let block = imax(s / 4, 2);
    let p1 = rect_on(p, w, h, cx - half, cy - half, s, s, color);
    let p2 = rect_on(p1, w, h, cx, cy, block, block, 0xFFFF8844);
    let p3 = rect_on(p2, w, h, cx - block, cy + block, block, block, 0xFF44FF88);
    rect_on(p3, w, h, cx + block / 2, cy - block, block, block, 0xFF4488FF)
}

/// Editor: three text lines, a left margin bar and a grey middle bar.
pub open spec fn editor_icon(p: Seq<u32>, w: int, h: int, cx: int, cy: int, s: int, color: u32) -> Seq<u32> {
    let half = s / 2;
    let margin = imax(s / 10, 2);
    let lx = cx - half + margin;
    let rx = cx + half - margin;
    let mid = tdiv(lx + rx, 2);
    let t = imax(s / 12, 1);
    let p1 = rect_on(p, w, h, lx, cy - half + margin, rx - lx, t, color);
    let p2 = rect_on(p1, w, h, lx, cy - 2, rx - lx, t, color);
    let p3 = rect_on(p2, w, h, lx, cy + half - margin - t, rx - lx, t, color);
    let p4 = rect_on(p3, w, h, lx, cy - half + margin, 2, s - 2 * margin, color);
    rect_on(p4, w, h, mid, cy - half + margin, 2, s - 2 * margin, 0xFF888888)
}

/// The first `k` segments of the snake.
pub open spec fn snake_segments(p: Seq<u32>, w: int, h: int, cx: int, cy: int, s: int, color: u32, k: int) -> Seq<u32>
    decreases k,
{
    if k <= 0 {
        p
    } else {
        let seg = imax(s / 5, 3);
        rect_on(
            snake_segments(p, w, h, cx, cy, s, color, k - 1),
            w,
            h,
            cx - s / 2 + (k - 1) * (seg + 1),
            cy - seg / 2,
            seg,
            seg,
            color,
        )
    }
}

/// Pong: two paddles and a white ball.
pub open spec fn pong_icon(p: Seq<u32>, w: int, h: int, cx: int, cy: int, s: int, color: u32) -> Seq<u32> {
    let half = s / 2;
    let pw = imax(s / 6, 2);
    let ph = imax(s / 3, 4);
    let bsize = imax(s / 8, 2);
    let p1 = rect_on(p, w, h, cx - half, cy - ph / 2, pw, ph, color);
    let p2 = rect_on(p1, w, h, cx + half - pw, cy - ph / 2, pw, ph, 0xFFFF4444);
    rect_on(p2, w, h, cx - bsize / 2, cy - bsize / 2, bsize, bsize, 0xFFFFFFFF)
}

/// The first `k` cells of the bottom row of the T piece.
pub open spec fn tetris_row(p: Seq<u32>, w: int, h: int, cx: int, cy: int, s: int, color: u32, k: int) -> Seq<u32>
    decreases k,
{
    if k <= 0 {
        p
    } else {
        let cell = imax(s / 5, 3);
        rect_on(
            tetris_row(p, w, h, cx, cy, s, color, k - 1),
            w,
            h,
            cx - cell / 2 + (k - 1) * (cell + 1),
            cy - cell / 2,
            cell,
            cell,
            color,
        )
    }
}

/// Tetris: a T piece, three cells with one on top of the middle.
pub open spec fn tetris_icon(p: Seq<u32>, w: int, h: int, cx: int, cy: int, s: int, color: u32) -> Seq<u32> {
    let cell = imax(s / 5, 3);
    rect_on(
        tetris_row(p, w, h, cx, cy, s, color, 3),
        w,
        h,
        cx - cell / 2 + (cell + 1),
        cy - cell / 2 - (cell + 1),
        cell,
        cell,
        color,
    )
}

/// Music: three vertical bars.
pub open spec fn music_icon(p: Seq<u32>, w: int, h: int, cx: int, cy: int, s: int, color: u32) -> Seq<u32> {
    let half = s / 2;
    let p1 = rect_on(p, w, h, cx - half, cy - half, 4, s, color);
    let p2 = rect_on(p1, w, h, cx - half + s / 3, cy - half, 4, s, color);
    rect_on(p2, w, h, cx - half + s * 2 / 3, cy - half, 4, s, color)
}

/// The first `k` black folds across the envelope.
pub open spec fn mail_folds(p: Seq<u32>, w: int, h: int, cx: int, cy: int, s: int, k: int) -> Seq<u32>
    decreases k,
{
    if k <= 0 {
        p
    } else {
        let i = k - 1;
        let w_env = imax(s * 4 / 5, 6);
        let h_env = imax(s * 3 / 5, 4);
        let ex = cx - w_env / 2;
        let ey = cy - h_env / 2;
        rect_on(
            mail_folds(p, w, h, cx, cy, s, k - 1),
            w,
            h,
            ex + i * w_env / 4,
            ey + h_env * (i + 1) / 4,
            w_env - i * w_env / 4,
            1,
            BLACK,
        )
    }
}

/// Mail: an envelope with three folds.
pub open spec fn mail_icon(p: Seq<u32>, w: int, h: int, cx: int, cy: int, s: int, color: u32) -> Seq<u32> {
    let w_env = imax(s * 4 / 5, 6);
    let h_env = imax(s * 3 / 5, 4);
    mail_folds(rect_on(p, w, h, cx - w_env / 2, cy - h_env / 2, w_env, h_env, color), w, h, cx, cy, s, 3)
}

/// The `k`-th letter of the store's label.
pub open spec fn store_char(k: int) -> char {
    if k == 0 {
        'S'
    } else if k == 1 {
        't'
    } else if k == 2 {
        'o'
    } else {
        'r'
    }
}

/// The first `k` letters of "Stor", centred on `(cx, cy)`.
pub open spec fn store_letters(p: Seq<u32>, w: int, h: int, font: Seq<u8>, cx: int, cy: int, color: u32, k: int) -> Seq<u32>
    decreases k,
{
    if k <= 0 {
        p
    } else {
        glyph_on(
            store_letters(p, w, h, font, cx, cy, color, k - 1),
            w,
            h,
            font,
            cx - 18 + (k - 1) * 9,
            cy - 6,
            store_char(k - 1),
            color,
        )
    }
}

/// The first `k` steps of the two diagonals of the map.
pub open spec fn map_steps(p: Seq<u32>, w: int, h: int, cx: int, cy: int, s: int, color: u32, k: int) -> Seq<u32>
    decreases k,
{
    if k <= 0 {
        p
    } else {
        let i = k - 1;
        let half_s = s / 2;
        let step = imax(half_s / 8, 1);
        let p1 = rect_on(map_steps(p, w, h, cx, cy, s, color, k - 1), w, h, cx - half_s + i * step, cy + half_s - i * step, 1, 1, color);
        rect_on(p1, w, h, cx + i * step, cy + half_s - i * step, 1, 1, color)
    }
}

/// About: a disc with a black "i".
pub open spec fn about_icon(p: Seq<u32>, w: int, h: int, cx: int, cy: int, s: int, color: u32) -> Seq<u32> {
    let dot_r = imax(s / 16, 1);
    let p1 = disc_on(p, w, h, cx, cy, s / 3, color);
    let p2 = disc_on(p1, w, h, cx, cy - s / 6, dot_r, BLACK);
    rect_on(p2, w, h, cx - dot_r / 2, cy + s / 12, dot_r, s / 6, BLACK)
}

/// The pixels after icon `kind` of size `s` has been drawn centred on
/// `(cx, cy)`; kinds past 15 draw nothing.
pub open spec fn icon_image(
    p: Seq<u32>,
    w: int,
    h: int,
    font: Seq<u8>,
    cx: int,
    cy: int,
    s: int,
    kind: u32,
    color: u32,
) -> Seq<u32> {
    if kind == 0 {
        terminal_icon(p, w, h, font, cx, cy, s, color)
    } else if kind == 1 {
        calc_cells(p, w, h, cx, cy, s, color, 9)
    } else if kind == 2 {
        files_icon(p, w, h, cx, cy, s, color)
    } else if kind == 3 {
        clock_icon(p, w, h, cx, cy, s, color)
    } else if kind == 4 {
        settings_icon(p, w, h, cx, cy, s, color)
    } else if kind == 5 {
        sun_rays(disc_on(p, w, h, cx, cy, s / 4, color), w, h, cx, cy, s, color, 6)
    } else if kind == 6 {
        photos_icon(p, w, h, cx, cy, s, color)
    } else if kind == 7 {
        editor_icon(p, w, h, cx, cy, s, color)
    } else if kind == 8 {
        snake_segments(p, w, h, cx, cy, s, color, 4)
    } else if kind == 9 {
        pong_icon(p, w, h, cx, cy, s, color)
    } else if kind == 10 {
        tetris_icon(p, w, h, cx, cy, s, color)
    } else if kind == 11 {
        music_icon(p, w, h, cx, cy, s, color)
    } else if kind == 12 {
        mail_icon(p, w, h, cx, cy, s, color)
    } else if kind == 13 {
        store_letters(p, w, h, font, cx, cy, color, 4)
    } else if kind == 14 {
        map_steps(p, w, h, cx, cy, s, color, 9)
    } else if kind == 15 {
        about_icon(p, w, h, cx, cy, s, color)
    } else {
        p
    }
}

/// The inputs for which the icon arithmetic stays inside `i32`: the size is
/// an `i32`, every point an icon of size `s` computes lies within
/// `s / 2 + 32` pixels of its centre, and the centre is at least that far
/// from the ends of `i32`.
pub open spec fn icon_args(cx: int, cy: int, s: int) -> bool {
    &&& 0 <= s <= i32::MAX
    &&& i32::MIN + s / 2 + 32 <= cx <= i32::MAX - s / 2 - 32
    &&& i32::MIN + s / 2 + 32 <= cy <= i32::MAX - s / 2 - 32
}

/// What each icon kind adds to [`icon_args`] for its arithmetic to stay in
/// `i32`: the folder's `3 * s`, the note's `2 * s` and the envelope's
/// `4 * s`; the editor's sum of its two edges (`2 * cx`); and the discs'
/// radii, whose squares are `i32` values (the clock's and gear's `s / 3`,
/// the sun's `s / 4`, the info sign's `s / 3`).
pub open spec fn icon_kind_ok(kind: u32, cx: int, s: int) -> bool {
    &&& kind == 2 ==> 3 * s <= i32::MAX
    &&& kind == 3 || kind == 4 || kind == 15 ==> s / 3 <= 46340
    &&& kind == 5 ==> s / 4 <= 46340
    &&& kind == 7 ==> i32::MIN <= 2 * cx <= i32::MAX
    &&& kind == 11 ==> 2 * s <= i32::MAX
    &&& kind == 12 ==> 4 * s <= i32::MAX
}

/// Whether an icon of `kind` can be drawn at `(cx, cy)` with `size`: any
/// unknown kind (above 15), which draws nothing, and a known one whose
/// arithmetic stays in `i32` (see [`icon_args`] and [`icon_kind_ok`]).
pub open spec fn icon_ok(cx: int, cy: int, size: int, kind: u32) -> bool {
    kind <= 15 ==> icon_args(cx, cy, size) && icon_kind_ok(kind, cx, size)
}

/// Tests [`icon_ok`].
pub fn icon_fits(cx: i32, cy: i32, size: u32, kind: u32) -> (b: bool)
    ensures
        b == icon_ok(cx as int, cy as int, size as int, kind),
{
    if kind > 15 {
        return true;
    }
    if size > 0x7fff_ffff {
        return false;
    }
    let reach = (size / 2) as i64 + 32;
    let (x, y, s) = (cx as i64, cy as i64, size as i64);
    if x < i32::MIN as i64 + reach || x > i32::MAX as i64 - reach || y < i32::MIN as i64 + reach || y > i32::MAX as i64
        - reach {
        return false;
    }
    match kind {
        2 => 3 * s <= i32::MAX as i64,
        3 | 4 | 15 => s / 3 <= 46340,
        5 => s / 4 <= 46340,
        7 => i32::MIN as i64 <= 2 * x && 2 * x <= i32::MAX as i64,
        11 => 2 * s <= i32::MAX as i64,
        12 => 4 * s <= i32::MAX as i64,
        _ => true,
    }
}

/// `v as u32`, whose `i32` reading is `v` again.
fn as_u32(v: i32) -> (r: u32)
    ensures
        signed(r) == v,
{
    let r = v as u32;
    assert(signed(r) == v) by (bit_vector)
        requires
            r == v as u32,
    ;
    r
}

/// The larger of `a` and `b`.
fn max_i32(a: i32, b: i32) -> (r: i32)
    ensures
        r == imax(a as int, b as int),
{
    if a >= b {
        a
    } else {
        b
    }
}

/// Fills a rectangle of non-negative `i32` size.
fn rect(fb: &mut [u32], w: u32, h: u32, x: i32, y: i32, rw: i32, rh: i32, c: u32)
    requires
        holds_image(old(fb)@.len() as int, w as int, h as int),
        x + rw <= i32::MAX + 1,
        y + rh <= i32::MAX + 1,
    ensures
        final(fb)@ == rect_on(old(fb)@, w as int, h as int, x as int, y as int, rw as int, rh as int, c),
        final(fb)@.len() == old(fb)@.len(),
{
    let uw = as_u32(rw);
    let uh = as_u32(rh);
    fb_fill_rect(fb, w, h, x, y, uw, uh, c);
}

/// Draws glyph `ch` of `font`.
fn glyph(fb: &mut [u32], w: u32, h: u32, font: &Font, x: i32, y: i32, ch: char, c: u32)
    requires
        holds_image(old(fb)@.len() as int, w as int, h as int),
        x + 8 <= i32::MAX + 1,
        y + 13 <= i32::MAX + 1,
    ensures
        final(fb)@ == glyph_on(old(fb)@, w as int, h as int, font@, x as int, y as int, ch, c),
        final(fb)@.len() == old(fb)@.len(),
{
    let rows = font.glyph(ch);
    assert(rows@ =~= glyph_of(font@, ch));
    fb_draw_glyph(fb, w, h, x, y, &rows, c);
}

fn terminal(fb: &mut [u32], w: u32, h: u32, font: &Font, cx: i32, cy: i32, s: i32, color: u32)
    requires
        holds_image(old(fb)@.len() as int, w as int, h as int),
        icon_args(cx as int, cy as int, s as int),
    ensures
        final(fb)@ == terminal_icon(old(fb)@, w as int, h as int, font@, cx as int, cy as int, s as int, color),
        final(fb)@.len() == old(fb)@.len(),
{
    let half = s / 2;
    rect(fb, w, h, cx - half, cy - half, s, s, color);
    let inset = 2 * max_i32(s / 10, 1);
    let inner = max_i32(s - inset * 2, 0);
    rect(fb, w, h, cx - half + inset, cy - half + inset, inner, inner, BLACK);
    glyph(fb, w, h, font, cx - half + inset + 2, cy - half + inset + 1, '>', color);
    glyph(fb, w, h, font, cx - half + inset + 2, cy - half + inset + 1 + 13, '_', color);
}

fn calculator(fb: &mut [u32], w: u32, h: u32, cx: i32, cy: i32, s: i32, color: u32)
    requires
        holds_image(old(fb)@.len() as int, w as int, h as int),
        icon_args(cx as int, cy as int, s as int),
    ensures
        final(fb)@ == calc_cells(old(fb)@, w as int, h as int, cx as int, cy as int, s as int, color, 9),
        final(fb)@.len() == old(fb)@.len(),
{
    let half = s / 2;
    let cell = max_i32(s / 4, 2);
    let gap = max_i32(cell / 3, 1);
    let off = cx - half + gap;
    let ghost p = fb@;
    let mut row: i32 = 0;
    while row < 3
        invariant
            0 <= row <= 3,
            holds_image(fb@.len() as int, w as int, h as int),
            fb@.len() == old(fb)@.len(),
            icon_args(cx as int, cy as int, s as int),
            half == s / 2,
            cell == imax(s / 4, 2),
            gap == imax(cell / 3, 1),
            off == cx - half + gap,
            fb@ == calc_cells(p, w as int, h as int, cx as int, cy as int, s as int, color, row * 3),
        decreases 3 - row,
    {
        let mut col: i32 = 0;
        while col < 3
            invariant
                0 <= row < 3,
                0 <= col <= 3,
                holds_image(fb@.len() as int, w as int, h as int),
                fb@.len() == old(fb)@.len(),
            fb@.len() == old(fb)@.len(),
                icon_args(cx as int, cy as int, s as int),
                half == s / 2,
                cell == imax(s / 4, 2),
                gap == imax(cell / 3, 1),
                off == cx - half + gap,
                fb@ == calc_cells(p, w as int, h as int, cx as int, cy as int, s as int, color, row * 3 + col),
            decreases 3 - col,
        {
            let ghost j = row * 3 + col;
            assert(j % 3 == col && j / 3 == row);
            assert(0 <= col * (cell + gap) <= 2 * (cell + gap) && 0 <= row * (cell + gap) <= 2 * (cell + gap))
                by (nonlinear_arith)
                requires 0 <= col < 3, 0 <= row < 3, 0 <= cell + gap;
            rect(fb, w, h, off + col * (cell + gap), cy - half + gap + row * (cell + gap), cell, cell, color);
            col = col + 1;
        }
        row = row + 1;
    }
}

fn files(fb: &mut [u32], w: u32, h: u32, cx: i32, cy: i32, s: i32, color: u32)
    requires
        holds_image(old(fb)@.len() as int, w as int, h as int),
        icon_args(cx as int, cy as int, s as int),
        icon_kind_ok(2, cx as int, s as int),
    ensures
        final(fb)@ == files_icon(old(fb)@, w as int, h as int, cx as int, cy as int, s as int, color),
        final(fb)@.len() == old(fb)@.len(),
{
    let bw = max_i32(s * 3 / 4, 4);
    let bh = max_i32(s * 2 / 3, 4);
    let fx = cx - bw / 2;
    let fy = cy - bh / 2;
    rect(fb, w, h, fx, fy + bh / 3, bw, bh - bh / 3, color);
    rect(fb, w, h, fx - s / 8, fy, bw + s / 4, bh / 3, color);
}

fn clock(fb: &mut [u32], w: u32, h: u32, cx: i32, cy: i32, s: i32, color: u32)
    requires
        holds_image(old(fb)@.len() as int, w as int, h as int),
        icon_args(cx as int, cy as int, s as int),
        icon_kind_ok(3, cx as int, s as int),
    ensures
        final(fb)@ == clock_icon(old(fb)@, w as int, h as int, cx as int, cy as int, s as int, color),
        final(fb)@.len() == old(fb)@.len(),
{
    let r = s / 3;
    fb_fill_circle(fb, w, h, cx, cy, r as u32, color);
    fb_fill_circle(fb, w, h, cx, cy, max_i32(r - 2, 1) as u32, BLACK);
    fb_hline(fb, w, h, cx, cy, (r / 2) as u32, color);
    let hx = cx + (r / 3);
    let hy = cy - (r / 3);
    fb_hline(fb, w, h, hx, hy, (r / 3) as u32, color);
}

fn settings(fb: &mut [u32], w: u32, h: u32, cx: i32, cy: i32, s: i32, color: u32)
    requires
        holds_image(old(fb)@.len() as int, w as int, h as int),
        icon_args(cx as int, cy as int, s as int),
        icon_kind_ok(4, cx as int, s as int),
    ensures
        final(fb)@ == settings_icon(old(fb)@, w as int, h as int, cx as int, cy as int, s as int, color),
        final(fb)@.len() == old(fb)@.len(),
{
    fb_fill_circle(fb, w, h, cx, cy, (s / 3) as u32, color);
    fb_fill_circle(fb, w, h, cx, cy, max_i32(s / 5, 2) as u32, BLACK);
    let arm = max_i32(s / 6, 2);
    let ghost p = fb@;
    let mut k: i32 = 0;
    while k < 4
        invariant
            0 <= k <= 4,
            holds_image(fb@.len() as int, w as int, h as int),
            fb@.len() == old(fb)@.len(),
            icon_args(cx as int, cy as int, s as int),
            arm == imax(s / 6, 2),
            fb@ == gear_arms(p, w as int, h as int, cx as int, cy as int, s as int, color, k as int),
        decreases 4 - k,
    {
        let (dx, dy): (i32, i32) = if k == 0 {
            (1, 0)
        } else if k == 1 {
            (-1, 0)
        } else if k == 2 {
            (0, 1)
        } else {
            (0, -1)
        };
        assert((dx as int, dy as int) == arm_dir(k as int));
        rect(fb, w, h, cx + dx * arm - arm / 2, cy + dy * arm - arm / 2, arm, arm, color);
        k = k + 1;
    }
}

fn weather(fb: &mut [u32], w: u32, h: u32, cx: i32, cy: i32, s: i32, color: u32)
    requires
        holds_image(old(fb)@.len() as int, w as int, h as int),
        icon_args(cx as int, cy as int, s as int),
        icon_kind_ok(5, cx as int, s as int),
    ensures
        final(fb)@ == sun_rays(
            disc_on(old(fb)@, w as int, h as int, cx as int, cy as int, s as int / 4, color),
            w as int,
            h as int,
            cx as int,
            cy as int,
            s as int,
            color,
            6,
        ),
        final(fb)@.len() == old(fb)@.len(),
{
    fb_fill_circle(fb, w, h, cx, cy, (s / 4) as u32, color);
    let r = s / 3;
    let dot = max_i32(s / 12, 1);
    let ghost p = fb@;
    let mut k: i32 = 0;
    while k < 6
        invariant
            0 <= k <= 6,
            holds_image(fb@.len() as int, w as int, h as int),
            fb@.len() == old(fb)@.len(),
            icon_args(cx as int, cy as int, s as int),
            icon_kind_ok(5, cx as int, s as int),
            r == s / 3,
            dot == imax(s / 12, 1),
            fb@ == sun_rays(p, w as int, h as int, cx as int, cy as int, s as int, color, k as int),
        decreases 6 - k,
    {
        let (dx, dy): (i32, i32) = if k == 0 {
            (0, -r)
        } else if k == 1 {
            (r, -r / 2)
        } else if k == 2 {
            (r, r / 2)
        } else if k == 3 {
            (0, r)
        } else if k == 4 {
            (-r, r / 2)
        } else {
            (-r, -r / 2)
        };
        assert((dx as int, dy as int) == ray_dir(k as int, r as int));
        fb_fill_circle(fb, w, h, cx + dx, cy + dy, dot as u32, color);
        k = k + 1;
    }
}

fn photos(fb: &mut [u32], w: u32, h: u32, cx: i32, cy: i32, s: i32, color: u32)
    requires
        holds_image(old(fb)@.len() as int, w as int, h as int),
        icon_args(cx as int, cy as int, s as int),
    ensures
        final(fb)@ == photos_icon(old(fb)@, w as int, h as int, cx as int, cy as int, s as int, color),
        final(fb)@.len() == old(fb)@.len(),
{
    let half = s / 2;
    rect(fb, w, h, cx - half, cy - half, s, s, color);
    let block = max_i32(s / 4, 2);
    rect(fb, w, h, cx, cy, block, block, 0xFFFF8844);
    rect(fb, w, h, cx - block, cy + block, block, block, 0xFF44FF88);
    rect(fb, w, h, cx + block / 2, cy - block, block, block, 0xFF4488FF);
}

fn editor(fb: &mut [u32], w: u32, h: u32, cx: i32, cy: i32, s: i32, color: u32)
    requires
        holds_image(old(fb)@.len() as int, w as int, h as int),
        icon_args(cx as int, cy as int, s as int),
        icon_kind_ok(7, cx as int, s as int),
    ensures
        final(fb)@ == editor_icon(old(fb)@, w as int, h as int, cx as int, cy as int, s as int, color),
        final(fb)@.len() == old(fb)@.len(),
{
    let half = s / 2;
    let margin = max_i32(s / 10, 2);
    let lx = cx - half + margin;
    let rx = cx + half - margin;
    let mid = (lx + rx) / 2;
    let t = max_i32(s / 12, 1);
    rect(fb, w, h, lx, cy - half + margin, rx - lx, t, color);
    rect(fb, w, h, lx, cy - 2, rx - lx, t, color);
    rect(fb, w, h, lx, cy + half - margin - t, rx - lx, t, color);
    rect(fb, w, h, lx, cy - half + margin, 2, s - margin * 2, color);
    rect(fb, w, h, mid, cy - half + margin, 2, s - margin * 2, 0xFF888888);
}

fn snake(fb: &mut [u32], w: u32, h: u32, cx: i32, cy: i32, s: i32, color: u32)
    requires
        holds_image(old(fb)@.len() as int, w as int, h as int),
        icon_args(cx as int, cy as int, s as int),
    ensures
        final(fb)@ == snake_segments(old(fb)@, w as int, h as int, cx as int, cy as int, s as int, color, 4),
        final(fb)@.len() == old(fb)@.len(),
{
    let half = s / 2;
    let seg = max_i32(s / 5, 3);
    let ghost p = fb@;
    let mut i: i32 = 0;
    while i < 4
        invariant
            0 <= i <= 4,
            holds_image(fb@.len() as int, w as int, h as int),
            fb@.len() == old(fb)@.len(),
            icon_args(cx as int, cy as int, s as int),
            half == s / 2,
            seg == imax(s / 5, 3),
            fb@ == snake_segments(p, w as int, h as int, cx as int, cy as int, s as int, color, i as int),
        decreases 4 - i,
    {
        assert(0 <= i * (seg + 1) <= 3 * (seg + 1)) by (nonlinear_arith)
            requires 0 <= i < 4, 0 <= seg;
        rect(fb, w, h, cx - half + i * (seg + 1), cy - seg / 2, seg, seg, color);
        i = i + 1;
    }
}

fn pong(fb: &mut [u32], w: u32, h: u32, cx: i32, cy: i32, s: i32, color: u32)
    requires
        holds_image(old(fb)@.len() as int, w as int, h as int),
        icon_args(cx as int, cy as int, s as int),
    ensures
        final(fb)@ == pong_icon(old(fb)@, w as int, h as int, cx as int, cy as int, s as int, color),
        final(fb)@.len() == old(fb)@.len(),
{
    let half = s / 2;
    let pw = max_i32(s / 6, 2);
    let ph = max_i32(s / 3, 4);
    rect(fb, w, h, cx - half, cy - ph / 2, pw, ph, color);
    rect(fb, w, h, cx + half - pw, cy - ph / 2, pw, ph, 0xFFFF4444);
    let bsize = max_i32(s / 8, 2);
    rect(fb, w, h, cx - bsize / 2, cy - bsize / 2, bsize, bsize, 0xFFFFFFFF);
}

fn tetris(fb: &mut [u32], w: u32, h: u32, cx: i32, cy: i32, s: i32, color: u32)
    requires
        holds_image(old(fb)@.len() as int, w as int, h as int),
        icon_args(cx as int, cy as int, s as int),
    ensures
        final(fb)@ == tetris_icon(old(fb)@, w as int, h as int, cx as int, cy as int, s as int, color),
        final(fb)@.len() == old(fb)@.len(),
{
    let cell = max_i32(s / 5, 3);
    let ghost p = fb@;
    let mut i: i32 = 0;
    while i < 3
        invariant
            0 <= i <= 3,
            holds_image(fb@.len() as int, w as int, h as int),
            fb@.len() == old(fb)@.len(),
            icon_args(cx as int, cy as int, s as int),
            cell == imax(s / 5, 3),
            fb@ == tetris_row(p, w as int, h as int, cx as int, cy as int, s as int, color, i as int),
        decreases 3 - i,
    {
        assert(0 <= i * (cell + 1) <= 2 * (cell + 1)) by (nonlinear_arith)
            requires 0 <= i < 3, 0 <= cell;
        rect(fb, w, h, cx - cell / 2 + i * (cell + 1), cy - cell / 2, cell, cell, color);
        i = i + 1;
    }
    rect(fb, w, h, cx - cell / 2 + (cell + 1), cy - cell / 2 - (cell + 1), cell, cell, color);
}

fn music(fb: &mut [u32], w: u32, h: u32, cx: i32, cy: i32, s: i32, color: u32)
    requires
        holds_image(old(fb)@.len() as int, w as int, h as int),
        icon_args(cx as int, cy as int, s as int),
        icon_kind_ok(11, cx as int, s as int),
    ensures
        final(fb)@ == music_icon(old(fb)@, w as int, h as int, cx as int, cy as int, s as int, color),
        final(fb)@.len() == old(fb)@.len(),
{
    let half = s / 2;
    rect(fb, w, h, cx - half, cy - half, 4, s, color);
    rect(fb, w, h, cx - half + s / 3, cy - half, 4, s, color);
    rect(fb, w, h, cx - half + s * 2 / 3, cy - half, 4, s, color);
}

fn mail(fb: &mut [u32], w: u32, h: u32, cx: i32, cy: i32, s: i32, color: u32)
    requires
        holds_image(old(fb)@.len() as int, w as int, h as int),
        icon_args(cx as int, cy as int, s as int),
        icon_kind_ok(12, cx as int, s as int),
    ensures
        final(fb)@ == mail_icon(old(fb)@, w as int, h as int, cx as int, cy as int, s as int, color),
        final(fb)@.len() == old(fb)@.len(),
{
    let w_env = max_i32(s * 4 / 5, 6);
    let h_env = max_i32(s * 3 / 5, 4);
    let ex = cx - w_env / 2;
    let ey = cy - h_env / 2;
    rect(fb, w, h, ex, ey, w_env, h_env, color);
    let ghost p = fb@;
    let mut i: i32 = 0;
    while i < 3
        invariant
            0 <= i <= 3,
            holds_image(fb@.len() as int, w as int, h as int),
            fb@.len() == old(fb)@.len(),
            icon_args(cx as int, cy as int, s as int),
            icon_kind_ok(12, cx as int, s as int),
            w_env == imax(s * 4 / 5, 6),
            h_env == imax(s * 3 / 5, 4),
            ex == cx - w_env / 2,
            ey == cy - h_env / 2,
            fb@ == mail_folds(p, w as int, h as int, cx as int, cy as int, s as int, i as int),
        decreases 3 - i,
    {
        assert(0 <= i * w_env <= 3 * w_env) by (nonlinear_arith)
            requires 0 <= i <= 3, 0 <= w_env;
        assert(0 <= h_env * (i + 1) <= 4 * h_env) by (nonlinear_arith)
            requires 0 <= i <= 3, 0 <= h_env;
        let lyric = ex + (i * w_env / 4);
        fb_hline(fb, w, h, lyric, ey + h_env * (i + 1) / 4, as_u32(w_env - i * w_env / 4), BLACK);
        i = i + 1;
    }
}

fn store(fb: &mut [u32], w: u32, h: u32, font: &Font, cx: i32, cy: i32, color: u32)
    requires
        holds_image(old(fb)@.len() as int, w as int, h as int),
        icon_args(cx as int, cy as int, 0),
    ensures
        final(fb)@ == store_letters(old(fb)@, w as int, h as int, font@, cx as int, cy as int, color, 4),
        final(fb)@.len() == old(fb)@.len(),
{
    let cw: i32 = 9;
    let tw: i32 = 4 * cw;
    let start_x = cx - tw / 2;
    let ghost p = fb@;
    let mut i: i32 = 0;
    while i < 4
        invariant
            0 <= i <= 4,
            holds_image(fb@.len() as int, w as int, h as int),
            fb@.len() == old(fb)@.len(),
            icon_args(cx as int, cy as int, 0),
            cw == 9,
            start_x == cx - 18,
            fb@ == store_letters(p, w as int, h as int, font@, cx as int, cy as int, color, i as int),
        decreases 4 - i,
    {
        let ch = if i == 0 {
            'S'
        } else if i == 1 {
            't'
        } else if i == 2 {
            'o'
        } else {
            'r'
        };
        assert(ch == store_char(i as int));
        glyph(fb, w, h, font, start_x + i * cw, cy - 13 / 2, ch, color);
        i = i + 1;
    }
}

fn maps(fb: &mut [u32], w: u32, h: u32, cx: i32, cy: i32, s: i32, color: u32)
    requires
        holds_image(old(fb)@.len() as int, w as int, h as int),
        icon_args(cx as int, cy as int, s as int),
    ensures
        final(fb)@ == map_steps(old(fb)@, w as int, h as int, cx as int, cy as int, s as int, color, 9),
        final(fb)@.len() == old(fb)@.len(),
{
    let half_s = s / 2;
    let step = max_i32(half_s / 8, 1);
    let ghost p = fb@;
    let mut i: i32 = 0;
    while i <= 8
        invariant
            0 <= i <= 9,
            holds_image(fb@.len() as int, w as int, h as int),
            fb@.len() == old(fb)@.len(),
            icon_args(cx as int, cy as int, s as int),
            half_s == s / 2,
            step == imax(half_s / 8, 1),
            fb@ == map_steps(p, w as int, h as int, cx as int, cy as int, s as int, color, i as int),
        decreases 9 - i,
    {
        assert(0 <= i * step <= 8 * step) by (nonlinear_arith)
            requires 0 <= i <= 8, 0 <= step;
        let px1 = cx - half_s + i * step;
        let py1 = cy + half_s - i * step;
        fb_set_pixel(fb, w, h, px1, py1, color);
        let px2 = cx + i * step;
        let py2 = cy + half_s - i * step;
        fb_set_pixel(fb, w, h, px2, py2, color);
        i = i + 1;
    }
}

fn about(fb: &mut [u32], w: u32, h: u32, cx: i32, cy: i32, s: i32, color: u32)
    requires
        holds_image(old(fb)@.len() as int, w as int, h as int),
        icon_args(cx as int, cy as int, s as int),
        icon_kind_ok(15, cx as int, s as int),
    ensures
        final(fb)@ == about_icon(old(fb)@, w as int, h as int, cx as int, cy as int, s as int, color),
        final(fb)@.len() == old(fb)@.len(),
{
    fb_fill_circle(fb, w, h, cx, cy, (s / 3) as u32, color);
    let dot_r = max_i32(s / 16, 1);
    fb_fill_circle(fb, w, h, cx, cy - s / 6, dot_r as u32, BLACK);
    rect(fb, w, h, cx - dot_r / 2, cy + s / 12, dot_r, s / 6, BLACK);
}

/// Draws icon `kind` (0 terminal, 1 calculator, 2 files, 3 clock,
/// 4 settings, 5 weather, 6 photos, 7 editor, 8 snake, 9 pong, 10 tetris,
/// 11 music, 12 mail, 13 store, 14 maps, 15 about) of `size` pixels
/// centred on `(cx, cy)`, text taken from `font`; other kinds draw nothing.
pub fn fb_draw_icon(fb: &mut [u32], w: u32, h: u32, font: &Font, cx: i32, cy: i32, size: u32, kind: u32, color: u32)
    requires
        holds_image(old(fb)@.len() as int, w as int, h as int),
        icon_ok(cx as int, cy as int, size as int, kind),
    ensures
        final(fb)@ == icon_image(old(fb)@, w as int, h as int, font@, cx as int, cy as int, size as int, kind, color),
        final(fb)@.len() == old(fb)@.len(),
{
    let s = #[verifier::truncate] (size as i32);
    match kind {
        0 => terminal(fb, w, h, font, cx, cy, s, color),
        1 => calculator(fb, w, h, cx, cy, s, color),
        2 => files(fb, w, h, cx, cy, s, color),
        3 => clock(fb, w, h, cx, cy, s, color),
        4 => settings(fb, w, h, cx, cy, s, color),
        5 => weather(fb, w, h, cx, cy, s, color),
        6 => photos(fb, w, h, cx, cy, s, color),
        7 => editor(fb, w, h, cx, cy, s, color),
        8 => snake(fb, w, h, cx, cy, s, color),
        9 => pong(fb, w, h, cx, cy, s, color),
        10 => tetris(fb, w, h, cx, cy, s, color),
        11 => music(fb, w, h, cx, cy, s, color),
        12 => mail(fb, w, h, cx, cy, s, color),
        13 => store(fb, w, h, font, cx, cy, color),
        14 => maps(fb, w, h, cx, cy, s, color),
        15 => about(fb, w, h, cx, cy, s, color),
        _ => {},
    }
}

} // verus!
