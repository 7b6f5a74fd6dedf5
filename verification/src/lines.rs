use vstd::prelude::*;
use crate::icon::rect_on;
use crate::raster::{holds_image, fb_set_pixel};

verus! {

/// `|v|`.
pub open spec fn iabs(v: int) -> int {
    if v < 0 {
        -v
    } else {
        v
    }
}

/// The error term a line from `(x0, y0)` to `(x1, y1)` starts with: half
/// the longer extent, negative when the line is steep.
pub open spec fn line_err0(x0: int, y0: int, x1: int, y1: int) -> int {
    let dx = iabs(x1 - x0);
    let dy = iabs(y1 - y0);
    if dx > dy {
        dx / 2
    } else {
        -(dy / 2)
    }
}

/// One step of the line walk from `(x, y)` with error `err`: x moves one
/// pixel towards `x1` when the error is above `-dx`, y one towards `y1`
/// when it is below `dy`, and the error changes by `-dy` and `+dx`
/// accordingly.
pub open spec fn line_step(s: (int, int, int), x0: int, y0: int, x1: int, y1: int) -> (int, int, int) {
    let (x, y, err) = s;
    let dx = iabs(x1 - x0);
    let dy = iabs(y1 - y0);
    let sx: int = if x0 < x1 { 1 } else { -1 };
    let sy: int = if y0 < y1 { 1 } else { -1 };
    let xs = err > -dx;
    let ys = err < dy;
    (
        if xs { x + sx } else { x },
        if ys { y + sy } else { y },
        err - (if xs { dy } else { 0 }) + (if ys { dx } else { 0 }),
    )
}

/// Position and error after `k` steps of the walk from `(x0, y0)`.
pub open spec fn line_state(x0: int, y0: int, x1: int, y1: int, k: nat) -> (int, int, int)
    decreases k,
{
    if k == 0 {
        (x0, y0, line_err0(x0, y0, x1, y1))
    } else {
        line_step(line_state(x0, y0, x1, y1, (k - 1) as nat), x0, y0, x1, y1)
    }
}

/// The pixels after the first `k` points of the walk have been set to `c`.
pub open spec fn line_image(p: Seq<u32>, w: int, h: int, x0: int, y0: int, x1: int, y1: int, c: u32, k: nat) -> Seq<u32>
    decreases k,
{
    if k == 0 {
        p
    } else {
        let (x, y, e) = line_state(x0, y0, x1, y1, (k - 1) as nat);
        rect_on(line_image(p, w, h, x0, y0, x1, y1, c, (k - 1) as nat), w, h, x, y, 1, 1, c)
    }
}

/// Number of points a line from `(x0, y0)` to `(x1, y1)` has: one more
/// than its longer extent.
pub open spec fn line_len(x0: int, y0: int, x1: int, y1: int) -> nat {
    let dx = iabs(x1 - x0);
    let dy = iabs(y1 - y0);
    (if dx > dy { dx } else { dy }) as nat + 1
}

/// What the walk keeps after `k` steps: how far it still is from the end
/// along each axis (`ex`, `ey`), how the error term depends on them, and
/// the window the error stays in (`0..dx` for a flat line, `-dy+1..=0` for a
/// steep one).
pub open spec fn line_inv(x0: int, y0: int, x1: int, y1: int, k: nat) -> bool {
    let dx = iabs(x1 - x0);
    let dy = iabs(y1 - y0);
    let (x, y, err) = line_state(x0, y0, x1, y1, k);
    let ex = if x0 < x1 { x1 - x } else { x - x1 };
    let ey = if y0 < y1 { y1 - y } else { y - y1 };
    &&& 0 <= ex <= dx
    &&& 0 <= ey <= dy
    &&& err == line_err0(x0, y0, x1, y1) + ex * dy - ey * dx
    &&& dx > dy ==> 0 <= err < dx && k == dx - ex
    &&& dx <= dy ==> (-dy < err <= 0 || dy == 0 && err == 0) && k == dy - ey
}

/// The walk keeps its invariant while it has not reached the end.
pub proof fn lemma_line_step(x0: int, y0: int, x1: int, y1: int, k: nat)
    requires
        line_inv(x0, y0, x1, y1, k),
        (line_state(x0, y0, x1, y1, k).0, line_state(x0, y0, x1, y1, k).1) != (x1, y1),
    ensures
        line_inv(x0, y0, x1, y1, k + 1),
{
    let dx = iabs(x1 - x0);
    let dy = iabs(y1 - y0);
    let (x, y, err) = line_state(x0, y0, x1, y1, k);
    let ex = if x0 < x1 { x1 - x } else { x - x1 };
    let ey = if y0 < y1 { y1 - y } else { y - y1 };
    let e0 = line_err0(x0, y0, x1, y1);
    assert(line_state(x0, y0, x1, y1, (k + 1) as nat) == line_step((x, y, err), x0, y0, x1, y1));
    assert((ex - 1) * dy == ex * dy - dy) by (nonlinear_arith);
    assert((ey - 1) * dx == ey * dx - dx) by (nonlinear_arith);
    if dx > dy {
        // a flat line moves across every step, and is at its last column
        // only on its last row
        if ex == 0 {
            assert(ey * dx < dx) by (nonlinear_arith)
                requires err == e0 + 0 * dy - ey * dx, 0 <= err, 0 <= e0 < dx, dx > 0;
            assert(ey == 0) by (nonlinear_arith)
                requires ey * dx < dx, 0 <= ey, dx > 0;
        }
        if ey == 0 {
            assert(ex * dy >= dy) by (nonlinear_arith)
                requires ex >= 1, dy >= 0;
        }
    } else {
        // a steep line moves down every step, and is at its last row only
        // in its last column
        if ey == 0 {
            assert(ex * dy < dy) by (nonlinear_arith)
                requires err == e0 + ex * dy - 0 * dx, err <= 0, -dy < e0 <= 0, dy > 0;
            assert(ex == 0) by (nonlinear_arith)
                requires ex * dy < dy, 0 <= ex, dy > 0;
        }
        if ex == 0 && ey >= 2 {
            assert((ey - 1) * dx >= dx) by (nonlinear_arith)
                requires ey >= 2, dx >= 0;
        }
    }
}

/// The walk starts in its invariant.
pub proof fn lemma_line_start(x0: int, y0: int, x1: int, y1: int)
    ensures
        line_inv(x0, y0, x1, y1, 0),
{
    let dx = iabs(x1 - x0);
    let dy = iabs(y1 - y0);
    assert(dx * dy - dy * dx == 0) by (nonlinear_arith);
}

/// The walk keeps its invariant for its first `line_len - 1` steps.
proof fn lemma_line_inv_upto(x0: int, y0: int, x1: int, y1: int, n: nat)
    requires
        n + 1 <= line_len(x0, y0, x1, y1),
    ensures
        line_inv(x0, y0, x1, y1, n),
    decreases n,
{
    if n == 0 {
        lemma_line_start(x0, y0, x1, y1);
    } else {
        lemma_line_inv_upto(x0, y0, x1, y1, (n - 1) as nat);
        lemma_line_step(x0, y0, x1, y1, (n - 1) as nat);
    }
}

/// A line starts at its first end point and its last point is the other
/// end point.
pub proof fn law_line_ends_at_target(x0: int, y0: int, x1: int, y1: int)
    ensures
        line_state(x0, y0, x1, y1, 0).0 == x0,
        line_state(x0, y0, x1, y1, 0).1 == y0,
        line_state(x0, y0, x1, y1, (line_len(x0, y0, x1, y1) - 1) as nat).0 == x1,
        line_state(x0, y0, x1, y1, (line_len(x0, y0, x1, y1) - 1) as nat).1 == y1,
{
    let last = (line_len(x0, y0, x1, y1) - 1) as nat;
    lemma_line_inv_upto(x0, y0, x1, y1, last);
    let dx = iabs(x1 - x0);
    let dy = iabs(y1 - y0);
    let (x, y, err) = line_state(x0, y0, x1, y1, last);
    let ex = if x0 < x1 { x1 - x } else { x - x1 };
    let ey = if y0 < y1 { y1 - y } else { y - y1 };
    let e0 = line_err0(x0, y0, x1, y1);
    if dx > dy {
        assert(ex == 0);
        assert(ey * dx < dx) by (nonlinear_arith)
            requires err == e0 + 0 * dy - ey * dx, 0 <= err, 0 <= e0 < dx, dx > 0;
        assert(ey == 0) by (nonlinear_arith)
            requires ey * dx < dx, 0 <= ey, dx > 0;
    } else if dy > 0 {
        assert(ey == 0);
        assert(ex * dy < dy) by (nonlinear_arith)
            requires err == e0 + ex * dy - 0 * dx, err <= 0, -dy < e0 <= 0, dy > 0;
        assert(ex == 0) by (nonlinear_arith)
            requires ex * dy < dy, 0 <= ex, dy > 0;
    }
}

/// Sets the pixels of the line from `(x0, y0)` to `(x1, y1)`, both ends
/// included, stepping one pixel at a time along the longer extent
/// (Bresenham's walk), clipped to the image.
pub fn fb_draw_line(fb: &mut [u32], w: u32, h: u32, x0: i32, y0: i32, x1: i32, y1: i32, color: u32)
    requires
        holds_image(old(fb)@.len() as int, w as int, h as int),
        iabs(x1 - x0) + iabs(y1 - y0) <= i32::MAX,
    ensures
        final(fb)@ == line_image(old(fb)@, w as int, h as int, x0 as int, y0 as int, x1 as int, y1 as int, color, line_len(x0 as int, y0 as int, x1 as int, y1 as int)),
{
    let ghost p = fb@;
    let mut x = x0;
    let mut y = y0;
    let dx: i32 = if x1 > x0 {
        x1 - x0
    } else {
        x0 - x1
    };
    let sx: i32 = if x0 < x1 {
        1
    } else {
        -1
    };
    let dy: i32 = if y1 > y0 {
        y1 - y0
    } else {
        y0 - y1
    };
    let sy: i32 = if y0 < y1 {
        1
    } else {
        -1
    };
    let mut err: i32 = (if dx > dy {
        dx
    } else {
        -dy
    }) / 2;
    let ghost mut k: nat = 0;
    proof {
        lemma_line_start(x0 as int, y0 as int, x1 as int, y1 as int);
    }
    loop
        invariant_except_break
            line_inv(x0 as int, y0 as int, x1 as int, y1 as int, k),
            (x as int, y as int, err as int) == line_state(x0 as int, y0 as int, x1 as int, y1 as int, k),
            fb@ == line_image(p, w as int, h as int, x0 as int, y0 as int, x1 as int, y1 as int, color, k),
        invariant
            holds_image(fb@.len() as int, w as int, h as int),
            fb@.len() == p.len(),
            dx == iabs(x1 - x0),
            dy == iabs(y1 - y0),
            dx + dy <= i32::MAX,
            sx == (if x0 < x1 { 1int } else { -1int }),
            sy == (if y0 < y1 { 1int } else { -1int }),
        ensures
            fb@ == line_image(p, w as int, h as int, x0 as int, y0 as int, x1 as int, y1 as int, color, line_len(x0 as int, y0 as int, x1 as int, y1 as int)),
        decreases
                (if x0 < x1 { x1 - x } else { x - x1 }) + (if y0 < y1 { y1 - y } else { y - y1 }),
    {
        fb_set_pixel(fb, w, h, x, y, color);
        if x == x1 && y == y1 {
            break;
        }
        proof {
            lemma_line_step(x0 as int, y0 as int, x1 as int, y1 as int, k);
        }
        let e2 = err;
        if e2 > -dx {
            err -= dy;
            x += sx;
        }
        if e2 < dy {
            err += dx;
            y += sy;
        }
        proof {
            k = k + 1;
        }
    }
}

} // verus!
