use vstd::prelude::*;
use crate::app_launcher::{abs_cell, cell_hit, cell_rect, launcher_step, LauncherView};
use crate::canvas::{glyph_of, paint_char_scaled, text_layers, Canvas};
use crate::color::{alpha_of, blend_channel, blend_packed, blue_of, green_of, lemma_blend_channel_between,
    lemma_pack_unpack, pack_argb, red_of};
use crate::desktop::{big_clock_bytes, desktop_input, DesktopView};
use crate::platform::MouseEvent;
use crate::digits::{clock_bytes, date_bytes, four_digits, decimal, lemma_decimal_len, two_digits};
use crate::metro_start::{grid_origin_of, metro_step, tile_box, tile_hit, MetroView};
use crate::raster::{in_round_rect, in_stroke, lemma_span_edges, round_radius, lemma_apply_identity, paint_glyph, apply, gradient_color, holds_image, idx, in_bounds, lemma_decode, paint_rect};
use crate::font::FONT_W;
use crate::rect::{Rect, in_span, signed};
use crate::tile::MediaTileView;
use crate::scroller::{drag_offset, first_hit, total_width_of, pitch, scroller_step, tile_x, ScrollerView};
use crate::toggle::{slider_pick, slider_step, toggle_step, SliderPick};
use crate::taskbar::{start_box, taskbar_step, TaskBarView};
use crate::widget::{abs_rect, press_step, Event, EventResult};
use crate::window::{as_i32, close_box_of, drag_moves, window_answer, window_forwards, window_next, WindowView};

verus! {

// ---------------------------------------------------------------- colours

/// A blend is always opaque.
pub proof fn law_blend_is_opaque(fg: u32, bg: u32, alpha: u8)
    ensures
        alpha_of(blend_packed(fg, bg, alpha)) == 0xFF,
{
    lemma_pack_unpack(
        0xFF,
        blend_channel(red_of(fg), red_of(bg), alpha),
        blend_channel(green_of(fg), green_of(bg), alpha),
        blend_channel(blue_of(fg), blue_of(bg), alpha),
    );
}

/// Blending with full weight gives the foreground's channels, with no
/// weight the background's.
pub proof fn law_blend_extremes(fg: u32, bg: u32)
    ensures
        blend_packed(fg, bg, 255) == pack_argb(0xFF, red_of(fg), green_of(fg), blue_of(fg)),
        blend_packed(fg, bg, 0) == pack_argb(0xFF, red_of(bg), green_of(bg), blue_of(bg)),
{
    lemma_blend_channel_between(red_of(fg), red_of(bg), 255);
    lemma_blend_channel_between(green_of(fg), green_of(bg), 255);
    lemma_blend_channel_between(blue_of(fg), blue_of(bg), 255);
    lemma_blend_channel_between(red_of(fg), red_of(bg), 0);
    lemma_blend_channel_between(green_of(fg), green_of(bg), 0);
    lemma_blend_channel_between(blue_of(fg), blue_of(bg), 0);
}

/// Blending a colour with itself keeps its channels, whatever the weight.
pub proof fn law_blend_same(c: u32, alpha: u8)
    ensures
        blend_packed(c, c, alpha) == pack_argb(0xFF, red_of(c), green_of(c), blue_of(c)),
{
    lemma_blend_channel_between(red_of(c), red_of(c), alpha);
    lemma_blend_channel_between(green_of(c), green_of(c), alpha);
    lemma_blend_channel_between(blue_of(c), blue_of(c), alpha);
}

/// The first row of a vertical gradient has the top colour's channels.
pub proof fn law_gradient_starts_at_top(top: u32, bot: u32, gh: int)
    requires
        gh > 0,
    ensures
        gradient_color(top, bot, 0, gh) == pack_argb(0xFF, red_of(top), green_of(top), blue_of(top)),
{
    assert((0int * 255) / gh == 0);
    lemma_blend_channel_between(red_of(bot), red_of(top), 0);
    lemma_blend_channel_between(green_of(bot), green_of(top), 0);
    lemma_blend_channel_between(blue_of(bot), blue_of(top), 0);
}

/// Every row of a vertical gradient lies between its two colours: each
/// channel of a row's colour is between that channel of the top colour
/// and of the bottom colour.
pub proof fn law_gradient_between(top: u32, bot: u32, row: int, gh: int)
    requires
        0 <= row < gh,
    ensures
        ({
            let c = gradient_color(top, bot, row, gh);
            let between = |a: u8, b: u8, x: u8| (a <= x <= b) || (b <= x <= a);
            &&& between(red_of(top), red_of(bot), red_of(c))
            &&& between(green_of(top), green_of(bot), green_of(c))
            &&& between(blue_of(top), blue_of(bot), blue_of(c))
        }),
{
    let alpha = ((row * 255) / gh) as u8;
    assert(0 <= row * 255 / gh <= 255) by (nonlinear_arith)
        requires 0 <= row < gh;
    lemma_blend_channel_between(red_of(bot), red_of(top), alpha);
    lemma_blend_channel_between(green_of(bot), green_of(top), alpha);
    lemma_blend_channel_between(blue_of(bot), blue_of(top), alpha);
    lemma_pack_unpack(
        0xFF,
        blend_channel(red_of(bot), red_of(top), alpha),
        blend_channel(green_of(bot), green_of(top), alpha),
        blend_channel(blue_of(bot), blue_of(top), alpha),
    );
}

// ------------------------------------------------------------- rectangles

/// A rectangle with no width or no height holds no point.
pub proof fn law_empty_rect_holds_nothing(r: Rect, x: int, y: int)
    requires
        r.w == 0 || r.h == 0,
    ensures
        !r.spec_contains(x, y),
{
}

// ---------------------------------------------------------------- drawing

/// Reading a pixel of the image after a drawing operation gives what the
/// operation makes of the pixel that was there.
pub proof fn law_read_after_draw(s: Seq<u32>, w: int, h: int, f: spec_fn(int, int, u32) -> u32, px: int, py: int)
    requires
        holds_image(s.len() as int, w, h),
        in_bounds(px, py, w, h),
    ensures
        apply(s, w, h, f)[idx(px, py, w)] == f(px, py, s[idx(px, py, w)]),
{
    lemma_decode(px, py, w);
    crate::raster::lemma_idx_bound(px, py, w, h);
}

/// Drawing leaves the buffer's length and every word past the image alone.
pub proof fn law_draw_keeps_tail(s: Seq<u32>, w: int, h: int, f: spec_fn(int, int, u32) -> u32, i: int)
    requires
        0 <= w * h <= i < s.len(),
    ensures
        apply(s, w, h, f).len() == s.len(),
        apply(s, w, h, f)[i] == s[i],
{
}

/// After a rectangle is filled, a pixel of the canvas inside the rectangle
/// reads back as the fill colour and any other pixel as it was.
pub proof fn law_fill_rect_read(c: Canvas, x: int, y: int, rw: u32, rh: u32, color: u32, px: int, py: int)
    requires
        c.wf(),
        in_bounds(px, py, c.width as int, c.height as int),
    ensures
        c.drawn(paint_rect(x, y, signed(rw), signed(rh), color))[idx(px, py, c.width as int)] == if in_span(
            px,
            x,
            signed(rw),
        ) && in_span(py, y, signed(rh)) {
            color
        } else {
            c@[idx(px, py, c.width as int)]
        },
{
    law_read_after_draw(c@, c.width as int, c.height as int, paint_rect(x, y, signed(rw), signed(rh), color), px, py);
}

/// After a pixel is set, reading it back gives the colour it was set to.
pub proof fn law_set_pixel_read(c: Canvas, x: int, y: int, color: u32)
    requires
        c.wf(),
        in_bounds(x, y, c.width as int, c.height as int),
    ensures
        c.drawn(paint_rect(x, y, 1, 1, color))[idx(x, y, c.width as int)] == color,
{
    law_read_after_draw(c@, c.width as int, c.height as int, paint_rect(x, y, 1, 1, color), x, y);
}

// ------------------------------------------------------------------ text

/// The digits of a number read back as the number.
pub open spec fn digits_value(s: Seq<u8>) -> int
    decreases s.len(),
{
    if s.len() == 0 {
        0
    } else {
        digits_value(s.drop_last()) * 10 + (s.last() - 48)
    }
}

/// Decimal formatting round-trips: the digits read back as the number, and
/// every one of them is an ASCII digit.
pub proof fn law_decimal_round_trip(n: nat)
    ensures
        digits_value(decimal(n)) == n,
        forall|i: int| 0 <= i < decimal(n).len() ==> 48 <= #[trigger] decimal(n)[i] <= 57,
    decreases n,
{
    if n >= 10 {
        law_decimal_round_trip(n / 10);
        assert(decimal(n).drop_last() =~= decimal(n / 10));
        assert(decimal(n).last() == (48 + n % 10) as u8);
        assert(digits_value(decimal(n)) == digits_value(decimal(n / 10)) * 10 + (n % 10));
        assert forall|i: int| 0 <= i < decimal(n).len() implies 48 <= #[trigger] decimal(n)[i] <= 57 by {
            if i < decimal(n).len() - 1 {
                assert(decimal(n)[i] == decimal(n / 10)[i]);
            }
        }
    } else {
        assert(decimal(n).drop_last() =~= Seq::<u8>::empty());
        assert(digits_value(decimal(n)) == digits_value(Seq::<u8>::empty()) * 10 + (decimal(n).last() - 48));
    }
}

/// A number below 100 is written with exactly two digits.
pub proof fn law_two_digits_len(n: nat)
    requires
        n < 100,
    ensures
        two_digits(n).len() == 2,
{
    lemma_decimal_len(n);
}

/// A clock time with hours and minutes below 100 is five bytes, `hh:mm`,
/// the colon in the middle.
pub proof fn law_clock_text_shape(h: nat, m: nat)
    requires
        h < 100,
        m < 100,
    ensures
        clock_bytes(seq![h, m]).len() == 5,
        clock_bytes(seq![h, m])[2] == 58,
{
    law_two_digits_len(h);
    law_two_digits_len(m);
    let parts = seq![h, m];
    assert(parts.drop_last() =~= seq![h]);
    assert(clock_bytes(seq![h]) == two_digits(h));
}

// --------------------------------------------------------------- widgets

/// Pressing a button and releasing it over the button is a click: the
/// release is handled and leaves the button unpressed.
pub proof fn law_press_then_release_clicks(rect: Rect, hovered: bool, pressed: bool, x: i32, y: i32, b1: u8, b2: u8)
    requires
        rect.spec_contains(x as int, y as int),
    ensures
        ({
            let (r1, h1, p1) = press_step(rect, hovered, pressed, Event::MouseDown { x, y, button: b1 });
            let (r2, h2, p2) = press_step(rect, h1, p1, Event::MouseUp { x, y, button: b2 });
            r1 == EventResult::Redraw && p1 && r2 == EventResult::Handled && !p2
        }),
{
}

/// A release always leaves a button unpressed, and is a click only when
/// the button was pressed.
pub proof fn law_release_unpresses(rect: Rect, hovered: bool, pressed: bool, x: i32, y: i32, b: u8)
    ensures
        !press_step(rect, hovered, pressed, Event::MouseUp { x, y, button: b }).2,
        press_step(rect, hovered, pressed, Event::MouseUp { x, y, button: b }).0 == EventResult::Handled ==> pressed,
{
}

/// After a move, a button is hovered exactly when the pointer is over it.
pub proof fn law_hover_follows_pointer(rect: Rect, hovered: bool, pressed: bool, x: i32, y: i32)
    ensures
        press_step(rect, hovered, pressed, Event::MouseMove { x, y }).1 == rect.spec_contains(x as int, y as int),
{
}

/// Two clicks on the start button show and hide the launcher again.
pub proof fn law_start_button_toggles(v: TaskBarView, parent: Rect, x: i32, y: i32, b1: u8, b2: u8)
    requires
        start_box(abs_rect(parent, v.rect)).spec_contains(x as int, y as int),
    ensures
        ({
            let (r1, v1) = taskbar_step(v, Event::MouseUp { x, y, button: b1 }, parent);
            let (r2, v2) = taskbar_step(v1, Event::MouseUp { x, y, button: b2 }, parent);
            r1 == EventResult::Handled && r2 == EventResult::Handled && v1.show_launcher == !v.show_launcher && v2
                == v
        }),
{
}

/// A closed launcher ignores every event and stays as it is.
pub proof fn law_closed_launcher_ignores(v: LauncherView, ev: Event, parent: Rect)
    requires
        !v.open,
    ensures
        launcher_step(v, ev, parent) == (EventResult::Ignored, v),
{
}

/// A closed start screen ignores every event and stays as it is.
pub proof fn law_closed_start_ignores(v: MetroView, ev: Event)
    requires
        !v.open,
    ensures
        metro_step(v, ev) == (EventResult::Ignored, v),
{
}

/// Dragging a window never takes it outside 2..=1000 across and 36..=800
/// down.
pub proof fn law_window_drag_bounds(v: WindowView, x: i32, y: i32)
    requires
        v.dragging,
        drag_moves(v, x, y),
    ensures
        2 <= window_next(v, Event::MouseMove { x, y }).rect.x <= 1000,
        36 <= window_next(v, Event::MouseMove { x, y }).rect.y <= 800,
{
}

/// A press on the close button is handled by the window itself and changes
/// nothing.
pub proof fn law_window_close_click(v: WindowView, x: i32, y: i32, b: u8)
    requires
        close_box_of(v.rect).spec_contains(x as int, y as int),
    ensures
        !window_forwards(v, Event::MouseDown { x, y, button: b }),
        window_answer(v, Event::MouseDown { x, y, button: b }) == EventResult::Handled,
        window_next(v, Event::MouseDown { x, y, button: b }) == v,
{
}

/// Dragging the tile strip never scrolls it past its start: the offset
/// stays at or below 0.
pub proof fn law_scroll_offset_never_positive(v: ScrollerView, x: i32, y: i32)
    requires
        v.dragging,
    ensures
        scroller_step(v, Event::MouseMove { x, y }).1.scroll_offset <= 0,
        scroller_step(v, Event::MouseMove { x, y }).0 == EventResult::Redraw,
{
}

/// The slider's knob never leaves its track: wherever the pointer is, the
/// offset it is put at lies between 0 and the track's length.
pub proof fn law_slider_knob_on_track(r: Rect, x: i32)
    ensures
        slider_pick(r, x) matches SliderPick::At { offset, track } ==> 0 <= offset <= track,
{
}

/// Two releases over a toggle switch bring it back to where it was.
pub proof fn law_toggle_twice_restores(rect: Rect, hovered: bool, active: bool, parent: Rect, x: i32, y: i32, b1: u8, b2: u8)
    requires
        abs_rect(parent, rect).spec_contains(x as int, y as int),
    ensures
        ({
            let (_, h1, a1) = toggle_step(rect, hovered, active, Event::MouseUp { x, y, button: b1 }, parent);
            let (_, h2, a2) = toggle_step(rect, h1, a1, Event::MouseUp { x, y, button: b2 }, parent);
            a1 != active && a2 == active && h2 == hovered
        }),
{
}

/// Releasing the pointer always ends a drag of the slider, and a slider
/// that is not being dragged ignores a release.
pub proof fn law_release_ends_drag(rect: Rect, hovered: bool, dragging: bool, parent: Rect, x: i32, y: i32, b: u8)
    ensures
        !slider_step(rect, hovered, dragging, Event::MouseUp { x, y, button: b }, parent).2,
        !dragging ==> slider_step(rect, hovered, dragging, Event::MouseUp { x, y, button: b }, parent).0
            == EventResult::Ignored,
{
}

// ------------------------------------------------------------------- text

/// Drawing the first `n` characters of a string depends on those
/// characters only.
proof fn lemma_text_prefix(pix: Seq<u32>, w: int, h: int, font: Seq<u8>, a: Seq<char>, b: Seq<char>, x: int, y: int, scale: int, color: u32, n: int)
    requires
        n <= a.len(),
        n <= b.len(),
        forall|k: int| 0 <= k < n ==> a[k] == b[k],
    ensures
        text_layers(pix, w, h, font, a, x, y, scale, color, n) == text_layers(pix, w, h, font, b, x, y, scale, color, n),
    decreases n,
{
    if n > 0 {
        lemma_text_prefix(pix, w, h, font, a, b, x, y, scale, color, n - 1);
    }
}

/// Drawing a string is drawing its first part, then its second part from
/// where the first one ends (one glyph cell plus one pixel, times the
/// scale, per character); drawing the empty string changes nothing.
pub proof fn law_text_concat(pix: Seq<u32>, w: int, h: int, font: Seq<u8>, s1: Seq<char>, s2: Seq<char>, x: int, y: int, scale: int, color: u32)
    ensures
        text_layers(pix, w, h, font, s1 + s2, x, y, scale, color, (s1.len() + s2.len()) as int) == text_layers(
            text_layers(pix, w, h, font, s1, x, y, scale, color, s1.len() as int),
            w,
            h,
            font,
            s2,
            x + s1.len() * ((FONT_W + 1) * scale),
            y,
            scale,
            color,
            s2.len() as int,
        ),
        text_layers(pix, w, h, font, Seq::<char>::empty(), x, y, scale, color, 0) == pix,
{
    lemma_text_concat_upto(pix, w, h, font, s1, s2, x, y, scale, color, s2.len() as int);
}

proof fn lemma_text_concat_upto(pix: Seq<u32>, w: int, h: int, font: Seq<u8>, s1: Seq<char>, s2: Seq<char>, x: int, y: int, scale: int, color: u32, k: int)
    requires
        0 <= k <= s2.len(),
    ensures
        text_layers(pix, w, h, font, s1 + s2, x, y, scale, color, s1.len() + k) == text_layers(
            text_layers(pix, w, h, font, s1, x, y, scale, color, s1.len() as int),
            w,
            h,
            font,
            s2,
            x + s1.len() * ((FONT_W + 1) * scale),
            y,
            scale,
            color,
            k,
        ),
    decreases k,
{
    let n1 = s1.len() as int;
    if k == 0 {
        lemma_text_prefix(pix, w, h, font, s1 + s2, s1, x, y, scale, color, n1);
    } else {
        lemma_text_concat_upto(pix, w, h, font, s1, s2, x, y, scale, color, k - 1);
        assert((s1 + s2)[n1 + k - 1] == s2[k - 1]);
        assert(x + (n1 + k - 1) * ((FONT_W + 1) * scale) == x + n1 * ((FONT_W + 1) * scale) + (k - 1) * ((FONT_W + 1)
            * scale)) by (nonlinear_arith);
    }
}

/// Text at scale 0 draws nothing.
pub proof fn law_text_scale_zero(pix: Seq<u32>, w: int, h: int, font: Seq<u8>, s: Seq<char>, x: int, y: int, color: u32, n: int)
    requires
        0 <= h,
    ensures
        text_layers(pix, w, h, font, s, x, y, 0, color, n) == pix,
    decreases n,
{
    if n > 0 {
        law_text_scale_zero(pix, w, h, font, s, x, y, color, n - 1);
        let f = paint_char_scaled(x + (n - 1) * ((FONT_W + 1) * 0), y, glyph_of(font, s[n - 1]), color, 0);
        lemma_apply_identity(pix, w, h, f);
    }
}

/// A character at scale 0 draws nothing.
pub proof fn law_char_scale_zero(pix: Seq<u32>, w: int, h: int, x: int, y: int, rows: Seq<u8>, color: u32)
    requires
        0 <= h,
    ensures
        apply(pix, w, h, paint_char_scaled(x, y, rows, color, 0)) == pix,
{
    lemma_apply_identity(pix, w, h, paint_char_scaled(x, y, rows, color, 0));
}

/// A character at scale 1 is the character drawn plainly: its glyph's bits.
pub proof fn law_char_scale_one(x: int, y: int, rows: Seq<u8>, color: u32)
    ensures
        paint_char_scaled(x, y, rows, color, 1) == paint_glyph(x, y, rows, color),
{
}


// ------------------------------------------------------------ the clock

/// The large clock reads the time in the order hours, minutes, seconds:
/// the hours in decimal, a colon, the minutes in two digits, a colon and
/// the seconds in two digits. From ten o'clock on it is exactly the
/// `hh:mm:ss` clock text; before, that text without its leading zero.
pub proof fn law_big_clock_reads_time(h: u32, m: u32, s: u32)
    requires
        h < 100,
        m < 100,
        s < 100,
    ensures
        big_clock_bytes(h, m, s) == decimal(h as nat) + seq![58u8] + two_digits(m as nat) + seq![58u8] + two_digits(s as nat),
        h >= 10 ==> big_clock_bytes(h, m, s) == clock_bytes(seq![h as nat, m as nat, s as nat]),
        h < 10 ==> seq![48u8] + big_clock_bytes(h, m, s) == clock_bytes(seq![h as nat, m as nat, s as nat]),
{
    reveal_with_fuel(decimal, 3);
    let parts = seq![h as nat, m as nat, s as nat];
    assert(parts.drop_last() =~= seq![h as nat, m as nat]);
    assert(parts.drop_last().drop_last() =~= seq![h as nat]);
    assert(clock_bytes(seq![h as nat]) == two_digits(h as nat));
    assert(clock_bytes(seq![h as nat, m as nat]) == clock_bytes(seq![h as nat]).push(58u8).add(two_digits(m as nat)));
    assert(clock_bytes(parts) == clock_bytes(seq![h as nat, m as nat]).push(58u8).add(two_digits(s as nat)));
    if h >= 10 {
        assert(decimal(h as nat) =~= seq![(48 + (h / 10) % 256) as u8, (48 + h % 10) as u8]);
    } else {
        assert(decimal(h as nat) =~= seq![(48 + h % 10) as u8]);
    }
    if m >= 10 {
        assert(two_digits(m as nat) =~= seq![(48 + (m / 10) % 256) as u8, (48 + m % 10) as u8]);
    } else {
        assert(two_digits(m as nat) =~= seq![(48 + (m / 10) % 256) as u8, (48 + m % 10) as u8]);
    }
    if s >= 10 {
        assert(two_digits(s as nat) =~= seq![(48 + (s / 10) % 256) as u8, (48 + s % 10) as u8]);
    } else {
        assert(two_digits(s as nat) =~= seq![(48 + (s / 10) % 256) as u8, (48 + s % 10) as u8]);
    }
    assert(big_clock_bytes(h, m, s) =~= decimal(h as nat) + seq![58u8] + two_digits(m as nat) + seq![58u8] + two_digits(s as nat));
    if h >= 10 {
        assert(two_digits(h as nat) == decimal(h as nat));
        assert(big_clock_bytes(h, m, s) =~= clock_bytes(parts));
    } else {
        assert(two_digits(h as nat) =~= seq![48u8] + decimal(h as nat));
        assert(seq![48u8] + big_clock_bytes(h, m, s) =~= clock_bytes(parts));
    }
}


// ------------------------------------------------------ picking a tile

/// The tile search from `from` on finds tile `i` when it holds the point
/// and no tile between `from` and `i` does.
proof fn lemma_tile_hit_is(n: int, gx: i32, gy: i32, x: int, y: int, from: int, i: int)
    requires
        0 <= from <= i < n,
        tile_box(i, gx, gy).spec_contains(x, y),
        forall|j: int| from <= j < i ==> !#[trigger] tile_box(j, gx, gy).spec_contains(x, y),
    ensures
        tile_hit(n, gx, gy, x, y, from) == i,
    decreases i - from,
{
    if from < i {
        lemma_tile_hit_is(n, gx, gy, x, y, from + 1, i);
    }
}

/// The tile search from `from` on gives -1 when no tile from there on
/// holds the point.
proof fn lemma_tile_hit_none(n: int, gx: i32, gy: i32, x: int, y: int, from: int)
    requires
        0 <= from,
        forall|j: int| from <= j < n ==> !#[trigger] tile_box(j, gx, gy).spec_contains(x, y),
    ensures
        tile_hit(n, gx, gy, x, y, from) == -1,
    decreases n - from,
{
    if from < n {
        lemma_tile_hit_none(n, gx, gy, x, y, from + 1);
    }
}

/// A release over a tile of the open start screen (the first tile, as the
/// grid is drawn, that holds the point) is handled: the screen closes and
/// that tile's application is launched. A move there hovers that tile.
pub proof fn law_start_release_on_tile_launches(v: MetroView, x: i32, y: i32, button: u8, i: int)
    requires
        v.open,
        0 <= i < v.apps.len(),
        tile_box(i, grid_origin_of(v.apps.len() as int, v.screen_w, v.screen_h).0,
            grid_origin_of(v.apps.len() as int, v.screen_w, v.screen_h).1).spec_contains(x as int, y as int),
        forall|j: int| 0 <= j < i ==> !#[trigger] tile_box(j, grid_origin_of(v.apps.len() as int, v.screen_w, v.screen_h).0,
            grid_origin_of(v.apps.len() as int, v.screen_w, v.screen_h).1).spec_contains(x as int, y as int),
    ensures
        metro_step(v, Event::MouseUp { x, y, button }) == (EventResult::Handled, MetroView { open: false, launched: Some(i as usize), ..v }),
        metro_step(v, Event::MouseMove { x, y }).1.hover_idx == i as i32,
{
    let n = v.apps.len() as int;
    let g = grid_origin_of(n, v.screen_w, v.screen_h);
    lemma_tile_hit_is(n, g.0, g.1, x as int, y as int, 0, i);
    assert(metro_step(v, Event::MouseUp { x, y, button }) == (EventResult::Handled, MetroView { open: false, launched: Some(i as usize), ..v }));
}

/// A release over no tile of the start screen launches nothing.
pub proof fn law_start_release_off_tiles_launches_nothing(v: MetroView, x: i32, y: i32, button: u8)
    requires
        forall|j: int| 0 <= j < v.apps.len() ==> !#[trigger] tile_box(j, grid_origin_of(v.apps.len() as int, v.screen_w, v.screen_h).0,
            grid_origin_of(v.apps.len() as int, v.screen_w, v.screen_h).1).spec_contains(x as int, y as int),
    ensures
        metro_step(v, Event::MouseUp { x, y, button }).0 != EventResult::Handled,
        metro_step(v, Event::MouseUp { x, y, button }).1.launched == v.launched,
{
    let g = grid_origin_of(v.apps.len() as int, v.screen_w, v.screen_h);
    lemma_tile_hit_none(v.apps.len() as int, g.0, g.1, x as int, y as int, 0);
}


// ------------------------------------------------- picking a launcher cell

/// Moving by `b`, then by `c`, then back by `b` moves by `c`, in wrapping
/// `i32` arithmetic.
proof fn lemma_wrapping_shift_back(a: i32, b: i32, c: i32)
    ensures
        a.wrapping_add(b).wrapping_add(c).wrapping_sub(b) == a.wrapping_add(c),
{
    let s1 = a.wrapping_add(b);
    let s2 = s1.wrapping_add(c);
    let s3 = s2.wrapping_sub(b);
    let t = a.wrapping_add(c);
    assert(s1 == a + b || s1 == a + b - 0x1_0000_0000 || s1 == a + b + 0x1_0000_0000);
    assert(s2 == s1 + c || s2 == s1 + c - 0x1_0000_0000 || s2 == s1 + c + 0x1_0000_0000);
    assert(s3 == s2 - b || s3 == s2 - b - 0x1_0000_0000 || s3 == s2 - b + 0x1_0000_0000);
    assert(t == a + c || t == a + c - 0x1_0000_0000 || t == a + c + 0x1_0000_0000);
}


/// A cell in the parent's coordinates is the cell as drawn, moved by the
/// parent's origin.
proof fn lemma_abs_cell_is_drawn_cell(parent: Rect, r: Rect, j: int)
    ensures
        abs_cell(parent, r, j) == abs_rect(parent, cell_rect(r, j)),
{
    let c = cell_rect(r, j);
    lemma_wrapping_shift_back(parent.x, r.x, c.x);
    lemma_wrapping_shift_back(parent.y, r.y, c.y);
}

/// The cell search from `from` on finds cell `i` when it holds the point
/// and no cell between `from` and `i` does.
proof fn lemma_cell_hit_is(parent: Rect, r: Rect, n: int, x: int, y: int, from: int, i: int)
    requires
        0 <= from <= i < n,
        abs_rect(parent, cell_rect(r, i)).spec_contains(x, y),
        forall|j: int| from <= j < i ==> !#[trigger] abs_rect(parent, cell_rect(r, j)).spec_contains(x, y),
    ensures
        cell_hit(parent, r, n, x, y, from) == i,
    decreases i - from,
{
    lemma_abs_cell_is_drawn_cell(parent, r, from);
    if from < i {
        lemma_cell_hit_is(parent, r, n, x, y, from + 1, i);
    }
}

/// The cell search from `from` on gives -1 when no cell from there on
/// holds the point.
proof fn lemma_cell_hit_none(parent: Rect, r: Rect, n: int, x: int, y: int, from: int)
    requires
        0 <= from,
        forall|j: int| from <= j < n ==> !#[trigger] abs_rect(parent, cell_rect(r, j)).spec_contains(x, y),
    ensures
        cell_hit(parent, r, n, x, y, from) == -1,
    decreases n - from,
{
    if from < n {
        lemma_abs_cell_is_drawn_cell(parent, r, from);
        lemma_cell_hit_none(parent, r, n, x, y, from + 1);
    }
}

/// A release over a cell of the open launcher, as the cell is drawn and
/// moved by the parent's origin (the first such cell), is handled,
/// wherever the launcher stands: the launcher closes and that cell's
/// application is launched. A move there hovers that cell.
pub proof fn law_launcher_release_on_cell_launches(v: LauncherView, parent: Rect, x: i32, y: i32, button: u8, i: int)
    requires
        v.open,
        0 <= i < v.apps.len(),
        abs_rect(parent, cell_rect(v.rect, i)).spec_contains(x as int, y as int),
        forall|j: int| 0 <= j < i ==> !#[trigger] abs_rect(parent, cell_rect(v.rect, j)).spec_contains(x as int, y as int),
    ensures
        launcher_step(v, Event::MouseUp { x, y, button }, parent) == (EventResult::Handled, LauncherView {
            open: false,
            launched: Some(i as usize),
            ..v
        }),
        launcher_step(v, Event::MouseMove { x, y }, parent).1.hover_idx == i as i32,
{
    lemma_cell_hit_is(parent, v.rect, v.apps.len() as int, x as int, y as int, 0, i);
}

/// A release over no cell of the launcher launches nothing.
pub proof fn law_launcher_release_off_cells_launches_nothing(v: LauncherView, parent: Rect, x: i32, y: i32, button: u8)
    requires
        forall|j: int| 0 <= j < v.apps.len() ==> !#[trigger] abs_rect(parent, cell_rect(v.rect, j)).spec_contains(x as int, y as int),
    ensures
        launcher_step(v, Event::MouseUp { x, y, button }, parent).0 != EventResult::Handled,
        launcher_step(v, Event::MouseUp { x, y, button }, parent).1.launched == v.launched,
{
    lemma_cell_hit_none(parent, v.rect, v.apps.len() as int, x as int, y as int, 0);
}


// ------------------------------------------------------ dragging the strip

/// A product that is an `i32` value is what wrapping `i32` multiplication
/// gives.
proof fn lemma_wrapping_mul_exact(a: i32, b: i32)
    requires
        i32::MIN <= a * b <= i32::MAX,
    ensures
        a.wrapping_mul(b) == a * b,
{
    let p = a * b;
    if p >= 0 {
        assert(p % 0x1_0000_0000 == p);
    } else {
        assert(p % 0x1_0000_0000 == p + 0x1_0000_0000);
    }
}

/// Dragging the strip lays every tile out again at the new scroll offset:
/// tile `i` stands 40 pixels in from the scroller's left edge, moved by
/// the offset, and `i` pitches (tile width plus gap) further right. So a
/// drag that changes the offset by `d` moves every tile by `d`.
pub proof fn law_drag_moves_tiles(v: ScrollerView, x: i32, y: i32, i: int)
    requires
        v.dragging,
        0 <= i < v.tiles.len(),
        i <= i32::MAX,
        i32::MIN <= signed(v.tile_w) + v.gap <= i32::MAX,
        i32::MIN <= i * (signed(v.tile_w) + v.gap) <= i32::MAX,
        i32::MIN <= v.rect.x + 40 <= i32::MAX,
        i32::MIN <= v.rect.x + 40 + drag_offset(v, x) <= i32::MAX,
        i32::MIN <= v.rect.x + 40 + drag_offset(v, x) + i * (signed(v.tile_w) + v.gap) <= i32::MAX,
    ensures
        ({
            let after = scroller_step(v, Event::MouseMove { x, y }).1;
            &&& after.scroll_offset == drag_offset(v, x)
            &&& after.tiles.len() == v.tiles.len()
            &&& after.tiles[i].rect.x == v.rect.x + 40 + after.scroll_offset + i * (signed(v.tile_w) + v.gap)
        }),
{
    let p = signed(v.tile_w) + v.gap;
    assert(pitch(v) == p);
    assert((i as i32) == i);
    lemma_wrapping_mul_exact(i as i32, pitch(v));
    let v2 = ScrollerView { scroll_offset: drag_offset(v, x), ..v };
    assert(pitch(v2) == pitch(v));
    let start = v.rect.x.wrapping_add(40);
    assert(start == v.rect.x + 40);
    let moved = start.wrapping_add(drag_offset(v, x));
    assert(moved == v.rect.x + 40 + drag_offset(v, x));
    assert(tile_x(v2, i) == moved.wrapping_add((i as i32).wrapping_mul(pitch(v))));
}


// --------------------------------------------------- rounded outlines

/// The outline of a rounded rectangle follows the rounded shape: every
/// pixel it paints is a pixel of the filled rounded rectangle (so no corner
/// pixel outside the radius is painted) and lies on that shape's edge, with
/// the pixel to its left or the one to its right outside the shape.
pub proof fn law_stroke_on_fill_edge(px: int, py: int, x: int, y: int, w: u32, h: u32, radius: u32)
    requires
        in_stroke(px, py, x, y, w, h, radius),
    ensures
        in_round_rect(px, py, x, y, w, h, radius),
        !in_round_rect(px - 1, py, x, y, w, h, radius) || !in_round_rect(px + 1, py, x, y, w, h, radius),
{
    let r = round_radius(radius, w, h);
    let row = py - y;
    let (wi, hi) = (w as int, h as int);
    assert(2 * r <= wi && 2 * r <= hi);
    lemma_span_edges(row, hi, r, x, wi);
}


/// Clock text reads back its numbers: for numbers below 100 it is two
/// digits for each number, in order, joined by colons, so the digits at
/// `3k` and `3k + 1` are the tens and ones of number `k`.
pub proof fn law_clock_text_reads_back(parts: Seq<nat>)
    requires
        parts.len() >= 1,
        forall|k: int| 0 <= k < parts.len() ==> #[trigger] parts[k] < 100,
    ensures
        clock_bytes(parts).len() == 3 * parts.len() - 1,
        forall|k: int|
            0 <= k < parts.len() ==> clock_bytes(parts)[3 * k] == 48 + #[trigger] parts[k] / 10 && clock_bytes(parts)[3 * k + 1]
                == 48 + parts[k] % 10,
        forall|k: int| 0 <= k < parts.len() - 1 ==> #[trigger] clock_bytes(parts)[3 * k + 2] == 58,
    decreases parts.len(),
{
    reveal_with_fuel(decimal, 3);
    let last = parts.last();
    assert(parts[parts.len() - 1] < 100);
    assert(two_digits(last) =~= seq![(48 + last / 10) as u8, (48 + last % 10) as u8]);
    if parts.len() > 1 {
        let init = parts.drop_last();
        assert forall|k: int| 0 <= k < init.len() implies #[trigger] init[k] < 100 by {
            assert(init[k] == parts[k]);
        }
        law_clock_text_reads_back(init);
        let c = clock_bytes(parts);
        assert(c == clock_bytes(init).push(58u8).add(two_digits(last)));
        assert forall|k: int| 0 <= k < parts.len() implies c[3 * k] == 48 + #[trigger] parts[k] / 10 && c[3 * k + 1]
            == 48 + parts[k] % 10 by {
            if k < init.len() {
                assert(init[k] == parts[k]);
            }
        }
        assert forall|k: int| 0 <= k < parts.len() - 1 implies #[trigger] c[3 * k + 2] == 58 by {
            if k < init.len() - 1 {
                assert(c[3 * k + 2] == clock_bytes(init)[3 * k + 2]);
            }
        }
    } else {
        assert(clock_bytes(parts) == two_digits(parts[0]));
    }
}


/// The search for the tile under a point from `from` on finds tile `i`
/// when it holds the point and no tile between `from` and `i` does, and
/// -1 when no tile from there on holds it.
proof fn lemma_first_hit(tiles: Seq<MediaTileView>, x: int, y: int, from: int, i: int)
    requires
        0 <= from,
        from <= i <= tiles.len(),
        i < tiles.len() ==> tiles[i].rect.spec_contains(x, y),
        forall|j: int| from <= j < i ==> !(#[trigger] tiles[j]).rect.spec_contains(x, y),
    ensures
        first_hit(tiles, x, y, from) == if i < tiles.len() { i } else { -1 },
    decreases i - from,
{
    if from < i {
        lemma_first_hit(tiles, x, y, from + 1, i);
    }
}

/// A press inside the scroller on a tile (the first one under the pointer)
/// presses that tile and leaves the other tiles and the drag as they were.
pub proof fn law_press_on_tile_presses_it(v: ScrollerView, x: i32, y: i32, button: u8, i: int)
    requires
        v.rect.spec_contains(x as int, y as int),
        0 <= i < v.tiles.len(),
        v.tiles[i].rect.spec_contains(x as int, y as int),
        forall|j: int| 0 <= j < i ==> !(#[trigger] v.tiles[j]).rect.spec_contains(x as int, y as int),
    ensures
        ({
            let (res, after) = scroller_step(v, Event::MouseDown { x, y, button });
            &&& res == EventResult::Redraw
            &&& after.tiles.len() == v.tiles.len()
            &&& after.tiles[i].pressed
            &&& after.tiles[i].rect == v.tiles[i].rect
            &&& forall|j: int| 0 <= j < v.tiles.len() && j != i ==> after.tiles[j] == v.tiles[j]
            &&& after.dragging == v.dragging
            &&& after.scroll_offset == v.scroll_offset
        }),
{
    lemma_first_hit(v.tiles, x as int, y as int, 0, i);
}

/// A press inside the scroller between tiles starts a drag from the
/// pointer's column and the current scroll offset, the tiles unchanged.
pub proof fn law_press_between_tiles_starts_drag(v: ScrollerView, x: i32, y: i32, button: u8)
    requires
        v.rect.spec_contains(x as int, y as int),
        forall|j: int| 0 <= j < v.tiles.len() ==> !(#[trigger] v.tiles[j]).rect.spec_contains(x as int, y as int),
    ensures
        ({
            let (res, after) = scroller_step(v, Event::MouseDown { x, y, button });
            &&& res == EventResult::Redraw
            &&& after.dragging
            &&& after.drag_start_x == x
            &&& after.drag_start_offset == v.scroll_offset
            &&& after.tiles == v.tiles
        }),
{
    lemma_first_hit(v.tiles, x as int, y as int, 0, v.tiles.len() as int);
}


/// Pressing between tiles and moving the pointer drags the strip with it:
/// the scroll offset moves by the pointer's travel, kept between 0 (the
/// first tile at its place) and the hidden width of the strip.
pub proof fn law_drag_follows_pointer(v: ScrollerView, x: i32, y: i32, x2: i32, y2: i32, button: u8)
    requires
        v.rect.spec_contains(x as int, y as int),
        forall|j: int| 0 <= j < v.tiles.len() ==> !(#[trigger] v.tiles[j]).rect.spec_contains(x as int, y as int),
        i32::MIN <= x2 - x <= i32::MAX,
        i32::MIN <= v.scroll_offset + (x2 - x) <= i32::MAX,
        i32::MIN <= total_width_of(v) - signed(v.rect.w) <= i32::MAX,
    ensures
        ({
            let pressed = scroller_step(v, Event::MouseDown { x, y, button }).1;
            let moved = scroller_step(pressed, Event::MouseMove { x: x2, y: y2 }).1;
            let off = v.scroll_offset + (x2 - x);
            let hidden = total_width_of(v) - signed(v.rect.w);
            let lowest = if hidden > 0 { -hidden } else { 0 };
            moved.scroll_offset == if off > 0 { 0 } else if off < lowest { lowest } else { off }
        }),
{
    law_press_between_tiles_starts_drag(v, x, y, button);
    let pressed = scroller_step(v, Event::MouseDown { x, y, button }).1;
    assert(total_width_of(pressed) == total_width_of(v));
    assert(x2.wrapping_sub(x) == x2 - x);
    assert(v.scroll_offset.wrapping_add(x2.wrapping_sub(x)) == v.scroll_offset + (x2 - x));
    assert(as_i32(v.rect.w) == signed(v.rect.w));
    assert(total_width_of(v).wrapping_sub(as_i32(v.rect.w)) == total_width_of(v) - signed(v.rect.w));
}


/// A year below 10000 is written as its four decimal digits, thousands
/// first, zero-padded.
proof fn lemma_four_digits(n: nat)
    requires
        n < 10000,
    ensures
        four_digits(n) == seq![(48 + n / 1000) as u8, (48 + (n / 100) % 10) as u8, (48 + (n / 10) % 10) as u8, (48 + n % 10) as u8],
{
    reveal_with_fuel(decimal, 5);
    let d = decimal(n);
    if n < 10 {
        assert(d =~= seq![(48 + n) as u8]);
    } else if n < 100 {
        assert(decimal(n / 10) =~= seq![(48 + n / 10) as u8]);
        assert(d =~= seq![(48 + n / 10) as u8, (48 + n % 10) as u8]);
    } else if n < 1000 {
        assert(decimal(n / 100) =~= seq![(48 + n / 100) as u8]);
        assert(decimal(n / 10) =~= seq![(48 + n / 100) as u8, (48 + (n / 10) % 10) as u8]);
        assert(d =~= seq![(48 + n / 100) as u8, (48 + (n / 10) % 10) as u8, (48 + n % 10) as u8]);
    } else {
        assert(decimal(n / 1000) =~= seq![(48 + n / 1000) as u8]);
        assert(decimal(n / 100) =~= seq![(48 + n / 1000) as u8, (48 + (n / 100) % 10) as u8]);
        assert(decimal(n / 10) =~= seq![(48 + n / 1000) as u8, (48 + (n / 100) % 10) as u8, (48 + (n / 10) % 10) as u8]);
        assert(d =~= seq![(48 + n / 1000) as u8, (48 + (n / 100) % 10) as u8, (48 + (n / 10) % 10) as u8, (48 + n % 10) as u8]);
    }
    assert(four_digits(n) =~= seq![(48 + n / 1000) as u8, (48 + (n / 100) % 10) as u8, (48 + (n / 10) % 10) as u8, (48 + n % 10) as u8]);
}

/// The date reads year, month, day in that order: ten bytes, the year's
/// four digits, a dash, the month's two digits, a dash and the day's two.
pub proof fn law_date_reads_back(year: nat, month: nat, day: nat)
    requires
        year < 10000,
        month < 100,
        day < 100,
    ensures
        date_bytes(year, month, day) == seq![
            (48 + year / 1000) as u8, (48 + (year / 100) % 10) as u8, (48 + (year / 10) % 10) as u8, (48 + year % 10) as u8,
            45u8, (48 + month / 10) as u8, (48 + month % 10) as u8, 45u8, (48 + day / 10) as u8, (48 + day % 10) as u8,
        ],
{
    reveal_with_fuel(decimal, 3);
    lemma_four_digits(year);
    assert(two_digits(month) =~= seq![(48 + month / 10) as u8, (48 + month % 10) as u8]);
    assert(two_digits(day) =~= seq![(48 + day / 10) as u8, (48 + day % 10) as u8]);
    assert(date_bytes(year, month, day) =~= seq![
            (48 + year / 1000) as u8, (48 + (year / 100) % 10) as u8, (48 + (year / 10) % 10) as u8, (48 + year % 10) as u8,
            45u8, (48 + month / 10) as u8, (48 + month % 10) as u8, 45u8, (48 + day / 10) as u8, (48 + day % 10) as u8,
        ]);
}


// ------------------------------------------------------------ grid layout

/// The start screen's tiles run in reading order, five to a row: the next
/// tile in a row stands 154 pixels (a tile and a gap) to the right at the
/// same height, and the tile five further on stands 154 pixels below at
/// the same column; every tile is 140 pixels square.
pub proof fn law_start_tiles_reading_order(gx: i32, gy: i32, i: int)
    requires
        0 <= i,
        gx + 616 <= i32::MAX,
        (i / 5 + 1) * 154 <= i32::MAX,
        gy + (i / 5 + 1) * 154 <= i32::MAX,
    ensures
        tile_box(i, gx, gy).w == 140 && tile_box(i, gx, gy).h == 140,
        tile_box(i, gx, gy).x == gx + (i % 5) * 154,
        tile_box(i, gx, gy).y == gy + (i / 5) * 154,
        (i + 1) % 5 != 0 ==> tile_box(i + 1, gx, gy).x == tile_box(i, gx, gy).x + 154 && tile_box(i + 1, gx, gy).y
            == tile_box(i, gx, gy).y,
        tile_box(i + 5, gx, gy).x == tile_box(i, gx, gy).x,
        tile_box(i + 5, gx, gy).y == tile_box(i, gx, gy).y + 154,
{
    assert forall|k: int| k == i || k == i + 1 || k == i + 5 implies
        tile_box(k, gx, gy).x == gx + (k % 5) * 154 && tile_box(k, gx, gy).y == gy + (k / 5) * 154 by {
        let col = (k % 5) as i32;
        let row = (k / 5) as i32;
        assert(0 <= k / 5 <= i / 5 + 1);
        assert((k / 5) * 154 <= (i / 5 + 1) * 154) by (nonlinear_arith)
            requires 0 <= k / 5 <= i / 5 + 1;
        assert(0 <= (k / 5) * 154) by (nonlinear_arith)
            requires 0 <= k / 5;
        assert(k / 5 <= i32::MAX) by (nonlinear_arith)
            requires (k / 5) * 154 <= i32::MAX, 0 <= k / 5;
        assert(row == k / 5);
        assert(col == k % 5);
        lemma_wrapping_mul_exact(col, 154);
        lemma_wrapping_mul_exact(row, 154);
    }
    assert((i + 5) % 5 == i % 5 && (i + 5) / 5 == i / 5 + 1);
    if (i + 1) % 5 != 0 {
        assert((i + 1) % 5 == i % 5 + 1 && (i + 1) / 5 == i / 5);
    }
}

/// The start screen's grid of five 140-pixel tiles with 14-pixel gaps
/// (756 pixels) is centred across a screen at least that wide: the margins
/// left and right of it differ by at most one pixel.
pub proof fn law_start_grid_centred(n: int, sw: u32, sh: u32)
    requires
        756 <= sw <= i32::MAX,
    ensures
        ({
            let gx = grid_origin_of(n, sw, sh).0 as int;
            let right = sw - (gx + 756);
            0 <= gx && (right == gx || right == gx + 1)
        }),
{
}

/// The launcher's cells run in reading order, four to a row: the next cell
/// in a row stands 136 pixels (a cell and a gap) to the right at the same
/// height, the cell four further on 146 pixels below at the same column;
/// every cell is 120 x 130 pixels.
pub proof fn law_launcher_cells_reading_order(r: Rect, i: int)
    requires
        0 <= i,
        cell_rect(r, 0).x + 408 <= i32::MAX,
        (i / 4 + 1) * 146 <= i32::MAX,
        r.y + 60 + (i / 4 + 1) * 146 <= i32::MAX,
        i32::MIN <= r.y + 60,
    ensures
        cell_rect(r, i).w == 120 && cell_rect(r, i).h == 130,
        cell_rect(r, i).x == cell_rect(r, 0).x + (i % 4) * 136,
        cell_rect(r, i).y == r.y + 60 + (i / 4) * 146,
        (i + 1) % 4 != 0 ==> cell_rect(r, i + 1).x == cell_rect(r, i).x + 136 && cell_rect(r, i + 1).y == cell_rect(r, i).y,
        cell_rect(r, i + 4).x == cell_rect(r, i).x,
        cell_rect(r, i + 4).y == cell_rect(r, i).y + 146,
{
    lemma_wrapping_mul_exact(0, 136);
    lemma_wrapping_mul_exact(0, 146);
    assert(r.y.wrapping_add(60) == r.y + 60);
    assert forall|k: int| k == i || k == i + 1 || k == i + 4 implies
        cell_rect(r, k).x == cell_rect(r, 0).x + (k % 4) * 136 && cell_rect(r, k).y == r.y + 60 + (k / 4) * 146 by {
        let col = (k % 4) as i32;
        let row = (k / 4) as i32;
        assert(0 <= k / 4 <= i / 4 + 1);
        assert((k / 4) * 146 <= (i / 4 + 1) * 146) by (nonlinear_arith)
            requires 0 <= k / 4 <= i / 4 + 1;
        assert(0 <= (k / 4) * 146) by (nonlinear_arith)
            requires 0 <= k / 4;
        assert(k / 4 <= i32::MAX) by (nonlinear_arith)
            requires (k / 4) * 146 <= i32::MAX, 0 <= k / 4;
        assert(row == k / 4);
        assert(col == k % 4);
        lemma_wrapping_mul_exact(col, 136);
        lemma_wrapping_mul_exact(row, 146);
    }
    assert((i + 4) % 4 == i % 4 && (i + 4) / 4 == i / 4 + 1);
    if (i + 1) % 4 != 0 {
        assert((i + 1) % 4 == i % 4 + 1 && (i + 1) / 4 == i / 4);
    }
}

/// The launcher's four columns of cells (528 pixels) are centred across
/// its panel inside 20-pixel side margins: on a panel wide enough for them
/// the space left and right of the grid differs by at most one pixel.
pub proof fn law_launcher_grid_centred(r: Rect)
    requires
        568 <= r.w <= i32::MAX,
        r.x + r.w <= i32::MAX,
    ensures
        ({
            let left = cell_rect(r, 0).x - r.x;
            let right = (r.x + r.w) - (cell_rect(r, 0).x + 528);
            20 <= left && (right == left || right == left + 1)
        }),
{
    lemma_wrapping_mul_exact(0, 136);
}


// ------------------------------------------------------------- the desktop

/// Letting go of button 1 with the pointer still over a tile of the open
/// start screen (the first tile there) closes the start screen and launches
/// that tile's application.
pub proof fn law_desktop_release_on_tile_launches(v: DesktopView, ev: MouseEvent, i: int)
    requires
        v.start.open,
        v.prev_buttons & 1 != 0,
        ev.buttons & 1 == 0,
        ev.dx == 0 && ev.dy == 0,
        0 <= v.cursor_x < v.width,
        0 <= v.cursor_y < v.height,
        0 <= i < v.start.apps.len(),
        tile_box(i, grid_origin_of(v.start.apps.len() as int, v.start.screen_w, v.start.screen_h).0,
            grid_origin_of(v.start.apps.len() as int, v.start.screen_w, v.start.screen_h).1).spec_contains(v.cursor_x as int, v.cursor_y as int),
        forall|j: int| 0 <= j < i ==> !#[trigger] tile_box(j, grid_origin_of(v.start.apps.len() as int, v.start.screen_w, v.start.screen_h).0,
            grid_origin_of(v.start.apps.len() as int, v.start.screen_w, v.start.screen_h).1).spec_contains(v.cursor_x as int, v.cursor_y as int),
    ensures
        !desktop_input(v, ev).1.start.open,
        desktop_input(v, ev).1.start.launched == Some(i as usize),
        !desktop_input(v, ev).0,
{
    law_start_release_on_tile_launches(v.start, v.cursor_x, v.cursor_y, 1, i);
}

} // verus!
