use vstd::prelude::*;
use crate::canvas::{Canvas, glyph_of, text_layers};
use crate::color::Color;
use crate::font::{text_ends_within, FONT_W};
use crate::raster::{apply, paint_glyph, paint_rect, shadow_rings};
use crate::rect::{Rect, signed, to_i32};
use crate::widget::{child_moved_to, child_painted, Event, EventResult, Widget};
use crate::trace::{Change, relay, child_follows, child_painted_after};

verus! {

broadcast use {crate::trace::lemma_relay_first, crate::trace::lemma_nothing_first};

/// Height of the title bar above a window's content.
pub const TITLE_H: i32 = 24;

/// Side of the square close button.
pub const CLOSE_W: i32 = 18;

/// `w as i32`.
pub open spec fn as_i32(w: u32) -> i32 {
    signed(w) as i32
}

/// The title bar: `TITLE_H` rows directly above the window's rectangle.
pub open spec fn title_bar_of(r: Rect) -> Rect {
    Rect { x: r.x, y: r.y.wrapping_sub(TITLE_H), w: r.w, h: TITLE_H as u32 }
}

/// The close button: a `CLOSE_W` square in the title bar, 24 pixels left of
/// the right edge and 2 below the top.
pub open spec fn close_box_of(r: Rect) -> Rect {
    Rect {
        x: r.x.wrapping_add(as_i32(r.w)).wrapping_sub(24),
        y: r.y.wrapping_sub(TITLE_H).wrapping_add(2),
        w: CLOSE_W as u32,
        h: CLOSE_W as u32,
    }
}

/// The content area: the window's rectangle inset by 4 pixels on each side.
pub open spec fn content_of(r: Rect) -> Rect {
    Rect {
        x: r.x.wrapping_add(4),
        y: r.y.wrapping_add(4),
        w: if r.w >= 8 { (r.w - 8) as u32 } else { 0 },
        h: if r.h >= 8 { (r.h - 8) as u32 } else { 0 },
    }
}

/// `v` limited to `lo..=hi`.
pub open spec fn clamp_to(v: i32, lo: i32, hi: i32) -> i32 {
    if v < lo {
        lo
    } else if v > hi {
        hi
    } else {
        v
    }
}

/// The state of a [`Window`] (its content widget aside).
pub struct WindowView {
    pub rect: Rect,
    pub title: Seq<char>,
    pub has_content: bool,
    pub close_hovered: bool,
    pub dragging: bool,
    pub drag_off_x: i32,
    pub drag_off_y: i32,
    pub shadow_radius: i32,
    pub bg: u32,
    pub title_bg: u32,
    pub title_fg: u32,
    pub close_bg: u32,
    pub close_hover: u32,
    pub border: u32,
}

/// The pixels `pix` of a `w` x `h` canvas with glyph table `font` after a
/// window's frame is drawn (its content widget aside): a shadow around the
/// window and its title bar, 4 pixels out; the title bar with a border line
/// along its bottom and the title 10 right and 6 down; the close box in its
/// hover or plain colour with an `x` 5 right and 3 down; the content area;
/// and a one-pixel border along the content area's four edges.
pub open spec fn window_image(pix: Seq<u32>, w: int, h: int, font: Seq<u8>, v: WindowView) -> Seq<u32> {
    let r = v.rect;
    let (x, y, rw, rh) = (r.x as int, r.y as int, signed(r.w), signed(r.h));
    let shadowed = shadow_rings(pix, w, h, x - 4, y - TITLE_H - 4, shadow_w(r), shadow_h(r), v.shadow_radius as int, v.shadow_radius as int);
    let tb = title_bar_of(r);
    let bar = apply(shadowed, w, h, paint_rect(tb.x as int, tb.y as int, rw, TITLE_H as int, v.title_bg));
    let bar_line = apply(bar, w, h, paint_rect(tb.x as int, tb.y + TITLE_H - 1, rw, 1, v.border));
    let titled = text_layers(bar_line, w, h, font, v.title, tb.x + 10, tb.y + 6, 1, v.title_fg, v.title.len() as int);
    let cl = close_box_of(r);
    let close_color = if v.close_hovered { v.close_hover } else { v.close_bg };
    let close = apply(titled, w, h, paint_rect(cl.x as int, cl.y as int, CLOSE_W as int, CLOSE_W as int, close_color));
    let cross = apply(close, w, h, paint_glyph(cl.x + 5, cl.y + 3, glyph_of(font, 'x'), 0xFFFF_FFFF));
    let body = apply(cross, w, h, paint_rect(x, y, rw, rh, v.bg));
    let top = apply(body, w, h, paint_rect(x, y, rw, 1, v.border));
    let bottom = apply(top, w, h, paint_rect(x, y + rh - 1, rw, 1, v.border));
    let left = apply(bottom, w, h, paint_rect(x, y, 1, rh, v.border));
    apply(left, w, h, paint_rect(x + rw - 1, y, 1, rh, v.border))
}

/// Whether a window's frame is drawn: the shadow's size (8 more than the
/// window's across, the title bar's and 8 more down) is a `u32`, and every
/// coordinate that drawing it computes is an `i32` value, sizes read as
/// `i32` values as drawing reads them. That is the shadow's rectangle (4
/// pixels around the window and its title bar) and its rings, the right and
/// bottom edges, the close box 24 pixels left of the right edge and the end
/// of the title, 9 pixels a character from 10 right of the left edge.
pub open spec fn window_drawn(v: WindowView) -> bool {
    let (x, y) = (v.rect.x as int, v.rect.y as int);
    let (ws, hs) = (signed(v.rect.w), signed(v.rect.h));
    let (sx, sy) = (x - 4, y - TITLE_H - 4);
    let (sw, sh) = (shadow_w(v.rect), shadow_h(v.rect));
    let rad = v.shadow_radius as int;
    &&& v.rect.w + 8 <= u32::MAX
    &&& v.rect.h + TITLE_H + 8 <= u32::MAX
    &&& i32::MIN <= sx && i32::MIN <= sy
    &&& rad * 32 <= i32::MAX
    &&& rad > 0 ==> {
        &&& i32::MIN <= sx - rad && i32::MIN <= sy - rad
        &&& sx + sw + rad <= i32::MAX + 1 && sy + sh + rad <= i32::MAX + 1
        &&& sw + rad <= i32::MAX && sh + rad <= i32::MAX
    }
    &&& i32::MIN + 24 <= x + ws <= i32::MAX
    &&& i32::MIN < y + hs <= i32::MAX
    &&& x + 10 + v.title.len() * (FONT_W + 1) <= i32::MAX
}

/// The shadow's width: the window's and 8 more, read as an `i32`.
pub open spec fn shadow_w(r: Rect) -> int {
    signed(((r.w + 8) % 0x1_0000_0000) as u32)
}

/// The shadow's height: the window's, its title bar's and 8 more, read as
/// an `i32`.
pub open spec fn shadow_h(r: Rect) -> int {
    signed(((r.h + TITLE_H + 8) % 0x1_0000_0000) as u32)
}

/// Tests [`window_drawn`].
fn frame_fits(v: &Window) -> (b: bool)
    ensures
        b == window_drawn(v@),
{
    let (x, y) = (v.rect.x as i64, v.rect.y as i64);
    let (ws, hs) = (to_i32(v.rect.w) as i64, to_i32(v.rect.h) as i64);
    let rad = v.shadow_radius as i64;
    let max = i32::MAX as i64;
    let min = i32::MIN as i64;
    if v.rect.w > u32::MAX - 8 || v.rect.h > u32::MAX - 32 {
        return false;
    }
    let (sx, sy) = (x - 4, y - TITLE_H as i64 - 4);
    let (sw, sh) = (to_i32(v.rect.w + 8) as i64, to_i32(v.rect.h + 32) as i64);
    assert(sw == shadow_w(v.rect) && sh == shadow_h(v.rect));
    if sx < min || sy < min || rad * 32 > max || x + ws < min + 24 || x + ws > max || y + hs <= min || y + hs > max {
        return false;
    }
    if rad > 0 && (sx - rad < min || sy - rad < min || sx + sw + rad > max + 1 || sy + sh + rad > max + 1 || sw + rad
        > max || sh + rad > max) {
        return false;
    }
    text_ends_within(v.title, x + 10, 9)
}

/// Whether the window hands `ev` to its content widget and answers with the
/// content's answer.
pub open spec fn window_forwards(v: WindowView, ev: Event) -> bool {
    let cl = close_box_of(v.rect);
    let tb = title_bar_of(v.rect);
    let cr = content_of(v.rect);
    let (x, y) = ev.pos();
    v.has_content && cr.spec_contains(x, y) && match ev {
        Event::MouseMove { x: ex, y: ey } => !(v.dragging && drag_moves(v, ex, ey)),
        Event::MouseDown { .. } => !cl.spec_contains(x, y) && !tb.spec_contains(x, y),
        Event::MouseUp { .. } => !v.dragging,
    }
}

/// A window after the change `c`, and the changes it makes to its content
/// widget meanwhile: an event steps the window (see [`window_next`]) and is
/// handed to the content with the content area as the parent rectangle when
/// the window forwards it; a drag that moves the window moves the content
/// to the content area the window had before the move; a move or a resize
/// sets the window's rectangle and leaves the content alone.
pub open spec fn window_changed(v: WindowView, c: Change) -> (WindowView, Seq<Change>) {
    match c {
        Change::Event(e, p) => (
            window_next(v, e),
            if window_forwards(v, e) {
                seq![Change::Event(e, content_of(v.rect))]
            } else if window_drags(v, e) {
                seq![Change::MoveTo(content_of(v.rect).x, content_of(v.rect).y)]
            } else {
                Seq::empty()
            },
        ),
        Change::MoveTo(x, y) => (WindowView { rect: Rect { x, y, ..v.rect }, ..v }, Seq::empty()),
        Change::Resize(w, h) => (WindowView { rect: Rect { w, h, ..v.rect }, ..v }, Seq::empty()),
    }
}

/// A window after the changes `ops`, made in turn, and the changes made to
/// its content widget meanwhile.
pub open spec fn window_after(v: WindowView, ops: Seq<Change>) -> (WindowView, Seq<Change>) {
    relay(v, ops, |u: WindowView, c: Change| window_changed(u, c))
}

/// Where a drag to pointer `(x, y)` puts the window: the pointer less the
/// grab offset, kept within `2..=1000` across and `36..=800` down.
pub open spec fn drag_target(v: WindowView, x: i32, y: i32) -> (i32, i32) {
    (clamp_to(x.wrapping_sub(v.drag_off_x), 2, 1000), clamp_to(y.wrapping_sub(v.drag_off_y), 36, 800))
}

/// Whether a drag to pointer `(x, y)` moves the window.
pub open spec fn drag_moves(v: WindowView, x: i32, y: i32) -> bool {
    let (nx, ny) = drag_target(v, x, y);
    nx != v.rect.x || ny != v.rect.y
}

/// Whether `ev` drags the window to a new place.
pub open spec fn window_drags(v: WindowView, ev: Event) -> bool {
    match ev {
        Event::MouseMove { x, y } => v.dragging && drag_moves(v, x, y),
        _ => false,
    }
}

/// What the window answers to `ev` when it does not hand it on.
pub open spec fn window_answer(v: WindowView, ev: Event) -> EventResult {
    let cl = close_box_of(v.rect);
    let tb = title_bar_of(v.rect);
    match ev {
        Event::MouseMove { x, y } => {
            if v.dragging && drag_moves(v, x, y) {
                EventResult::Redraw
            } else if v.close_hovered != cl.spec_contains(x as int, y as int) {
                EventResult::Redraw
            } else {
                EventResult::Ignored
            }
        },
        Event::MouseDown { x, y, .. } => {
            if cl.spec_contains(x as int, y as int) {
                EventResult::Handled
            } else if tb.spec_contains(x as int, y as int) {
                EventResult::Redraw
            } else {
                EventResult::Ignored
            }
        },
        Event::MouseUp { .. } => {
            if v.dragging {
                EventResult::Redraw
            } else {
                EventResult::Ignored
            }
        },
    }
}

/// The window's state after `ev`: a move updates the close button's hover
/// and, while dragging, moves the window; a press in the title bar (outside
/// the close button) starts a drag, remembering where the window was
/// grabbed; a release ends a drag.
pub open spec fn window_next(v: WindowView, ev: Event) -> WindowView {
    let cl = close_box_of(v.rect);
    let tb = title_bar_of(v.rect);
    match ev {
        Event::MouseMove { x, y } => {
            let hovered = cl.spec_contains(x as int, y as int);
            if v.dragging && drag_moves(v, x, y) {
                let (nx, ny) = drag_target(v, x, y);
                WindowView { close_hovered: hovered, rect: Rect { x: nx, y: ny, ..v.rect }, ..v }
            } else {
                WindowView { close_hovered: hovered, ..v }
            }
        },
        Event::MouseDown { x, y, .. } => {
            if !cl.spec_contains(x as int, y as int) && tb.spec_contains(x as int, y as int) {
                WindowView {
                    dragging: true,
                    drag_off_x: x.wrapping_sub(v.rect.x),
                    drag_off_y: y.wrapping_sub(v.rect.y),
                    ..v
                }
            } else {
                v
            }
        },
        Event::MouseUp { .. } => WindowView { dragging: false, ..v },
    }
}

/// A movable window with a title bar, close button, and a content widget.
pub struct Window {
    rect: Rect,
    title: &'static str,
    content: Option<Box<dyn Widget>>,
    close_hovered: bool,
    dragging: bool,
    drag_off_x: i32,
    drag_off_y: i32,
    shadow_radius: i32,
    bg: Color,
    title_bg: Color,
    title_fg: Color,
    close_bg: Color,
    close_hover: Color,
    border: Color,
}

impl View for Window {
    type V = WindowView;

    closed spec fn view(&self) -> WindowView {
        WindowView {
            rect: self.rect,
            title: self.title@,
            has_content: self.content is Some,
            close_hovered: self.close_hovered,
            dragging: self.dragging,
            drag_off_x: self.drag_off_x,
            drag_off_y: self.drag_off_y,
            shadow_radius: self.shadow_radius,
            bg: self.bg@,
            title_bg: self.title_bg@,
            title_fg: self.title_fg@,
            close_bg: self.close_bg@,
            close_hover: self.close_hover@,
            border: self.border@,
        }
    }
}

impl Window {
    /// The content widget, if any.
    pub closed spec fn content_widget(&self) -> Option<Box<dyn Widget>> {
        self.content
    }

    /// The content widget's bounding rectangle and whether it is
    /// placeable, if there is one.
    pub closed spec fn content_place(&self) -> Option<(Rect, bool)> {
        match self.content {
            Some(c) => Some((c.bounds(), c.placeable())),
            None => None,
        }
    }

    pub fn new(title: &'static str, content: Option<Box<dyn Widget>>) -> (w: Self)
        ensures
            w@.rect == Rect::new_spec(40, 56, 640, 400),
            w@.title == title@,
            w@.has_content == content is Some,
            !w@.close_hovered,
            !w@.dragging,
            w@.drag_off_x == 0,
            w@.drag_off_y == 0,
            w@.shadow_radius == 6,
            w@.bg == 0xFF161630u32,
            w@.title_bg == 0xFF1A1A3Au32,
            w@.title_fg == 0xFFAAAAEEu32,
            w@.close_bg == 0xFF992222u32,
            w@.close_hover == 0xFFFF5555u32,
            w@.border == 0xFF444477u32,
            w.content_widget() == content,
    {
        Self {
            rect: Rect::new(40, 56, 640, 400),
            title,
            content,
            close_hovered: false,
            dragging: false,
            drag_off_x: 0,
            drag_off_y: 0,
            shadow_radius: 6,
            bg: Color::from_u32(0xFF161630),
            title_bg: Color::from_u32(0xFF1A1A3A),
            title_fg: Color::from_u32(0xFFAAAAEE),
            close_bg: Color::from_u32(0xFF992222),
            close_hover: Color::from_u32(0xFFFF5555),
            border: Color::from_u32(0xFF444477),
        }
    }

    fn title_bar_rect(&self) -> (r: Rect)
        ensures
            r == title_bar_of(self.rect),
    {
        Rect::new(self.rect.x, self.rect.y.wrapping_sub(TITLE_H), self.rect.w, TITLE_H as u32)
    }

    fn close_rect(&self) -> (r: Rect)
        ensures
            r == close_box_of(self.rect),
    {
        let x = self.rect.x.wrapping_add(to_i32(self.rect.w)).wrapping_sub(24);
        let y = self.rect.y.wrapping_sub(TITLE_H).wrapping_add(2);
        Rect::new(x, y, CLOSE_W as u32, CLOSE_W as u32)
    }

    fn content_rect(&self) -> (r: Rect)
        ensures
            r == content_of(self.rect),
    {
        Rect::new(
            self.rect.x.wrapping_add(4),
            self.rect.y.wrapping_add(4),
            self.rect.w.saturating_sub(8),
            self.rect.h.saturating_sub(8),
        )
    }
}

/// `v` limited to `lo..=hi`.
fn clamp_i32(v: i32, lo: i32, hi: i32) -> (r: i32)
    ensures
        r == clamp_to(v, lo, hi),
{
    if v < lo {
        lo
    } else if v > hi {
        hi
    } else {
        v
    }
}

impl Widget for Window {

    open spec fn bounds(&self) -> Rect {
        self@.rect
    }

    open spec fn placeable(&self) -> bool {
        true
    }

    /// The frame (see [`window_image`]), then the content widget over it;
    /// nothing when the frame's coordinates are not all `i32` values.
    open spec fn painted(&self, pix: Seq<u32>, w: int, h: int, font: Seq<u8>) -> Seq<u32> {
        if window_drawn(self@) {
            child_painted(self.content_widget(), window_image(pix, w, h, font, self@), w, h, font)
        } else {
            pix
        }
    }

    /// The content widget's answer, with the content area as its parent
    /// rectangle, when the window hands it the event (see
    /// [`window_forwards`]); otherwise the window's own answer.
    open spec fn answer(&self, ev: Event, parent: Rect) -> EventResult {
        if window_forwards(self@, ev) {
            match self.content_widget() {
                Some(c) => c.answer(ev, content_of(self@.rect)),
                None => EventResult::Ignored,
            }
        } else {
            window_answer(self@, ev)
        }
    }

    open spec fn bounds_after(&self, ops: Seq<Change>) -> Rect {
        window_after(self@, ops).0.rect
    }

    open spec fn painted_after(&self, ops: Seq<Change>, pix: Seq<u32>, w: int, h: int, font: Seq<u8>) -> Seq<u32> {
        let (u, cs) = window_after(self@, ops);
        if window_drawn(u) {
            child_painted_after(self.content_widget(), cs, window_image(pix, w, h, font, u), w, h, font)
        } else {
            pix
        }
    }

    open spec fn answer_after(&self, ops: Seq<Change>, ev: Event, parent: Rect) -> EventResult {
        let (u, cs) = window_after(self@, ops);
        if window_forwards(u, ev) {
            match self.content_widget() {
                Some(c) => c.answer_after(cs, ev, content_of(u.rect)),
                None => EventResult::Ignored,
            }
        } else {
            window_answer(u, ev)
        }
    }

    fn rect(&self) -> (r: Rect)
        ensures
            r == self@.rect,
    {
        self.rect
    }

    fn min_size(&self) -> (s: (u32, u32))
        ensures
            s == (320u32, 200u32),
    {
        (320, 200)
    }

    fn set_pos(&mut self, x: i32, y: i32)
        ensures
            final(self)@ == (WindowView { rect: Rect { x, y, ..old(self)@.rect }, ..old(self)@ }),
    {
        self.rect.x = x;
        self.rect.y = y;
    }

    fn set_size(&mut self, w: u32, h: u32)
        ensures
            final(self)@ == (WindowView { rect: Rect { w, h, ..old(self)@.rect }, ..old(self)@ }),
    {
        self.rect.w = w;
        self.rect.h = h;
    }

    fn draw(&self, canvas: &mut Canvas)
        ensures
            !window_drawn(self@) ==> final(canvas)@ == old(canvas)@,
            window_drawn(self@) && !self@.has_content ==> final(canvas)@ == window_image(
                old(canvas)@,
                old(canvas).width as int,
                old(canvas).height as int,
                old(canvas).font_view(),
                self@,
            ),
    {
        let r = self.rect;
        if !frame_fits(self) {
            return;
        }
        // Shadow
        canvas.draw_shadow(
            r.x - 4,
            r.y - TITLE_H - 4,
            r.w + 8,
            r.h + TITLE_H as u32 + 8,
            self.shadow_radius,
        );

        // Title bar
        let tb = self.title_bar_rect();
        canvas.fill_rect(tb.x, tb.y, tb.w, tb.h, self.title_bg);
        canvas.hline(tb.x, tb.y + tb.h as i32 - 1, tb.w, self.border);

        // Title text
        canvas.draw_text(tb.x + 10, tb.y + 6, self.title, self.title_fg);

        // Close button
        let cl = self.close_rect();
        let clr = if self.close_hovered {
            self.close_hover
        } else {
            self.close_bg
        };
        canvas.fill_rect(cl.x, cl.y, cl.w, cl.h, clr);
        canvas.draw_char(cl.x + 5, cl.y + 3, 'x', Color::white());

        // Content area
        canvas.fill_rect(r.x, r.y, r.w, r.h, self.bg);

        // Border
        canvas.hline(r.x, r.y, r.w, self.border);
        canvas.hline(r.x, r.y + to_i32(r.h) - 1, r.w, self.border);
        canvas.vline(r.x, r.y, r.h, self.border);
        canvas.vline(r.x + to_i32(r.w) - 1, r.y, r.h, self.border);

        // Content child
        if let Some(ref child) = self.content {
            child.draw(canvas);
        }
    }

    fn handle_event(&mut self, ev: &Event, _parent: Rect) -> (res: EventResult)
        ensures
            final(self)@ == window_next(old(self)@, *ev),
            !window_forwards(old(self)@, *ev) ==> res == window_answer(old(self)@, *ev),
            child_follows(final(self).content_widget(), old(self).content_widget(), window_changed(old(self)@, Change::Event(*ev, _parent)).1),
            !window_forwards(old(self)@, *ev) ==> final(self).content_place() == if window_drags(old(self)@, *ev) {
                child_moved_to(old(self).content_place(), content_of(old(self)@.rect).x, content_of(old(self)@.rect).y)
            } else {
                old(self).content_place()
            },
    {
        let tb = self.title_bar_rect();
        let cl = self.close_rect();
        let cr = self.content_rect();
        match *ev {
            Event::MouseMove { x, y } => {
                // Close button hover
                let was_close = self.close_hovered;
                self.close_hovered = cl.contains(x, y);

                // Dragging
                if self.dragging {
                    let new_x = clamp_i32(x.wrapping_sub(self.drag_off_x), 2, 1000);
                    let new_y = clamp_i32(y.wrapping_sub(self.drag_off_y), 36, 800);
                    if new_x != self.rect.x || new_y != self.rect.y {
                        self.rect.x = new_x;
                        self.rect.y = new_y;
                        // the content is moved to the content area the
                        // window had before this move
                        if let Some(ref mut child) = self.content {
                            child.set_pos(cr.x, cr.y);
                        }
                        return EventResult::Redraw;
                    }
                }

                // Forward mouse move to content
                if cr.contains(x, y) {
                    if let Some(ref mut child) = self.content {
                        return child.handle_event(ev, cr);
                    }
                }

                if was_close != self.close_hovered {
                    return EventResult::Redraw;
                }
                EventResult::Ignored
            },
            Event::MouseDown { x, y, .. } => {
                // Close button click
                if cl.contains(x, y) {
                    // "close": the caller handles closing
                    return EventResult::Handled;
                }
                // Title bar: start drag
                if tb.contains(x, y) {
                    self.dragging = true;
                    self.drag_off_x = x.wrapping_sub(self.rect.x);
                    self.drag_off_y = y.wrapping_sub(self.rect.y);
                    return EventResult::Redraw;
                }
                // Forward to content
                if cr.contains(x, y) {
                    if let Some(ref mut child) = self.content {
                        return child.handle_event(ev, cr);
                    }
                }
                EventResult::Ignored
            },
            Event::MouseUp { x, y, .. } => {
                if self.dragging {
                    self.dragging = false;
                    return EventResult::Redraw;
                }
                if cr.contains(x, y) {
                    if let Some(ref mut child) = self.content {
                        return child.handle_event(ev, cr);
                    }
                }
                EventResult::Ignored
            },
        }
    }
}

} // verus!
