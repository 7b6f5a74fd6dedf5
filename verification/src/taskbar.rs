use vstd::prelude::*;
use crate::canvas::Canvas;
use crate::color::{Color, pack_argb};
use crate::digits::{clipped, clock_bytes, hours_minutes};
use crate::fbtext::byte_text;
use crate::raster::{apply, paint_rect};
use crate::rect::{Rect, signed, tdiv, to_i32};
use crate::widget::{abs_rect, offset_rect, Event, EventResult, Widget};
use crate::trace::{replay, Change};
use crate::window::as_i32;

verus! {

broadcast use crate::trace::lemma_replay_first;

/// The start button: 48 pixels wide, inset by 4 from the bar's top left.
pub open spec fn start_box(r: Rect) -> Rect {
    Rect { x: r.x.wrapping_add(4), y: r.y.wrapping_add(4), w: 48, h: r.h.wrapping_sub(8) }
}

/// The clock: 100 pixels wide, 8 from the bar's right end.
pub open spec fn clock_box(r: Rect) -> Rect {
    Rect { x: r.x.wrapping_add(as_i32(r.w)).wrapping_sub(100).wrapping_sub(8), y: r.y, w: 100, h: r.h }
}

/// The state of a [`TaskBar`].
pub struct TaskBarView {
    pub rect: Rect,
    pub show_launcher: bool,
    pub time_h: u32,
    pub time_m: u32,
    pub launcher_hover: bool,
}

/// What a task bar answers to `ev` and its state after it: a move hovers
/// the start button (redraw when that changes); a release over it toggles
/// the launcher and is handled.
pub open spec fn taskbar_step(v: TaskBarView, ev: Event, parent: Rect) -> (EventResult, TaskBarView) {
    let sr = start_box(abs_rect(parent, v.rect));
    match ev {
        Event::MouseMove { x, y } => {
            let hov = sr.spec_contains(x as int, y as int);
            (
                if hov != v.launcher_hover {
                    EventResult::Redraw
                } else {
                    EventResult::Ignored
                },
                TaskBarView { launcher_hover: hov, ..v },
            )
        },
        Event::MouseUp { x, y, .. } => {
            if sr.spec_contains(x as int, y as int) {
                (EventResult::Handled, TaskBarView { show_launcher: !v.show_launcher, ..v })
            } else {
                (EventResult::Ignored, v)
            }
        },
        Event::MouseDown { .. } => (EventResult::Ignored, v),
    }
}

/// The pixels `pix` of a `w` x `h` canvas with glyph table `font` after a
/// task bar is drawn: the bar in near-black; the start button (lighter when
/// hovered) with four coloured 4 x 4 squares around its middle and, while
/// the launcher is shown, a blue line along its bottom; and the time as
/// `HH:MM` centred in the clock area, 9 pixels per character.
pub open spec fn taskbar_image(pix: Seq<u32>, w: int, h: int, font: Seq<u8>, v: TaskBarView) -> Seq<u32> {
    let r = v.rect;
    let bar = apply(pix, w, h, paint_rect(r.x as int, r.y as int, signed(r.w), signed(r.h), pack_argb(0xFF, 16, 16, 16)));
    let sr = start_box(r);
    let (sx, sy, sh) = (sr.x as int, sr.y as int, signed(sr.h));
    let start_bg = if v.launcher_hover { pack_argb(0xFF, 60, 60, 60) } else { pack_argb(0xFF, 40, 40, 40) };
    let start = apply(bar, w, h, paint_rect(sx, sy, 48, sh, start_bg));
    let (lx, ly) = (sx + 18, sy + tdiv(sh, 2) - 6);
    let q1 = apply(start, w, h, paint_rect(lx, ly, 4, 4, pack_argb(0xFF, 0, 120, 215)));
    let q2 = apply(q1, w, h, paint_rect(lx + 8, ly, 4, 4, pack_argb(0xFF, 240, 140, 40)));
    let q3 = apply(q2, w, h, paint_rect(lx, ly + 8, 4, 4, pack_argb(0xFF, 80, 180, 80)));
    let q4 = apply(q3, w, h, paint_rect(lx + 8, ly + 8, 4, 4, pack_argb(0xFF, 220, 60, 140)));
    let marked = if v.show_launcher {
        apply(q4, w, h, paint_rect(sx, sy + sh - 2, 48, 2, pack_argb(0xFF, 0, 120, 215)))
    } else {
        q4
    };
    let text = clipped(clock_bytes(seq![v.time_h as nat, v.time_m as nat]), 8);
    let cr = clock_box(r);
    let cx = cr.x + tdiv(100 - text.len() * 9, 2);
    let cy = cr.y + tdiv(signed(cr.h) - 13, 2);
    byte_text(marked, w, h, font, text, cx, cy, 1, pack_argb(0xFF, 220, 220, 220), text.len() as int)
}

/// Whether a task bar is drawn: it is at least 8 rows high (its start
/// button is 8 rows lower), its width and height are `i32` values, and so
/// is every coordinate that drawing it computes: its right and bottom edges,
/// the start button's, 4 in from its top left, the logo squares around the
/// button's middle, the clock area's left edge, 108 left of its right edge,
/// and the time's row.
pub open spec fn taskbar_drawn(v: TaskBarView) -> bool {
    let (x, y, w, h) = (v.rect.x as int, v.rect.y as int, v.rect.w as int, v.rect.h as int);
    let ly = y + 4 + (h - 8) / 2 - 6;
    let cy = y + tdiv(h - 13, 2);
    &&& 8 <= h && w <= i32::MAX && h <= i32::MAX
    &&& x + 52 <= i32::MAX + 1
    &&& i32::MIN <= x + w - 108 && x + w <= i32::MAX
    &&& y + h <= i32::MAX + 1
    &&& i32::MIN <= ly && ly + 12 <= i32::MAX + 1
    &&& i32::MIN <= cy && cy + 13 <= i32::MAX + 1
}

/// The bar along the bottom of the desktop: a start button and a clock.
pub struct TaskBar {
    rect: Rect,
    pub show_launcher: bool,
    pub time_h: u32,
    pub time_m: u32,
    launcher_hover: bool,
}

impl View for TaskBar {
    type V = TaskBarView;

    closed spec fn view(&self) -> TaskBarView {
        TaskBarView {
            rect: self.rect,
            show_launcher: self.show_launcher,
            time_h: self.time_h,
            time_m: self.time_m,
            launcher_hover: self.launcher_hover,
        }
    }
}

impl TaskBar {
    pub fn new() -> (t: Self)
        ensures
            t@ == (TaskBarView {
                rect: Rect::new_spec(0, 0, 800, 48),
                show_launcher: false,
                time_h: 0,
                time_m: 0,
                launcher_hover: false,
            }),
    {
        Self { rect: Rect::new(0, 0, 800, 48), show_launcher: false, time_h: 0, time_m: 0, launcher_hover: false }
    }

    pub fn set_time(&mut self, h: u32, m: u32)
        ensures
            final(self)@ == (TaskBarView { time_h: h, time_m: m, ..old(self)@ }),
    {
        self.time_h = h;
        self.time_m = m;
    }

    /// Whether the launcher is shown.
    pub fn launcher_shown(&self) -> (b: bool)
        ensures
            b == self@.show_launcher,
    {
        self.show_launcher
    }

    /// Shows or hides the launcher.
    pub fn set_launcher_shown(&mut self, shown: bool)
        ensures
            final(self)@ == (TaskBarView { show_launcher: shown, ..old(self)@ }),
    {
        self.show_launcher = shown;
    }

    /// Tests [`taskbar_drawn`].
    fn frame_fits(&self) -> (b: bool)
        ensures
            b == taskbar_drawn(self@),
    {
        let r = self.rect;
        let (x, y, w, h) = (r.x as i64, r.y as i64, r.w as i64, r.h as i64);
        let (min, max) = (i32::MIN as i64, i32::MAX as i64);
        if h < 8 || w > max || h > max || x + 52 > max + 1 || x + w - 108 < min || x + w > max || y + h
            > max + 1 {
            return false;
        }
        let ly = y + 4 + (h - 8) / 2 - 6;
        let cy = y + (h - 13) / 2;
        ly >= min && ly + 12 <= max + 1 && cy >= min && cy + 13 <= max + 1
    }

    fn start_rect(&self) -> (r: Rect)
        ensures
            r == start_box(self.rect),
    {
        Rect::new(self.rect.x.wrapping_add(4), self.rect.y.wrapping_add(4), 48, self.rect.h.wrapping_sub(8))
    }

    fn clock_rect(&self) -> (r: Rect)
        ensures
            r == clock_box(self.rect),
    {
        let cw = 100u32;
        Rect::new(self.rect.x.wrapping_add(to_i32(self.rect.w)).wrapping_sub(100).wrapping_sub(8), self.rect.y, cw, self.rect.h)
    }
}

/// A taskbar after the change `c`: an event steps it as its
/// `handle_event` does; a move or a resize sets its rectangle as `set_pos`
/// and `set_size` do.
pub open spec fn taskbar_changed(v: TaskBarView, c: Change) -> TaskBarView {
    match c {
        Change::Event(e, p) => taskbar_step(v, e, p).1,
        Change::MoveTo(x, y) => TaskBarView { rect: Rect { x, y, ..v.rect }, ..v },
        Change::Resize(w, h) => TaskBarView { rect: Rect { w, h, ..v.rect }, ..v },
    }
}

/// A taskbar after the changes `ops`, made in turn.
pub open spec fn taskbar_after(v: TaskBarView, ops: Seq<Change>) -> TaskBarView {
    replay(v, ops, |u: TaskBarView, c: Change| taskbar_changed(u, c))
}

impl Widget for TaskBar {
    open spec fn bounds_after(&self, ops: Seq<Change>) -> Rect {
        let v = taskbar_after(self@, ops);
        v.rect
    }

    open spec fn painted_after(&self, ops: Seq<Change>, pix: Seq<u32>, w: int, h: int, font: Seq<u8>) -> Seq<u32> {
        let v = taskbar_after(self@, ops);
        if taskbar_drawn(v) { taskbar_image(pix, w, h, font, v) } else { pix }
    }

    open spec fn answer_after(&self, ops: Seq<Change>, ev: Event, parent: Rect) -> EventResult {
        let v = taskbar_after(self@, ops);
        taskbar_step(v, ev, parent).0
    }

    open spec fn painted(&self, pix: Seq<u32>, w: int, h: int, font: Seq<u8>) -> Seq<u32> {
        self.painted_after(Seq::empty(), pix, w, h, font)
    }

    open spec fn answer(&self, ev: Event, parent: Rect) -> EventResult {
        self.answer_after(Seq::empty(), ev, parent)
    }

    open spec fn bounds(&self) -> Rect {
        self@.rect
    }

    open spec fn placeable(&self) -> bool {
        true
    }



    fn draw(&self, canvas: &mut Canvas)
        ensures
            final(canvas)@ == if taskbar_drawn(self@) {
                taskbar_image(old(canvas)@, old(canvas).width as int, old(canvas).height as int, old(canvas).font_view(), self@)
            } else {
                old(canvas)@
            },
    {
        let r = self.rect;
        if !self.frame_fits() {
            return;
        }
        let ghost (cw, ch, font) = (canvas.width as int, canvas.height as int, canvas.font_view());
        canvas.fill_rect(r.x, r.y, r.w, r.h, Color::from_rgb(16, 16, 16));

        let sr = self.start_rect();
        let start_bg = if self.launcher_hover {
            Color::from_rgb(60, 60, 60)
        } else {
            Color::from_rgb(40, 40, 40)
        };
        canvas.fill_rect(sr.x, sr.y, sr.w, sr.h, start_bg);

        let lx = sr.x + sr.w as i32 / 2 - 6;
        let ly = sr.y + to_i32(sr.h) / 2 - 6;
        canvas.fill_rect(lx, ly, 4, 4, Color::from_rgb(0, 120, 215));
        canvas.fill_rect(lx + 8, ly, 4, 4, Color::from_rgb(240, 140, 40));
        canvas.fill_rect(lx, ly + 8, 4, 4, Color::from_rgb(80, 180, 80));
        canvas.fill_rect(lx + 8, ly + 8, 4, 4, Color::from_rgb(220, 60, 140));

        if self.show_launcher {
            canvas.fill_rect(sr.x, sr.y + to_i32(sr.h) - 2, sr.w, 2, Color::from_rgb(0, 120, 215));
        }

        let text = hours_minutes(self.time_h, self.time_m, 8);
        let len = text.len();
        let step: i32 = 9;
        let tw = len as i32 * step;
        let cr = self.clock_rect();
        let cx = cr.x + (cr.w as i32 - tw) / 2;
        let cy = cr.y + (to_i32(cr.h) - 13) / 2;
        let ghost marked = canvas@;
        let mut i: usize = 0;
        while i < len
            invariant
                i <= len <= 8,
                step == 9,
                len == text@.len(),
                i32::MIN <= cx,
                cx + len * 9 <= i32::MAX,
                i32::MIN <= cy,
                cy + 13 <= i32::MAX + 1,
                canvas.wf(),
                old(canvas).same_frame(&*canvas),
                cw == canvas.width,
                ch == canvas.height,
                font == canvas.font_view(),
                canvas@ == byte_text(marked, cw, ch, font, text@, cx as int, cy as int, 1, pack_argb(0xFF, 220, 220, 220), i as int),
            decreases len - i,
        {
            canvas.draw_char(cx + i as i32 * step, cy, text[i] as char, Color::from_rgb(220, 220, 220));
            i = i + 1;
        }
    }

    fn rect(&self) -> (r: Rect)
        ensures
            r == self@.rect,
    {
        self.rect
    }

    fn min_size(&self) -> (s: (u32, u32))
        ensures
            s == (100u32, 48u32),
    {
        (100, 48)
    }

    fn set_pos(&mut self, x: i32, y: i32)
        ensures
            final(self)@ == (TaskBarView { rect: Rect { x, y, ..old(self)@.rect }, ..old(self)@ }),
    {
        self.rect.x = x;
        self.rect.y = y;
    }

    fn set_size(&mut self, w: u32, h: u32)
        ensures
            final(self)@ == (TaskBarView { rect: Rect { w, h, ..old(self)@.rect }, ..old(self)@ }),
    {
        self.rect.w = w;
        self.rect.h = h;
    }

    fn handle_event(&mut self, ev: &Event, parent: Rect) -> (res: EventResult)
        ensures
            (res, final(self)@) == taskbar_step(old(self)@, *ev, parent),
    {
        let abs = offset_rect(parent, self.rect);
        match *ev {
            Event::MouseMove { x, y } => {
                let sr = Rect::new(abs.x.wrapping_add(4), abs.y.wrapping_add(4), 48, self.rect.h.wrapping_sub(8));
                let new_hover = sr.contains(x, y);
                let changed = new_hover != self.launcher_hover;
                self.launcher_hover = new_hover;
                if changed {
                    EventResult::Redraw
                } else {
                    EventResult::Ignored
                }
            },
            Event::MouseUp { x, y, .. } => {
                let sr = Rect::new(abs.x.wrapping_add(4), abs.y.wrapping_add(4), 48, self.rect.h.wrapping_sub(8));
                if sr.contains(x, y) {
                    self.show_launcher = !self.show_launcher;
                    EventResult::Handled
                } else {
                    EventResult::Ignored
                }
            },
            _ => EventResult::Ignored,
        }
    }
}

} // verus!
