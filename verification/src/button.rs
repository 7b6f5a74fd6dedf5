use vstd::prelude::*;
use vstd::string::StringSliceAdditionalSpecFns;
use crate::canvas::{Canvas, text_layers};
use crate::color::Color;
use crate::font::{byte_width, text_ends_within, wrapped_width};
use crate::raster::{apply, paint_rect};
use crate::rect::{Rect, signed, tdiv};
use crate::widget::{drawable, is_drawable, press_step, Event, EventResult, Widget};
use crate::trace::{replay, Change};

verus! {

broadcast use crate::trace::lemma_replay_first;

/// The state of a [`Button`].
pub struct ButtonView {
    pub rect: Rect,
    pub text: Seq<char>,
    pub text_bytes: int,
    pub hovered: bool,
    pub pressed: bool,
    pub bg: u32,
    pub bg_hover: u32,
    pub bg_press: u32,
    pub fg: u32,
    pub border: u32,
}

/// The pixels `pix` of a `w` x `h` canvas with glyph table `font` after a
/// button is drawn: its rectangle filled with the background of its state
/// (pressed, else hovered, else plain), a one-pixel border along its four
/// edges, and its text centred (9 pixels per byte, 13 rows high).
pub open spec fn button_image(pix: Seq<u32>, w: int, h: int, font: Seq<u8>, v: ButtonView) -> Seq<u32> {
    let bg = if v.pressed {
        v.bg_press
    } else if v.hovered {
        v.bg_hover
    } else {
        v.bg
    };
    let (x, y, rw, rh) = (v.rect.x as int, v.rect.y as int, signed(v.rect.w), signed(v.rect.h));
    let filled = apply(pix, w, h, paint_rect(x, y, rw, rh, bg));
    let top = apply(filled, w, h, paint_rect(x, y, rw, 1, v.border));
    let bottom = apply(top, w, h, paint_rect(x, y + rh - 1, rw, 1, v.border));
    let left = apply(bottom, w, h, paint_rect(x, y, 1, rh, v.border));
    let right = apply(left, w, h, paint_rect(x + rw - 1, y, 1, rh, v.border));
    let tx = x + tdiv(rw - v.text_bytes * 9, 2);
    let ty = y + tdiv(rh - 13, 2);
    text_layers(right, w, h, font, v.text, tx, ty, 1, v.fg, v.text.len() as int)
}

/// Whether a button is drawn: its rectangle lies in the `i32` plane and so
/// do its bottom and right border lines, its text's width (9 pixels a byte),
/// the centred text's origin and the end of the text (9 pixels a
/// character).
pub open spec fn button_drawn(v: ButtonView) -> bool {
    let (x, y, w, h) = (v.rect.x as int, v.rect.y as int, v.rect.w as int, v.rect.h as int);
    let tw = v.text_bytes * 9;
    let tx = x + tdiv(w - tw, 2);
    let ty = y + tdiv(h - 13, 2);
    &&& drawable(v.rect)
    &&& i32::MIN < x + w
    &&& i32::MIN < y + h
    &&& tw <= i32::MAX
    &&& i32::MIN <= tx
    &&& i32::MIN <= ty
    &&& tx + v.text.len() * 9 <= i32::MAX
    &&& ty + 13 <= i32::MAX + 1
}

/// A clickable button widget.
pub struct Button {
    rect: Rect,
    text: &'static str,
    hovered: bool,
    pressed: bool,
    // Colour scheme
    bg: Color,
    bg_hover: Color,
    bg_press: Color,
    fg: Color,
    border: Color,
}

impl View for Button {
    type V = ButtonView;

    closed spec fn view(&self) -> ButtonView {
        ButtonView {
            rect: self.rect,
            text: self.text@,
            text_bytes: self.text.len() as int,
            hovered: self.hovered,
            pressed: self.pressed,
            bg: self.bg@,
            bg_hover: self.bg_hover@,
            bg_press: self.bg_press@,
            fg: self.fg@,
            border: self.border@,
        }
    }
}

impl Button {
    pub fn new(text: &'static str) -> (b: Self)
        ensures
            b@.rect == Rect::new_spec(0, 0, 96, 32),
            b@.text == text@,
            b@.text_bytes == text.len(),
            !b@.hovered,
            !b@.pressed,
            b@.bg == 0xFF2A2A4Eu32,
            b@.bg_hover == 0xFF3A3A6Eu32,
            b@.bg_press == 0xFF1A1A3Eu32,
            b@.fg == 0xFFCCCCDDu32,
            b@.border == 0xFF444477u32,
    {
        Self {
            rect: Rect::new(0, 0, 96, 32),
            text,
            hovered: false,
            pressed: false,
            bg: Color::from_u32(0xFF2A2A4E),
            bg_hover: Color::from_u32(0xFF3A3A6E),
            bg_press: Color::from_u32(0xFF1A1A3E),
            fg: Color::from_u32(0xFFCCCCDD),
            border: Color::from_u32(0xFF444477),
        }
    }

    /// Tests [`button_drawn`].
    fn frame_fits(&self) -> (b: bool)
        ensures
            b == button_drawn(self@),
    {
        let r = self.rect;
        if !is_drawable(r) {
            return false;
        }
        let (x, y, w, h) = (r.x as i64, r.y as i64, r.w as i64, r.h as i64);
        let (min, max) = (i32::MIN as i64, i32::MAX as i64);
        if x + w <= min || y + h <= min || self.text.len() > 238609294 {
            return false;
        }
        let tw = self.text.len() as i64 * 9;
        let tx = x + (w - tw) / 2;
        let ty = y + (h - 13) / 2;
        if tx < min || ty < min || ty + 13 > max + 1 {
            return false;
        }
        let fits = text_ends_within(self.text, tx, 9);
        fits
    }

    pub fn set_colors(&mut self, bg: Color, hover: Color, press: Color, fg: Color, border: Color)
        ensures
            final(self)@ == (ButtonView { bg: bg@, bg_hover: hover@, bg_press: press@, fg: fg@, border: border@, ..old(self)@ }),
    {
        self.bg = bg;
        self.bg_hover = hover;
        self.bg_press = press;
        self.fg = fg;
        self.border = border;
    }
}

/// A button after the change `c`: an event steps it as its
/// `handle_event` does; a move or a resize sets its rectangle as `set_pos`
/// and `set_size` do.
pub open spec fn button_changed(v: ButtonView, c: Change) -> ButtonView {
    match c {
        Change::Event(e, p) => { let s = press_step(v.rect, v.hovered, v.pressed, e); ButtonView { hovered: s.1, pressed: s.2, ..v } },
        Change::MoveTo(x, y) => ButtonView { rect: Rect { x, y, ..v.rect }, ..v },
        Change::Resize(w, h) => ButtonView { rect: Rect { w, h, ..v.rect }, ..v },
    }
}

/// A button after the changes `ops`, made in turn.
pub open spec fn button_after(v: ButtonView, ops: Seq<Change>) -> ButtonView {
    replay(v, ops, |u: ButtonView, c: Change| button_changed(u, c))
}

impl Widget for Button {
    open spec fn bounds_after(&self, ops: Seq<Change>) -> Rect {
        let v = button_after(self@, ops);
        v.rect
    }

    open spec fn painted_after(&self, ops: Seq<Change>, pix: Seq<u32>, w: int, h: int, font: Seq<u8>) -> Seq<u32> {
        let v = button_after(self@, ops);
        if button_drawn(v) { button_image(pix, w, h, font, v) } else { pix }
    }

    open spec fn answer_after(&self, ops: Seq<Change>, ev: Event, parent: Rect) -> EventResult {
        let v = button_after(self@, ops);
        press_step(v.rect, v.hovered, v.pressed, ev).0
    }

    open spec fn painted(&self, pix: Seq<u32>, w: int, h: int, font: Seq<u8>) -> Seq<u32> {
        self.painted_after(Seq::empty(), pix, w, h, font)
    }

    open spec fn answer(&self, ev: Event, parent: Rect) -> EventResult {
        self.answer_after(Seq::empty(), ev, parent)
    }

    open spec fn bounds(&self) -> Rect {
        self@.rect
    }

    open spec fn placeable(&self) -> bool {
        true
    }



    fn rect(&self) -> (r: Rect)
        ensures
            r == self@.rect,
    {
        self.rect
    }

    fn min_size(&self) -> (s: (u32, u32))
        ensures
            s.0 as int == ({
                let tw = wrapped_width(self@.text_bytes, 9);
                ((if tw > 64 { tw as int } else { 64 }) + 16) % 0x1_0000_0000
            }),
            s.1 == 32,
    {
        let text_w = byte_width(self.text, 9);
        let m = if text_w > 64 { text_w } else { 64 };
        (m.wrapping_add(16), 32)
    }

    fn set_pos(&mut self, x: i32, y: i32)
        ensures
            final(self)@ == (ButtonView { rect: Rect { x, y, ..old(self)@.rect }, ..old(self)@ }),
    {
        self.rect.x = x;
        self.rect.y = y;
    }

    fn set_size(&mut self, w: u32, h: u32)
        ensures
            final(self)@ == (ButtonView { rect: Rect { w, h, ..old(self)@.rect }, ..old(self)@ }),
    {
        self.rect.w = w;
        self.rect.h = h;
    }

    fn draw(&self, canvas: &mut Canvas)
        ensures
            final(canvas)@ == if button_drawn(self@) {
                button_image(old(canvas)@, old(canvas).width as int, old(canvas).height as int, old(canvas).font_view(), self@)
            } else {
                old(canvas)@
            },
    {
        if !self.frame_fits() {
            return;
        }
        let bg = if self.pressed {
            self.bg_press
        } else if self.hovered {
            self.bg_hover
        } else {
            self.bg
        };
        let r = self.rect;
        canvas.fill_rect(r.x, r.y, r.w, r.h, bg);
        canvas.hline(r.x, r.y, r.w, self.border);
        canvas.hline(r.x, r.y + r.h as i32 - 1, r.w, self.border);
        canvas.vline(r.x, r.y, r.h, self.border);
        canvas.vline(r.x + r.w as i32 - 1, r.y, r.h, self.border);

        // Centered text
        let text_w = self.text.len() as i32 * 9;
        let tx = r.x + (r.w as i32 - text_w) / 2;
        let ty = r.y + (r.h as i32 - 13) / 2;
        canvas.draw_text(tx, ty, self.text, self.fg);
    }

    fn handle_event(&mut self, ev: &Event, _parent: Rect) -> (res: EventResult)
        ensures
            (res, final(self)@.hovered, final(self)@.pressed) == press_step(old(self)@.rect, old(self)@.hovered, old(self)@.pressed, *ev),
            final(self)@ == (ButtonView { hovered: final(self)@.hovered, pressed: final(self)@.pressed, ..old(self)@ }),
    {
        let r = self.rect;
        match *ev {
            Event::MouseMove { x, y } => {
                let was = self.hovered;
                self.hovered = r.contains(x, y);
                if was != self.hovered {
                    EventResult::Redraw
                } else {
                    EventResult::Ignored
                }
            },
            Event::MouseDown { x, y, .. } => {
                if r.contains(x, y) {
                    self.pressed = true;
                    EventResult::Redraw
                } else {
                    EventResult::Ignored
                }
            },
            Event::MouseUp { x, y, .. } => {
                let was = self.pressed;
                self.pressed = false;
                if was && r.contains(x, y) {
                    // "Clicked"
                    EventResult::Handled
                } else if was {
                    EventResult::Redraw
                } else {
                    EventResult::Ignored
                }
            },
        }
    }
}

} // verus!
