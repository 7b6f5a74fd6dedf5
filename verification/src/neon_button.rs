use vstd::prelude::*;
use crate::canvas::{Canvas, text_layers};
use crate::color::{Color, blend_packed, pack_argb, red_of, green_of, blue_of};
use crate::font::{text_ends_within, wrapped_width};
use crate::fx::{glow_rect, paint_glow_rect};
use crate::raster::{apply, paint_round_rect, paint_stroke, round_radius};
use crate::rect::{Rect, signed, tdiv};
use crate::widget::{abs_rect, offset_rect, Event, EventResult, Widget};
use crate::trace::{replay, Change};

verus! {

broadcast use crate::trace::lemma_replay_first;

/// The state of a [`NeonButton`].
pub struct NeonButtonView {
    pub rect: Rect,
    pub text: Seq<char>,
    pub text_bytes: int,
    pub neon_color: u32,
    pub hovered: bool,
    pub pressed: bool,
    pub bg_color: u32,
    pub text_color: u32,
    pub corner_radius: u32,
    pub glow_intensity: u8,
}

/// What a neon button answers to `ev` and its hovered and pressed flags
/// after it, its rectangle taken relative to `parent`: a move sets hovered
/// (redraw when that changes); a press over it sets pressed (redraw); a
/// release clears pressed and is a click when it was pressed over the
/// button, else a redraw.
pub open spec fn neon_step(rect: Rect, hovered: bool, pressed: bool, ev: Event, parent: Rect) -> (EventResult, bool, bool) {
    let abs = abs_rect(parent, rect);
    match ev {
        Event::MouseMove { x, y } => {
            let now = abs.spec_contains(x as int, y as int);
            (if now != hovered { EventResult::Redraw } else { EventResult::Ignored }, now, pressed)
        },
        Event::MouseDown { x, y, .. } => {
            if abs.spec_contains(x as int, y as int) {
                (EventResult::Redraw, hovered, true)
            } else {
                (EventResult::Ignored, hovered, pressed)
            }
        },
        Event::MouseUp { x, y, .. } => {
            if pressed && abs.spec_contains(x as int, y as int) {
                (EventResult::Handled, hovered, false)
            } else {
                (EventResult::Redraw, hovered, false)
            }
        },
    }
}

/// The pixels `pix` of a `w` x `h` canvas with glyph table `font` after a
/// neon button is drawn: when hovered, a glow of twice its intensity (at
/// most 255) around it; its rounded rectangle filled with its fill colour
/// (mixed towards the neon colour when hovered or pressed); its outline in
/// the neon colour at alpha 120; and its text centred (9 pixels per byte,
/// 13 rows high).
pub open spec fn neon_image(pix: Seq<u32>, w: int, h: int, font: Seq<u8>, v: NeonButtonView) -> Seq<u32> {
    let r = v.rect;
    let glow: u8 = if v.hovered {
        if v.glow_intensity > 127 { 255u8 } else { (v.glow_intensity * 2) as u8 }
    } else {
        v.glow_intensity
    };
    let bg = if v.pressed {
        blend_packed(v.neon_color, v.bg_color, 100)
    } else if v.hovered {
        blend_packed(v.neon_color, v.bg_color, 60)
    } else {
        v.bg_color
    };
    let glowed = if v.hovered {
        apply(pix, w, h, paint_glow_rect(r.x as int, r.y as int, r.w, r.h, v.corner_radius, v.neon_color, glow))
    } else {
        pix
    };
    let filled = apply(glowed, w, h, paint_round_rect(r.x as int, r.y as int, r.w, r.h, v.corner_radius, bg));
    let outline = pack_argb(120, red_of(v.neon_color), green_of(v.neon_color), blue_of(v.neon_color));
    let stroked = apply(filled, w, h, paint_stroke(r.x as int, r.y as int, r.w, r.h, v.corner_radius, outline));
    let tx = r.x + tdiv(signed(r.w) - v.text_bytes * 9, 2);
    let ty = r.y + tdiv(signed(r.h) - 13, 2);
    text_layers(stroked, w, h, font, v.text, tx, ty, 1, v.text_color, v.text.len() as int)
}

/// Whether a neon button is drawn: when hovered, its glow, 15 pixels
/// around it, lies in the `i32` plane with a corner radius of at most 46000;
/// its rectangle lies in the `i32` plane with an effective corner radius of
/// at most 46340 (so that its square is an `i32`); its text's width, 9
/// pixels a byte, is an `i32`; and so are the centred text's origin and
/// end, 9 pixels a character on.
pub open spec fn neon_drawn(v: NeonButtonView) -> bool {
    let (x, y, w, h) = (v.rect.x as int, v.rect.y as int, v.rect.w as int, v.rect.h as int);
    let tw = v.text_bytes * 9;
    let tx = x + tdiv(w - tw, 2);
    let ty = y + tdiv(h - 13, 2);
    &&& v.hovered ==> {
        &&& w <= i32::MAX - 30 && h <= i32::MAX - 30
        &&& i32::MIN + 15 <= x && i32::MIN + 15 <= y
        &&& x + w + 15 <= i32::MAX && y + h + 15 <= i32::MAX
        &&& v.corner_radius <= 46000
    }
    &&& w <= i32::MAX && h <= i32::MAX
    &&& x + w <= i32::MAX + 1 && y + h <= i32::MAX + 1
    &&& round_radius(v.corner_radius, v.rect.w, v.rect.h) <= 46340
    &&& tw <= i32::MAX
    &&& i32::MIN <= tx && i32::MIN <= ty
    &&& tx + v.text.len() * 9 <= i32::MAX
    &&& ty + 13 <= i32::MAX + 1
}

/// A button with a glowing neon outline.
pub struct NeonButton {
    rect: Rect,
    text: &'static str,
    neon_color: Color,
    hovered: bool,
    pressed: bool,
    bg_color: Color,
    text_color: Color,
    corner_radius: u32,
    glow_intensity: u8,
}

impl View for NeonButton {
    type V = NeonButtonView;

    closed spec fn view(&self) -> NeonButtonView {
        NeonButtonView {
            rect: self.rect,
            text: self.text@,
            text_bytes: self.text.len() as int,
            neon_color: self.neon_color@,
            hovered: self.hovered,
            pressed: self.pressed,
            bg_color: self.bg_color@,
            text_color: self.text_color@,
            corner_radius: self.corner_radius,
            glow_intensity: self.glow_intensity,
        }
    }
}

impl NeonButton {
    /// Tests [`neon_drawn`].
    fn frame_fits(&self) -> (b: bool)
        ensures
            b == neon_drawn(self@),
    {
        let r = self.rect;
        let (x, y, w, h) = (r.x as i64, r.y as i64, r.w as i64, r.h as i64);
        let (min, max) = (i32::MIN as i64, i32::MAX as i64);
        if self.hovered && (w > max - 30 || h > max - 30 || x < min + 15 || y < min + 15 || x + w + 15 > max
            || y + h + 15 > max || self.corner_radius > 46000) {
            return false;
        }
        if w > max || h > max || x + w > max + 1 || y + h > max + 1 {
            return false;
        }
        let half = if r.w < r.h { r.w / 2 } else { r.h / 2 };
        let eff = if self.corner_radius < half { self.corner_radius } else { half };
        if eff > 46340 || self.text.len() > 238609294 {
            return false;
        }
        let tw = self.text.len() as i64 * 9;
        let tx = x + (w - tw) / 2;
        let ty = y + (h - 13) / 2;
        if tx < min || ty < min || ty + 13 > max + 1 {
            return false;
        }
        let fits = text_ends_within(self.text, tx, 9);
        fits
    }

    pub fn new(text: &'static str) -> (b: Self)
        ensures
            b@ == (NeonButtonView {
                rect: Rect::new_spec(0, 0, 140, 40),
                text: text@,
                text_bytes: text.len() as int,
                neon_color: pack_argb(0xFF, 0, 212, 255),
                hovered: false,
                pressed: false,
                bg_color: pack_argb(30, 0, 212, 255),
                text_color: pack_argb(0xFF, 240, 240, 255),
                corner_radius: 6,
                glow_intensity: 40,
            }),
    {
        Self {
            rect: Rect::new(0, 0, 140, 40),
            text,
            neon_color: Color::from_rgb(0, 212, 255),
            hovered: false,
            pressed: false,
            bg_color: Color::from_argb(30, 0, 212, 255),
            text_color: Color::from_rgb(240, 240, 255),
            corner_radius: 6,
            glow_intensity: 40,
        }
    }

    /// Sets the neon colour; the fill becomes the same colour at alpha 30.
    pub fn set_neon_color(&mut self, color: Color)
        ensures
            final(self)@ == (NeonButtonView {
                neon_color: color@,
                bg_color: pack_argb(30, red_of(color@), green_of(color@), blue_of(color@)),
                ..old(self)@
            }),
    {
        self.neon_color = color;
        self.bg_color = Color::from_argb(30, color.r(), color.g(), color.b());
    }

    pub fn set_text(&mut self, text: &'static str)
        ensures
            final(self)@ == (NeonButtonView { text: text@, text_bytes: text.len() as int, ..old(self)@ }),
    {
        self.text = text;
    }

    pub fn is_hovered(&self) -> (b: bool)
        ensures
            b == self@.hovered,
    {
        self.hovered
    }
}

/// A neon after the change `c`: an event steps it as its
/// `handle_event` does; a move or a resize sets its rectangle as `set_pos`
/// and `set_size` do.
pub open spec fn neon_changed(v: NeonButtonView, c: Change) -> NeonButtonView {
    match c {
        Change::Event(e, p) => { let s = neon_step(v.rect, v.hovered, v.pressed, e, p); NeonButtonView { hovered: s.1, pressed: s.2, ..v } },
        Change::MoveTo(x, y) => NeonButtonView { rect: Rect { x, y, ..v.rect }, ..v },
        Change::Resize(w, h) => NeonButtonView { rect: Rect { w, h, ..v.rect }, ..v },
    }
}

/// A neon after the changes `ops`, made in turn.
pub open spec fn neon_after(v: NeonButtonView, ops: Seq<Change>) -> NeonButtonView {
    replay(v, ops, |u: NeonButtonView, c: Change| neon_changed(u, c))
}

impl Widget for NeonButton {
    open spec fn bounds_after(&self, ops: Seq<Change>) -> Rect {
        let v = neon_after(self@, ops);
        v.rect
    }

    open spec fn painted_after(&self, ops: Seq<Change>, pix: Seq<u32>, w: int, h: int, font: Seq<u8>) -> Seq<u32> {
        let v = neon_after(self@, ops);
        if neon_drawn(v) { neon_image(pix, w, h, font, v) } else { pix }
    }

    open spec fn answer_after(&self, ops: Seq<Change>, ev: Event, parent: Rect) -> EventResult {
        let v = neon_after(self@, ops);
        neon_step(v.rect, v.hovered, v.pressed, ev, parent).0
    }

    open spec fn painted(&self, pix: Seq<u32>, w: int, h: int, font: Seq<u8>) -> Seq<u32> {
        self.painted_after(Seq::empty(), pix, w, h, font)
    }

    open spec fn answer(&self, ev: Event, parent: Rect) -> EventResult {
        self.answer_after(Seq::empty(), ev, parent)
    }

    open spec fn bounds(&self) -> Rect {
        self@.rect
    }

    open spec fn placeable(&self) -> bool {
        true
    }



    fn draw(&self, canvas: &mut Canvas)
        ensures
            final(canvas)@ == if neon_drawn(self@) {
                neon_image(old(canvas)@, old(canvas).width as int, old(canvas).height as int, old(canvas).font_view(), self@)
            } else {
                old(canvas)@
            },
    {
        let r = self.rect;
        if !self.frame_fits() {
            return;
        }
        let glow = if self.hovered {
            if self.glow_intensity > 127 {
                255
            } else {
                self.glow_intensity * 2
            }
        } else {
            self.glow_intensity
        };
        let bg = if self.pressed {
            self.neon_color.blend(self.bg_color, 100)
        } else if self.hovered {
            self.neon_color.blend(self.bg_color, 60)
        } else {
            self.bg_color
        };

        if self.hovered {
            glow_rect(canvas, r.x, r.y, r.w, r.h, self.corner_radius, self.neon_color, glow);
        }

        canvas.fill_round_rect(r.x, r.y, r.w, r.h, self.corner_radius, bg);

        let n = self.neon_color;
        canvas.stroke_round_rect(r.x, r.y, r.w, r.h, self.corner_radius, Color::from_argb(120, n.r(), n.g(), n.b()));

        let tw = (self.text.len() as u32) * 9;
        let tx = r.x + (r.w as i32 - tw as i32) / 2;
        let ty = r.y + (r.h as i32 - 13) / 2;
        canvas.draw_text(tx, ty, self.text, self.text_color);
    }

    fn rect(&self) -> (r: Rect)
        ensures
            r == self@.rect,
    {
        self.rect
    }

    fn min_size(&self) -> (s: (u32, u32))
        ensures
            s.0 == ({
                let tw = wrapped_width(self@.text_bytes, 9).wrapping_add(20);
                if tw > 80 { tw } else { 80u32 }
            }),
            s.1 == 33,
    {
        let tw = crate::font::byte_width(self.text, 9).wrapping_add(20);
        (if tw > 80 {
            tw
        } else {
            80
        }, 13 + 20)
    }

    fn set_pos(&mut self, x: i32, y: i32)
        ensures
            final(self)@ == (NeonButtonView { rect: Rect { x, y, ..old(self)@.rect }, ..old(self)@ }),
    {
        self.rect.x = x;
        self.rect.y = y;
    }

    fn set_size(&mut self, w: u32, h: u32)
        ensures
            final(self)@ == (NeonButtonView { rect: Rect { w, h, ..old(self)@.rect }, ..old(self)@ }),
    {
        self.rect.w = w;
        self.rect.h = h;
    }

    fn handle_event(&mut self, ev: &Event, parent: Rect) -> (res: EventResult)
        ensures
            (res, final(self)@.hovered, final(self)@.pressed) == neon_step(old(self)@.rect, old(self)@.hovered, old(self)@.pressed, *ev, parent),
            final(self)@ == (NeonButtonView { hovered: final(self)@.hovered, pressed: final(self)@.pressed, ..old(self)@ }),
    {
        let abs = offset_rect(parent, self.rect);
        match *ev {
            Event::MouseMove { x, y } => {
                let new_hover = abs.contains(x, y);
                let changed = new_hover != self.hovered;
                self.hovered = new_hover;
                if changed {
                    EventResult::Redraw
                } else {
                    EventResult::Ignored
                }
            },
            Event::MouseDown { x, y, .. } => {
                if abs.contains(x, y) {
                    self.pressed = true;
                    EventResult::Redraw
                } else {
                    EventResult::Ignored
                }
            },
            Event::MouseUp { x, y, .. } => {
                let was_pressed = self.pressed;
                self.pressed = false;
                if was_pressed && abs.contains(x, y) {
                    EventResult::Handled
                } else {
                    EventResult::Redraw
                }
            },
        }
    }
}

} // verus!
