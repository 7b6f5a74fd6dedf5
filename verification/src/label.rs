use vstd::prelude::*;
use crate::canvas::{Canvas, text_layers};
use crate::color::Color;
use crate::font::{byte_width, text_ends_within, wrapped_width};
use crate::raster::{apply, fits, paint_rect};
use crate::rect::{Rect, signed, to_i32};
use crate::widget::{Event, EventResult, Widget};
use crate::trace::{replay, Change};

verus! {

broadcast use crate::trace::lemma_replay_first;

/// The state of a [`Label`].
pub struct LabelView {
    pub rect: Rect,
    pub text: Seq<char>,
    pub text_bytes: int,
    pub color: u32,
    pub bg: Option<u32>,
}

/// The pixels `pix` of a `w` x `h` canvas with glyph table `font` after a
/// label is drawn: its background (when it has one) over its rectangle,
/// then its text from 4 pixels right and 2 down of the top-left corner.
pub open spec fn label_image(pix: Seq<u32>, w: int, h: int, font: Seq<u8>, v: LabelView) -> Seq<u32> {
    let filled = match v.bg {
        Some(bg) => apply(pix, w, h, paint_rect(v.rect.x as int, v.rect.y as int, signed(v.rect.w), signed(v.rect.h), bg)),
        None => pix,
    };
    text_layers(filled, w, h, font, v.text, v.rect.x + 4, v.rect.y + 2, 1, v.color, v.text.len() as int)
}

/// Whether a label is drawn: its background rectangle's edges (when it has
/// a background) and the text's origin, 4 right and 2 down, and end, 9
/// pixels a character on, are `i32` values.
pub open spec fn label_drawn(v: LabelView) -> bool {
    let (x, y) = (v.rect.x as int, v.rect.y as int);
    &&& v.bg is Some ==> fits(x, signed(v.rect.w)) && fits(y, signed(v.rect.h))
    &&& x + 4 + v.text.len() * 9 <= i32::MAX
    &&& y + 2 + 13 <= i32::MAX + 1
}

/// A static text label widget.
pub struct Label {
    rect: Rect,
    text: &'static str,
    color: Color,
    bg: Option<Color>,
}

impl View for Label {
    type V = LabelView;

    closed spec fn view(&self) -> LabelView {
        LabelView {
            rect: self.rect,
            text: self.text@,
            text_bytes: self.text.len() as int,
            color: self.color@,
            bg: match self.bg {
                Some(c) => Some(c@),
                None => None,
            },
        }
    }
}

impl Label {
    pub fn new(text: &'static str) -> (l: Self)
        ensures
            l@ == (LabelView {
                rect: Rect::new_spec(0, 0, 64, 16),
                text: text@,
                text_bytes: text.len() as int,
                color: 0xFFCCCCCCu32,
                bg: None,
            }),
    {
        Self { rect: Rect::new(0, 0, 64, 16), text, color: Color::from_u32(0xFFCCCCCC), bg: None }
    }

    /// The label with a background colour.
    pub fn with_bg(self, bg: Color) -> (l: Self)
        ensures
            l@ == (LabelView { bg: Some(bg@), ..self@ }),
    {
        let mut l = self;
        l.bg = Some(bg);
        l
    }

    pub fn set_color(&mut self, color: Color)
        ensures
            final(self)@ == (LabelView { color: color@, ..old(self)@ }),
    {
        self.color = color;
    }
}

/// A label after the change `c`: an event steps it as its
/// `handle_event` does; a move or a resize sets its rectangle as `set_pos`
/// and `set_size` do.
pub open spec fn label_changed(v: LabelView, c: Change) -> LabelView {
    match c {
        Change::Event(e, p) => v,
        Change::MoveTo(x, y) => LabelView { rect: Rect { x, y, ..v.rect }, ..v },
        Change::Resize(w, h) => LabelView { rect: Rect { w, h, ..v.rect }, ..v },
    }
}

/// A label after the changes `ops`, made in turn.
pub open spec fn label_after(v: LabelView, ops: Seq<Change>) -> LabelView {
    replay(v, ops, |u: LabelView, c: Change| label_changed(u, c))
}

impl Widget for Label {
    open spec fn bounds_after(&self, ops: Seq<Change>) -> Rect {
        let v = label_after(self@, ops);
        v.rect
    }

    open spec fn painted_after(&self, ops: Seq<Change>, pix: Seq<u32>, w: int, h: int, font: Seq<u8>) -> Seq<u32> {
        let v = label_after(self@, ops);
        if label_drawn(v) { label_image(pix, w, h, font, v) } else { pix }
    }

    open spec fn answer_after(&self, ops: Seq<Change>, ev: Event, parent: Rect) -> EventResult {
        let v = label_after(self@, ops);
        EventResult::Ignored
    }

    open spec fn painted(&self, pix: Seq<u32>, w: int, h: int, font: Seq<u8>) -> Seq<u32> {
        self.painted_after(Seq::empty(), pix, w, h, font)
    }

    open spec fn answer(&self, ev: Event, parent: Rect) -> EventResult {
        self.answer_after(Seq::empty(), ev, parent)
    }

    open spec fn bounds(&self) -> Rect {
        self@.rect
    }

    open spec fn placeable(&self) -> bool {
        true
    }



    fn rect(&self) -> (r: Rect)
        ensures
            r == self@.rect,
    {
        self.rect
    }

    fn min_size(&self) -> (s: (u32, u32))
        ensures
            s == (wrapped_width(self@.text_bytes, 9), 16u32),
    {
        (byte_width(self.text, 9), 16)
    }

    fn set_pos(&mut self, x: i32, y: i32)
        ensures
            final(self)@ == (LabelView { rect: Rect { x, y, ..old(self)@.rect }, ..old(self)@ }),
    {
        self.rect.x = x;
        self.rect.y = y;
    }

    fn set_size(&mut self, w: u32, h: u32)
        ensures
            final(self)@ == (LabelView { rect: Rect { w, h, ..old(self)@.rect }, ..old(self)@ }),
    {
        self.rect.w = w;
        self.rect.h = h;
    }

    fn draw(&self, canvas: &mut Canvas)
        ensures
            final(canvas)@ == if label_drawn(self@) {
                label_image(old(canvas)@, old(canvas).width as int, old(canvas).height as int, old(canvas).font_view(), self@)
            } else {
                old(canvas)@
            },
    {
        let r = self.rect;
        let (x, y, max) = (r.x as i64, r.y as i64, i32::MAX as i64);
        if self.bg.is_some() && (x + to_i32(r.w) as i64 > max + 1 || y + to_i32(r.h) as i64 > max + 1) {
            return;
        }
        if x + 4 > max || y + 15 > max + 1 {
            return;
        }
        let fits = text_ends_within(self.text, x + 4, 9);
        if !fits {
            return;
        }
        if let Some(bg) = self.bg {
            canvas.fill_rect(r.x, r.y, r.w, r.h, bg);
        }
        canvas.draw_text(r.x + 4, r.y + 2, self.text, self.color);
    }

    fn handle_event(&mut self, _ev: &Event, _parent: Rect) -> (res: EventResult)
        ensures
            res == EventResult::Ignored,
            final(self)@ == old(self)@,
    {
        EventResult::Ignored
    }
}

} // verus!
