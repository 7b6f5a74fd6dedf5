use vstd::prelude::*;
use crate::canvas::Canvas;
use crate::color::Color;
use crate::raster::{apply, fits, paint_round_rect, paint_stroke};
use crate::rect::{Rect, signed, to_i32};
use crate::widget::{child_painted, place_child, Event, EventResult, Widget};
use crate::trace::{Change, relay, layout_changes, child_follows, child_painted_after};

verus! {

broadcast use {crate::trace::lemma_relay_first, crate::trace::lemma_nothing_first};

/// The state of a [`Panel`] (its child aside).
pub struct PanelView {
    pub rect: Rect,
    pub has_child: bool,
    pub bg: u32,
    pub border: u32,
    pub padding: u32,
}

/// The panel's scale: a fifth of its shorter side in 160-pixel steps,
/// between 1 and 4.
pub open spec fn panel_scale(r: Rect) -> u32 {
    let m = if r.w < r.h { r.w } else { r.h };
    let min_side = if m < 1 { 1 } else { m };
    let q = min_side / 160;
    if q < 1 {
        1
    } else if q > 4 {
        4
    } else {
        q
    }
}

/// Padding between the panel's edge and its child: the configured padding
/// plus half a line plus two pixels per scale step (wrapping `i32`).
pub open spec fn panel_padding(v: PanelView) -> i32 {
    (signed(v.padding) as i32).wrapping_add(6).wrapping_add((panel_scale(v.rect) * 2) as i32)
}

/// Corner radius: half a line plus three pixels per scale step, at most a
/// quarter of the shorter side, at least 4.
pub open spec fn panel_radius(r: Rect) -> u32 {
    let base = 6 + panel_scale(r) * 3;
    let min_side = if r.w < r.h { r.w } else { r.h };
    let capped: int = if base < min_side / 4 { base } else { (min_side / 4) as int };
    (if capped > 4 { capped } else { 4 }) as u32
}

/// The pixels `pix` of a `w` x `h` canvas after a panel is drawn (its
/// child aside): its rounded rectangle filled and outlined, rounded by
/// [`panel_radius`].
pub open spec fn panel_image(pix: Seq<u32>, w: int, h: int, v: PanelView) -> Seq<u32> {
    let r = v.rect;
    let radius = panel_radius(r);
    let filled = apply(pix, w, h, paint_round_rect(r.x as int, r.y as int, r.w, r.h, radius, v.bg));
    apply(filled, w, h, paint_stroke(r.x as int, r.y as int, r.w, r.h, radius, v.border))
}

/// Whether a panel is drawn: its width and height are `i32` values and so
/// are the ends of its rows and columns.
pub open spec fn panel_drawn(r: Rect) -> bool {
    r.w <= i32::MAX && r.h <= i32::MAX && fits(r.x as int, r.w as int) && fits(r.y as int, r.h as int)
}

/// The area the child is laid out in: the panel inset by the padding on
/// every side (sizes saturating at 0).
pub open spec fn panel_content(v: PanelView) -> Rect {
    let pad = panel_padding(v);
    let twice = (pad as u32).wrapping_mul(2);
    Rect {
        x: v.rect.x.wrapping_add(pad),
        y: v.rect.y.wrapping_add(pad),
        w: if v.rect.w >= twice { (v.rect.w - twice) as u32 } else { 0 },
        h: if v.rect.h >= twice { (v.rect.h - twice) as u32 } else { 0 },
    }
}

/// A panel after the change `c`, and the changes it makes to its child
/// meanwhile: an event inside the content area (when there is a child) is
/// handed on with the content area as the parent rectangle; a move or a
/// resize sets the rectangle and lays the child out over the new content
/// area.
pub open spec fn panel_changed(v: PanelView, c: Change) -> (PanelView, Seq<Change>) {
    match c {
        Change::Event(e, p) => (
            v,
            if v.has_child && panel_content(v).spec_contains(e.pos().0, e.pos().1) {
                seq![Change::Event(e, panel_content(v))]
            } else {
                Seq::empty()
            },
        ),
        Change::MoveTo(x, y) => {
            let u = PanelView { rect: Rect { x, y, ..v.rect }, ..v };
            (u, layout_changes(panel_content(u)))
        },
        Change::Resize(w, h) => {
            let u = PanelView { rect: Rect { w, h, ..v.rect }, ..v };
            (u, layout_changes(panel_content(u)))
        },
    }
}

/// A panel after the changes `ops`, made in turn, and the changes made to
/// its child meanwhile.
pub open spec fn panel_after(v: PanelView, ops: Seq<Change>) -> (PanelView, Seq<Change>) {
    relay(v, ops, |u: PanelView, c: Change| panel_changed(u, c))
}

/// A container widget that draws a rounded panel around a child widget.
pub struct Panel {
    rect: Rect,
    child: Option<Box<dyn Widget>>,
    bg: Color,
    border: Color,
    padding: u32,
}

impl View for Panel {
    type V = PanelView;

    closed spec fn view(&self) -> PanelView {
        PanelView {
            rect: self.rect,
            has_child: self.child is Some,
            bg: self.bg@,
            border: self.border@,
            padding: self.padding,
        }
    }
}

impl Panel {
    pub fn new(child: Option<Box<dyn Widget>>) -> (p: Self)
        ensures
            p@ == (PanelView {
                rect: Rect::new_spec(0, 0, 240, 120),
                has_child: child is Some,
                bg: 0xFF1D1D35u32,
                border: 0xFF3F3F6Au32,
                padding: 10,
            }),
            p.child_widget() == child,
    {
        Self {
            rect: Rect::new(0, 0, 240, 120),
            child,
            bg: Color::from_u32(0xFF1D1D35),
            border: Color::from_u32(0xFF3F3F6A),
            padding: 10,
        }
    }

    pub fn set_colors(&mut self, bg: Color, border: Color)
        ensures
            final(self)@ == (PanelView { bg: bg@, border: border@, ..old(self)@ }),
    {
        self.bg = bg;
        self.border = border;
    }

    /// Sets the padding and lays the child out in the new content area.
    pub fn set_padding(&mut self, padding: u32)
        ensures
            final(self)@ == (PanelView { padding, ..old(self)@ }),
            final(self).child_place() == place_child(old(self).child_place(), panel_content(final(self)@)),
            child_follows(final(self).child_widget(), old(self).child_widget(), layout_changes(panel_content(final(self)@))),
    {
        self.padding = padding;
        self.update_child_layout();
    }

    fn scale(&self) -> (s: u32)
        ensures
            s == panel_scale(self.rect),
    {
        let m = if self.rect.w < self.rect.h {
            self.rect.w
        } else {
            self.rect.h
        };
        let min_side = if m < 1 {
            1
        } else {
            m
        };
        let q = min_side / 160;
        if q < 1 {
            1
        } else if q > 4 {
            4
        } else {
            q
        }
    }

    fn padding_px(&self) -> (p: i32)
        ensures
            p == panel_padding(self@),
    {
        let scale = self.scale() as i32;
        to_i32(self.padding).wrapping_add(13 / 2).wrapping_add(scale * 2)
    }

    fn radius_px(&self) -> (r: u32)
        ensures
            r == panel_radius(self.rect),
    {
        let scale = self.scale();
        let min_side = if self.rect.w < self.rect.h {
            self.rect.w
        } else {
            self.rect.h
        };
        let base = (13 / 2) + (scale * 3);
        let capped = if base < min_side / 4 {
            base
        } else {
            min_side / 4
        };
        if capped > 4 {
            capped
        } else {
            4
        }
    }

    fn content_rect(&self) -> (r: Rect)
        ensures
            r == panel_content(self@),
    {
        let pad = self.padding_px();
        let twice = (pad as u32).wrapping_mul(2);
        let w = self.rect.w.saturating_sub(twice);
        let h = self.rect.h.saturating_sub(twice);
        Rect::new(self.rect.x.wrapping_add(pad), self.rect.y.wrapping_add(pad), w, h)
    }

    /// The child widget, if any.
    pub closed spec fn child_widget(&self) -> Option<Box<dyn Widget>> {
        self.child
    }

    /// The child's bounding rectangle and whether it is placeable, if
    /// there is a child.
    pub closed spec fn child_place(&self) -> Option<(Rect, bool)> {
        match self.child {
            Some(c) => Some((c.bounds(), c.placeable())),
            None => None,
        }
    }

    /// Places the child (if any) over the content area: moves it to the
    /// area's top-left corner and gives it the area's size.
    fn update_child_layout(&mut self)
        ensures
            final(self)@ == old(self)@,
            final(self).child_place() == place_child(old(self).child_place(), panel_content(old(self)@)),
            child_follows(final(self).child_widget(), old(self).child_widget(), layout_changes(panel_content(old(self)@))),
    {
        let cr = self.content_rect();
        if let Some(ref mut child) = self.child {
            let ghost c0 = *child;
            child.set_pos(cr.x, cr.y);
            let ghost c1 = *child;
            child.set_size(cr.w, cr.h);
            proof {
                let (m, r) = (seq![Change::MoveTo(cr.x, cr.y)], seq![Change::Resize(cr.w, cr.h)]);
                assert forall|ops: Seq<Change>| #[trigger] child.bounds_after(ops) == c0.bounds_after(layout_changes(cr) + ops) by {
                    assert(m + (r + ops) =~= layout_changes(cr) + ops);
                    assert(c1.bounds_after(r + ops) == c0.bounds_after(m + (r + ops)));
                }
                assert forall|ops: Seq<Change>, pix: Seq<u32>, cw: int, ch: int, font: Seq<u8>|
                    #[trigger] child.painted_after(ops, pix, cw, ch, font) == c0.painted_after(layout_changes(cr) + ops, pix, cw, ch, font) by {
                    assert(m + (r + ops) =~= layout_changes(cr) + ops);
                    assert(c1.painted_after(r + ops, pix, cw, ch, font) == c0.painted_after(m + (r + ops), pix, cw, ch, font));
                }
                assert forall|ops: Seq<Change>, e: Event, p: Rect|
                    #[trigger] child.answer_after(ops, e, p) == c0.answer_after(layout_changes(cr) + ops, e, p) by {
                    assert(m + (r + ops) =~= layout_changes(cr) + ops);
                    assert(c1.answer_after(r + ops, e, p) == c0.answer_after(m + (r + ops), e, p));
                }
            }
        }
    }
}

impl Widget for Panel {
    open spec fn bounds(&self) -> Rect {
        self@.rect
    }

    open spec fn placeable(&self) -> bool {
        true
    }

    /// The panel, then its child over it; nothing when the panel does not
    /// lie in the `i32` plane.
    open spec fn painted(&self, pix: Seq<u32>, w: int, h: int, font: Seq<u8>) -> Seq<u32> {
        if panel_drawn(self@.rect) {
            child_painted(self.child_widget(), panel_image(pix, w, h, self@), w, h, font)
        } else {
            pix
        }
    }

    /// The child's answer, with the content area as its parent rectangle,
    /// to an event inside the content area; otherwise `Ignored`.
    open spec fn answer(&self, ev: Event, parent: Rect) -> EventResult {
        match self.child_widget() {
            Some(c) => if panel_content(self@).spec_contains(ev.pos().0, ev.pos().1) {
                c.answer(ev, panel_content(self@))
            } else {
                EventResult::Ignored
            },
            None => EventResult::Ignored,
        }
    }

    open spec fn bounds_after(&self, ops: Seq<Change>) -> Rect {
        panel_after(self@, ops).0.rect
    }

    open spec fn painted_after(&self, ops: Seq<Change>, pix: Seq<u32>, w: int, h: int, font: Seq<u8>) -> Seq<u32> {
        let (u, cs) = panel_after(self@, ops);
        if panel_drawn(u.rect) {
            child_painted_after(self.child_widget(), cs, panel_image(pix, w, h, u), w, h, font)
        } else {
            pix
        }
    }

    open spec fn answer_after(&self, ops: Seq<Change>, ev: Event, parent: Rect) -> EventResult {
        let (u, cs) = panel_after(self@, ops);
        match self.child_widget() {
            Some(c) => if panel_content(u).spec_contains(ev.pos().0, ev.pos().1) {
                c.answer_after(cs, ev, panel_content(u))
            } else {
                EventResult::Ignored
            },
            None => EventResult::Ignored,
        }
    }

    fn rect(&self) -> (r: Rect)
        ensures
            r == self@.rect,
    {
        self.rect
    }

    fn min_size(&self) -> (s: (u32, u32))
        ensures
            !self@.has_child ==> s == ({
                let pad = self@.padding.wrapping_add(12).wrapping_mul(2);
                (45u32.wrapping_add(pad), 13u32.wrapping_add(pad))
            }),
    {
        let (cw, ch) = if let Some(ref child) = self.child {
            child.min_size()
        } else {
            (45, 13)
        };
        let pad = self.padding.wrapping_add(13 / 2 + 6);
        (cw.wrapping_add(pad.wrapping_mul(2)), ch.wrapping_add(pad.wrapping_mul(2)))
    }

    fn set_pos(&mut self, x: i32, y: i32)
        ensures
            final(self)@ == (PanelView { rect: Rect { x, y, ..old(self)@.rect }, ..old(self)@ }),
            final(self).child_place() == place_child(old(self).child_place(), panel_content(final(self)@)),
    {
        self.rect.x = x;
        self.rect.y = y;
        self.update_child_layout();
    }

    fn set_size(&mut self, w: u32, h: u32)
        ensures
            final(self)@ == (PanelView { rect: Rect { w, h, ..old(self)@.rect }, ..old(self)@ }),
            final(self).child_place() == place_child(old(self).child_place(), panel_content(final(self)@)),
    {
        self.rect.w = w;
        self.rect.h = h;
        self.update_child_layout();
    }

    fn draw(&self, canvas: &mut Canvas)
        ensures
            !panel_drawn(self@.rect) ==> final(canvas)@ == old(canvas)@,
            panel_drawn(self@.rect) && !self@.has_child ==> final(canvas)@ == panel_image(
                old(canvas)@,
                old(canvas).width as int,
                old(canvas).height as int,
                self@,
            ),
    {
        let r = self.rect;
        if r.w > 0x7fff_ffff || r.h > 0x7fff_ffff || r.x as i64 + r.w as i64 > 0x8000_0000 || r.y as i64 + r.h as i64
            > 0x8000_0000 {
            return;
        }
        let radius = self.radius_px();
        canvas.fill_round_rect(r.x, r.y, r.w, r.h, radius, self.bg);
        canvas.stroke_round_rect(r.x, r.y, r.w, r.h, radius, self.border);

        if let Some(ref child) = self.child {
            child.draw(canvas);
        }
    }

    fn handle_event(&mut self, ev: &Event, _parent: Rect) -> (res: EventResult)
        ensures
            final(self)@ == old(self)@,
            !(old(self)@.has_child && panel_content(old(self)@).spec_contains(ev.pos().0, ev.pos().1)) ==> res
                == EventResult::Ignored,
    {
        let cr = self.content_rect();
        if let Some(ref mut child) = self.child {
            let (x, y) = ev.position();
            if cr.contains(x, y) {
                return child.handle_event(ev, cr);
            }
        }
        EventResult::Ignored
    }
}

} // verus!
