use vstd::prelude::*;
use crate::canvas::Canvas;
use crate::rect::Rect;
use crate::trace::Change;

verus! {

/// Event delivered to widgets.
#[derive(Clone, Copy, Debug)]
pub enum Event {
    MouseMove { x: i32, y: i32 },
    MouseDown { x: i32, y: i32, button: u8 },
    MouseUp { x: i32, y: i32, button: u8 },
}

/// Return value from [`Widget::handle_event`].
#[derive(Clone, Copy, Debug, PartialEq, Eq, Structural)]
pub enum EventResult {
    /// Event was consumed by this widget.
    Handled,
    /// Event was not consumed; pass to parent / next widget.
    Ignored,
    /// Widget requests a re-render.
    Redraw,
}

impl Event {
    /// The pointer position the event carries.
    pub open spec fn pos(self) -> (int, int) {
        match self {
            Event::MouseMove { x, y } => (x as int, y as int),
            Event::MouseDown { x, y, .. } => (x as int, y as int),
            Event::MouseUp { x, y, .. } => (x as int, y as int),
        }
    }

    /// The pointer position the event carries.
    pub fn position(&self) -> (p: (i32, i32))
        ensures
            p.0 as int == self.pos().0,
            p.1 as int == self.pos().1,
    {
        match *self {
            Event::MouseMove { x, y } => (x, y),
            Event::MouseDown { x, y, .. } => (x, y),
            Event::MouseUp { x, y, .. } => (x, y),
        }
    }
}

/// Whether a rectangle lies in the `i32` plane: its width and height are
/// `i32` values and so are its right and bottom edges, which drawing it
/// computes. (A wider rectangle would have its size turned into a negative
/// `i32`.)
pub open spec fn drawable(r: Rect) -> bool {
    r.w <= i32::MAX && r.h <= i32::MAX && r.x + r.w <= i32::MAX && r.y + r.h <= i32::MAX
}

/// Tests [`drawable`].
pub fn is_drawable(r: Rect) -> (b: bool)
    ensures
        b == drawable(r),
{
    r.w <= 0x7fff_ffff && r.h <= 0x7fff_ffff && r.x as i64 + r.w as i64 <= 0x7fff_ffff && r.y as i64
        + r.h as i64 <= 0x7fff_ffff
}

/// What a pressable widget (button, tile) answers to an event, and its
/// hovered and pressed flags after it: a move sets hovered to whether the pointer is over the button
/// (redraw when that changes); a press over it sets pressed (redraw); a
/// release clears pressed and is a click when it was pressed and the pointer
/// is over it (redraw when it was pressed elsewhere).
pub open spec fn press_step(rect: Rect, hovered: bool, pressed: bool, ev: Event) -> (EventResult, bool, bool) {
    match ev {
        Event::MouseMove { x, y } => {
            let now = rect.spec_contains(x as int, y as int);
            (if now != hovered { EventResult::Redraw } else { EventResult::Ignored }, now, pressed)
        },
        Event::MouseDown { x, y, .. } => {
            if rect.spec_contains(x as int, y as int) {
                (EventResult::Redraw, hovered, true)
            } else {
                (EventResult::Ignored, hovered, pressed)
            }
        },
        Event::MouseUp { x, y, .. } => {
            if pressed && rect.spec_contains(x as int, y as int) {
                (EventResult::Handled, hovered, false)
            } else if pressed {
                (EventResult::Redraw, hovered, false)
            } else {
                (EventResult::Ignored, hovered, false)
            }
        },
    }
}

/// A widget's rectangle moved by its parent's origin.
pub open spec fn abs_rect(parent: Rect, r: Rect) -> Rect {
    Rect { x: parent.x.wrapping_add(r.x), y: parent.y.wrapping_add(r.y), w: r.w, h: r.h }
}

/// `r` moved by the origin of `parent`.
pub fn offset_rect(parent: Rect, r: Rect) -> (a: Rect)
    ensures
        a == abs_rect(parent, r),
{
    Rect::new(parent.x.wrapping_add(r.x), parent.y.wrapping_add(r.y), r.w, r.h)
}

/// Where a widget whose bounding rectangle is `b` ends up when it is moved
/// to the top-left corner of `area` (if it is placeable) and given `area`'s
/// size.
pub open spec fn placed_in(b: Rect, placeable: bool, area: Rect) -> Rect {
    let moved = if placeable { Rect { x: area.x, y: area.y, ..b } } else { b };
    Rect { w: area.w, h: area.h, ..moved }
}

/// A child (its bounding rectangle and whether it is placeable), if any,
/// after it has been laid out over `area`.
pub open spec fn place_child(child: Option<(Rect, bool)>, area: Rect) -> Option<(Rect, bool)> {
    match child {
        Some((b, p)) => Some((placed_in(b, p, area), p)),
        None => None,
    }
}

/// A child (its bounding rectangle and whether it is placeable), if any,
/// after it has been asked to move to `(x, y)`.
pub open spec fn child_moved_to(child: Option<(Rect, bool)>, x: i32, y: i32) -> Option<(Rect, bool)> {
    match child {
        Some((b, p)) => Some((if p { Rect { x, y, ..b } } else { b }, p)),
        None => None,
    }
}

/// The pixels after `child`, if there is one, is drawn over `pix` (a
/// `w` x `h` canvas with glyph table `font`).
pub open spec fn child_painted(child: Option<Box<dyn Widget>>, pix: Seq<u32>, w: int, h: int, font: Seq<u8>) -> Seq<u32> {
    match child {
        Some(c) => c.painted(pix, w, h, font),
        None => pix,
    }
}

/// Base trait for all widgets.
///
/// A widget's behaviour is stated as what it is after any run of changes
/// (events, moves and resizes): its bounds, what it paints and what it
/// answers. Each method that changes a widget states that it then behaves
/// as the widget did with that change made first.
pub trait Widget {
    /// The widget's bounding rectangle, as [`Widget::rect`] gives it.
    spec fn bounds(&self) -> Rect;

    /// Whether [`Widget::set_pos`] moves the widget (a widget that always
    /// covers the whole screen stays where it is).
    spec fn placeable(&self) -> bool;

    /// The pixels `pix` of a `w` x `h` canvas with glyph table `font` after
    /// the widget is drawn on it.
    spec fn painted(&self, pix: Seq<u32>, w: int, h: int, font: Seq<u8>) -> Seq<u32>;

    /// What the widget answers to `ev` when its parent hands it the
    /// rectangle `parent`.
    spec fn answer(&self, ev: Event, parent: Rect) -> EventResult;

    /// The widget's bounds once the changes `ops` have been made to it.
    spec fn bounds_after(&self, ops: Seq<Change>) -> Rect;

    /// What the widget paints once the changes `ops` have been made to it.
    spec fn painted_after(&self, ops: Seq<Change>, pix: Seq<u32>, w: int, h: int, font: Seq<u8>) -> Seq<u32>;

    /// What the widget answers to `ev` once the changes `ops` have been made
    /// to it.
    spec fn answer_after(&self, ops: Seq<Change>, ev: Event, parent: Rect) -> EventResult;

    /// Draw the widget onto the canvas at its current position.
    fn draw(&self, canvas: &mut Canvas)
        requires
            old(canvas).wf(),
        ensures
            final(canvas).wf(),
            old(canvas).same_frame(&*final(canvas)),
            final(canvas)@ == self.painted(old(canvas)@, old(canvas).width as int, old(canvas).height as int, old(canvas).font_view()),
            final(canvas)@ == self.painted_after(Seq::empty(), old(canvas)@, old(canvas).width as int, old(canvas).height as int, old(canvas).font_view()),
    ;

    /// Handle an input event. The coordinates in the event are canvas-absolute.
    fn handle_event(&mut self, ev: &Event, parent: Rect) -> (res: EventResult)
        ensures
            res == old(self).answer(*ev, parent),
            res == old(self).answer_after(Seq::empty(), *ev, parent),
            forall|ops: Seq<Change>| #[trigger] final(self).bounds_after(ops) == old(self).bounds_after(seq![Change::Event(*ev, parent)] + ops),
            forall|ops: Seq<Change>, pix: Seq<u32>, cw: int, ch: int, font: Seq<u8>|
                #[trigger] final(self).painted_after(ops, pix, cw, ch, font) == old(self).painted_after(seq![Change::Event(*ev, parent)] + ops, pix, cw, ch, font),
            forall|ops: Seq<Change>, e: Event, p: Rect|
                #[trigger] final(self).answer_after(ops, e, p) == old(self).answer_after(seq![Change::Event(*ev, parent)] + ops, e, p),
    ;

    /// The widget's bounding rectangle (canvas-absolute).
    fn rect(&self) -> (r: Rect)
        ensures
            r == self.bounds(),
            r == self.bounds_after(Seq::empty()),
    ;

    /// Return the widget's desired minimum size.
    fn min_size(&self) -> (u32, u32);

    /// Set the widget's position: a placeable widget moves there, keeping
    /// its size; another one stays as it is.
    fn set_pos(&mut self, x: i32, y: i32)
        ensures
            final(self).bounds() == if old(self).placeable() {
                Rect { x, y, ..old(self).bounds() }
            } else {
                old(self).bounds()
            },
            final(self).placeable() == old(self).placeable(),
            forall|ops: Seq<Change>| #[trigger] final(self).bounds_after(ops) == old(self).bounds_after(seq![Change::MoveTo(x, y)] + ops),
            forall|ops: Seq<Change>, pix: Seq<u32>, cw: int, ch: int, font: Seq<u8>|
                #[trigger] final(self).painted_after(ops, pix, cw, ch, font) == old(self).painted_after(seq![Change::MoveTo(x, y)] + ops, pix, cw, ch, font),
            forall|ops: Seq<Change>, e: Event, p: Rect|
                #[trigger] final(self).answer_after(ops, e, p) == old(self).answer_after(seq![Change::MoveTo(x, y)] + ops, e, p),
    ;

    /// Set the widget's size, keeping its position.
    fn set_size(&mut self, w: u32, h: u32)
        ensures
            final(self).bounds() == (Rect { w, h, ..old(self).bounds() }),
            final(self).placeable() == old(self).placeable(),
            forall|ops: Seq<Change>| #[trigger] final(self).bounds_after(ops) == old(self).bounds_after(seq![Change::Resize(w, h)] + ops),
            forall|ops: Seq<Change>, pix: Seq<u32>, cw: int, ch: int, font: Seq<u8>|
                #[trigger] final(self).painted_after(ops, pix, cw, ch, font) == old(self).painted_after(seq![Change::Resize(w, h)] + ops, pix, cw, ch, font),
            forall|ops: Seq<Change>, e: Event, p: Rect|
                #[trigger] final(self).answer_after(ops, e, p) == old(self).answer_after(seq![Change::Resize(w, h)] + ops, e, p),
    ;
}

} // verus!
