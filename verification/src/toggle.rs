use vstd::prelude::*;
use crate::rect::{Rect, signed, tdiv, to_i32};
use crate::widget::{abs_rect, offset_rect, Event, EventResult};

verus! {

/// What a toggle switch answers to `ev`, with its hovered and on flags
/// after it, its rectangle taken relative to `parent`: a move sets hovered
/// to whether the pointer is over the switch (redraw when that changes); a
/// release over the switch flips it (handled); anything else is ignored.
pub open spec fn toggle_step(rect: Rect, hovered: bool, active: bool, ev: Event, parent: Rect) -> (EventResult, bool, bool) {
    let abs = abs_rect(parent, rect);
    match ev {
        Event::MouseMove { x, y } => {
            let now = abs.spec_contains(x as int, y as int);
            (if now != hovered { EventResult::Redraw } else { EventResult::Ignored }, now, active)
        },
        Event::MouseUp { x, y, .. } => {
            if abs.spec_contains(x as int, y as int) {
                (EventResult::Handled, hovered, !active)
            } else {
                (EventResult::Ignored, hovered, active)
            }
        },
        Event::MouseDown { .. } => (EventResult::Ignored, hovered, active),
    }
}

/// The state of a toggle switch that decides what it answers: its
/// rectangle (relative to its parent), whether it is on, and whether the
/// pointer is over it.
pub struct ToggleState {
    pub rect: Rect,
    pub active: bool,
    pub hovered: bool,
}

impl ToggleState {
    /// A 48 x 24 switch at the origin, on or off as asked, not hovered.
    pub fn new(active: bool) -> (t: Self)
        ensures
            t.rect == Rect::new(0, 0, 48, 24),
            t.active == active,
            !t.hovered,
    {
        ToggleState { rect: Rect::new(0, 0, 48, 24), active, hovered: false }
    }

    /// Flips the switch.
    pub fn toggle(&mut self)
        ensures
            final(self).active == !old(self).active,
            final(self).rect == old(self).rect,
            final(self).hovered == old(self).hovered,
    {
        self.active = !self.active;
    }

    /// Turns the switch on or off.
    pub fn set_active(&mut self, active: bool)
        ensures
            final(self).active == active,
            final(self).rect == old(self).rect,
            final(self).hovered == old(self).hovered,
    {
        self.active = active;
    }

    /// Answers an event whose coordinates are canvas-absolute, the switch's
    /// rectangle taken relative to `parent`; see [`toggle_step`].
    pub fn handle_event(&mut self, ev: &Event, parent: Rect) -> (res: EventResult)
        ensures
            (res, final(self).hovered, final(self).active) == toggle_step(old(self).rect, old(self).hovered, old(self).active, *ev, parent),
            final(self).rect == old(self).rect,
    {
        let abs = offset_rect(parent, self.rect);
        match *ev {
            Event::MouseMove { x, y } => {
                let new_hover = abs.contains(x, y);
                let changed = new_hover != self.hovered;
                self.hovered = new_hover;
                if changed {
                    EventResult::Redraw
                } else {
                    EventResult::Ignored
                }
            },
            Event::MouseUp { x, y, .. } => {
                if abs.contains(x, y) {
                    self.toggle();
                    EventResult::Handled
                } else {
                    EventResult::Ignored
                }
            },
            _ => EventResult::Ignored,
        }
    }
}

/// Where along its track a slider's knob goes for a pointer column: at the
/// start of the range when the track has no length, else `offset` pixels
/// along a track of `track` pixels.
#[derive(Clone, Copy, Debug, PartialEq, Eq, Structural)]
pub enum SliderPick {
    Min,
    At { offset: i32, track: i32 },
}

/// The knob position for pointer column `x` (relative to the slider's
/// parent): the track is the width less the height (none when that is not
/// positive as an `i32`), and the offset is `x` less the slider's left edge
/// and half its height (all in wrapping `i32` arithmetic), clamped to the
/// track.
pub open spec fn slider_pick(r: Rect, x: i32) -> SliderPick {
    let track = signed(if r.w > r.h { (r.w - r.h) as u32 } else { 0u32 });
    if track <= 0 {
        SliderPick::Min
    } else {
        let d = x.wrapping_sub(r.x).wrapping_sub(tdiv(signed(r.h), 2) as i32);
        SliderPick::At {
            offset: if d < 0 {
                0i32
            } else if d > track {
                track as i32
            } else {
                d
            },
            track: track as i32,
        }
    }
}

/// What a slider answers to `ev`, its hovered and dragging flags after it,
/// and where its knob is to go (if it moves), its rectangle taken relative
/// to `parent`: while dragging, a move puts the knob under the pointer
/// (redraw); otherwise a move sets hovered (redraw when that changes); a
/// press over the slider starts a drag and puts the knob under the pointer
/// (redraw); a release ends a drag (redraw) and is otherwise ignored.
pub open spec fn slider_step(rect: Rect, hovered: bool, dragging: bool, ev: Event, parent: Rect) -> (
    EventResult,
    bool,
    bool,
    Option<SliderPick>,
) {
    let abs = abs_rect(parent, rect);
    match ev {
        Event::MouseMove { x, y } => {
            if dragging {
                (EventResult::Redraw, hovered, dragging, Some(slider_pick(rect, x.wrapping_sub(parent.x))))
            } else {
                let now = abs.spec_contains(x as int, y as int);
                (if now != hovered { EventResult::Redraw } else { EventResult::Ignored }, now, dragging, None)
            }
        },
        Event::MouseDown { x, y, .. } => {
            if abs.spec_contains(x as int, y as int) {
                (EventResult::Redraw, hovered, true, Some(slider_pick(rect, x.wrapping_sub(parent.x))))
            } else {
                (EventResult::Ignored, hovered, dragging, None)
            }
        },
        Event::MouseUp { .. } => {
            if dragging {
                (EventResult::Redraw, hovered, false, None)
            } else {
                (EventResult::Ignored, hovered, dragging, None)
            }
        },
    }
}

/// The state of a slider that decides what it answers: its rectangle
/// (relative to its parent), whether the pointer is over it, and whether
/// its knob is being dragged.
pub struct SliderState {
    pub rect: Rect,
    pub hovered: bool,
    pub dragging: bool,
}

impl SliderState {
    /// A 200 x 20 slider at the origin, neither hovered nor dragged.
    pub fn new() -> (s: Self)
        ensures
            s.rect == Rect::new(0, 0, 200, 20),
            !s.hovered,
            !s.dragging,
    {
        SliderState { rect: Rect::new(0, 0, 200, 20), hovered: false, dragging: false }
    }

    /// The knob position for pointer column `x`; see [`slider_pick`].
    pub fn pick(&self, x: i32) -> (p: SliderPick)
        ensures
            p == slider_pick(self.rect, x),
    {
        let r = self.rect;
        let track = to_i32(r.w.saturating_sub(r.h));
        if track <= 0 {
            return SliderPick::Min;
        }
        let d = x.wrapping_sub(r.x).wrapping_sub(to_i32(r.h) / 2);
        let offset = if d < 0 {
            0
        } else if d > track {
            track
        } else {
            d
        };
        SliderPick::At { offset, track }
    }

    /// Answers an event whose coordinates are canvas-absolute, the slider's
    /// rectangle taken relative to `parent`, and says where the knob is to
    /// go; see [`slider_step`].
    pub fn handle_event(&mut self, ev: &Event, parent: Rect) -> (res: (EventResult, Option<SliderPick>))
        ensures
            (res.0, final(self).hovered, final(self).dragging, res.1) == slider_step(old(self).rect, old(self).hovered, old(self).dragging, *ev, parent),
            final(self).rect == old(self).rect,
    {
        let abs = offset_rect(parent, self.rect);
        match *ev {
            Event::MouseMove { x, y } => {
                let new_hover = abs.contains(x, y);
                if self.dragging {
                    let p = self.pick(x.wrapping_sub(parent.x));
                    (EventResult::Redraw, Some(p))
                } else {
                    let changed = new_hover != self.hovered;
                    self.hovered = new_hover;
                    if changed {
                        (EventResult::Redraw, None)
                    } else {
                        (EventResult::Ignored, None)
                    }
                }
            },
            Event::MouseDown { x, y, .. } => {
                if abs.contains(x, y) {
                    self.dragging = true;
                    let p = self.pick(x.wrapping_sub(parent.x));
                    (EventResult::Redraw, Some(p))
                } else {
                    (EventResult::Ignored, None)
                }
            },
            Event::MouseUp { .. } => {
                if self.dragging {
                    self.dragging = false;
                    (EventResult::Redraw, None)
                } else {
                    (EventResult::Ignored, None)
                }
            },
        }
    }
}

} // verus!
