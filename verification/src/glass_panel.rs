use vstd::prelude::*;
use crate::canvas::{Canvas, text_layers};
use crate::color::{Color, pack_argb};
use crate::fx::{glass_image, glass_panel};
use crate::rect::Rect;
use crate::font::text_ends_within;
use crate::widget::{abs_rect, child_painted, place_child, offset_rect, Event, EventResult, Widget};
use crate::trace::{Change, child_bounds, child_follows, child_painted_after, layout_changes};

verus! {

broadcast use {crate::trace::lemma_first_change, crate::trace::lemma_nothing_first};

/// The state of a [`GlassPanel`] (its child aside).
pub struct GlassPanelView {
    pub rect: Rect,
    pub has_child: bool,
    pub tint: u32,
    pub opacity: u8,
    pub radius: u32,
    pub glow_color: u32,
    pub glow_intensity: u8,
    pub title: Option<Seq<char>>,
    pub title_bytes: int,
    pub title_color: u32,
    pub border_color: u32,
}

/// The area the child is laid out in: 8 pixels in from the sides and the
/// bottom, below the title line when there is a title (6 pixels down when
/// there is none).
pub open spec fn glass_content(v: GlassPanelView) -> Rect {
    let title_h: u32 = if v.title is Some { 21 } else { 6 };
    Rect {
        x: v.rect.x.wrapping_add(8),
        y: v.rect.y.wrapping_add(title_h as i32),
        w: if v.rect.w >= 16 { (v.rect.w - 16) as u32 } else { 0 },
        h: if v.rect.h >= title_h + 8 { (v.rect.h - title_h - 8) as u32 } else { 0 },
    }
}

/// The pixels `pix` of a `w` x `h` canvas with glyph table `font` after a
/// glass panel is drawn (its child aside): the glass (see [`glass_image`])
/// and its title, when it has a short one, 12 right and 6 down.
pub open spec fn glass_panel_image(pix: Seq<u32>, w: int, h: int, font: Seq<u8>, v: GlassPanelView) -> Seq<u32> {
    let r = v.rect;
    let glass = glass_image(pix, w, h, r.x as int, r.y as int, r.w, r.h, v.radius, v.tint, v.opacity, v.glow_color, v.glow_intensity);
    match v.title {
        Some(t) => text_layers(glass, w, h, font, t, r.x + 12, r.y + 6, 1, v.title_color, t.len() as int),
        None => glass,
    }
}

/// Whether a glass panel is drawn: its glass and glow, 15 pixels around it,
/// lie in the `i32` plane, its corner radius is at most 46000 (so that its
/// square is an `i32`), and so do its title's origin, 12 right and 6 down,
/// and end, 9 pixels a character on.
pub open spec fn glass_panel_drawn(v: GlassPanelView) -> bool {
    let (x, y, w, h) = (v.rect.x as int, v.rect.y as int, v.rect.w as int, v.rect.h as int);
    &&& w <= i32::MAX - 30
    &&& h <= i32::MAX - 30
    &&& i32::MIN + 15 <= x
    &&& i32::MIN + 15 <= y
    &&& x + w + 15 <= i32::MAX
    &&& y + h + 15 <= i32::MAX
    &&& v.radius <= 46000
    &&& v.title matches Some(t) ==> x + 12 + t.len() * 9 <= i32::MAX && y + 6 + 13 <= i32::MAX + 1
}

/// A child (its bounding rectangle and whether it is placeable), if any,
/// after it has been asked to move by `(dx, dy)` (in wrapping `i32`
/// arithmetic).
pub open spec fn shift_child(child: Option<(Rect, bool)>, dx: i32, dy: i32) -> Option<(Rect, bool)> {
    match child {
        Some((b, p)) => Some((if p { Rect { x: b.x.wrapping_add(dx), y: b.y.wrapping_add(dy), ..b } } else { b }, p)),
        None => None,
    }
}

/// A glass panel after the change `c`, its child's bounds being `cb`, and
/// the changes it makes to its child meanwhile: an event is handed to the
/// child (when there is one) with the panel's rectangle moved by the
/// parent's origin as the parent rectangle; a move moves the child by the
/// same distance (in wrapping `i32` arithmetic); a resize lays the child out
/// over the new content area.
pub open spec fn glass_changed(v: GlassPanelView, cb: Rect, c: Change) -> (GlassPanelView, Seq<Change>) {
    match c {
        Change::Event(e, p) => (
            v,
            if v.has_child { seq![Change::Event(e, abs_rect(p, v.rect))] } else { Seq::empty() },
        ),
        Change::MoveTo(x, y) => (
            GlassPanelView { rect: Rect { x, y, ..v.rect }, ..v },
            seq![Change::MoveTo(cb.x.wrapping_add(x.wrapping_sub(v.rect.x)), cb.y.wrapping_add(y.wrapping_sub(v.rect.y)))],
        ),
        Change::Resize(w, h) => {
            let u = GlassPanelView { rect: Rect { w, h, ..v.rect }, ..v };
            (u, layout_changes(glass_content(u)))
        },
    }
}

/// A glass panel after the changes `ops`, made in turn, with `child` as its
/// child once the changes `hist` have been made to it, and the changes made
/// to the child meanwhile.
pub open spec fn glass_trace(
    v: GlassPanelView,
    child: Option<Box<dyn Widget>>,
    hist: Seq<Change>,
    ops: Seq<Change>,
) -> (GlassPanelView, Seq<Change>)
    decreases ops.len(),
{
    if ops.len() == 0 {
        (v, Seq::empty())
    } else {
        let (v1, out) = glass_changed(v, child_bounds(child, hist), ops[0]);
        let (v2, rest) = glass_trace(v1, child, hist + out, ops.drop_first());
        (v2, out + rest)
    }
}

/// A child that behaves as another with the changes `pre` made first gives
/// the same trace as that one with `pre` added to its history.
proof fn lemma_glass_trace_shift(
    v: GlassPanelView,
    after: Option<Box<dyn Widget>>,
    before: Option<Box<dyn Widget>>,
    pre: Seq<Change>,
    hist: Seq<Change>,
    ops: Seq<Change>,
)
    requires
        forall|h: Seq<Change>| #[trigger] child_bounds(after, h) == child_bounds(before, pre + h),
    ensures
        glass_trace(v, after, hist, ops) == glass_trace(v, before, pre + hist, ops),
    decreases ops.len(),
{
    if ops.len() > 0 {
        let (v1, out) = glass_changed(v, child_bounds(after, hist), ops[0]);
        assert(child_bounds(after, hist) == child_bounds(before, pre + hist));
        assert((pre + hist) + out =~= pre + (hist + out));
        lemma_glass_trace_shift(v1, after, before, pre, hist + out, ops.drop_first());
    }
}

/// A glass panel whose view is what `c` made of another's, and whose child
/// behaves as that one's with the changes `c` made to it first, behaves as
/// the other with `c` made first.
proof fn lemma_glass_follows(after: GlassPanel, before: GlassPanel, c: Change)
    requires
        ({
            let (v1, out) = glass_changed(before@, child_bounds(before.child_widget(), Seq::empty()), c);
            after@ == v1 && child_follows(after.child_widget(), before.child_widget(), out)
        }),
    ensures
        forall|ops: Seq<Change>| #[trigger] after.bounds_after(ops) == before.bounds_after(seq![c] + ops),
        forall|ops: Seq<Change>, pix: Seq<u32>, cw: int, ch: int, font: Seq<u8>|
            #[trigger] after.painted_after(ops, pix, cw, ch, font) == before.painted_after(seq![c] + ops, pix, cw, ch, font),
        forall|ops: Seq<Change>, e: Event, p: Rect|
            #[trigger] after.answer_after(ops, e, p) == before.answer_after(seq![c] + ops, e, p),
{
    let (v1, out) = glass_changed(before@, child_bounds(before.child_widget(), Seq::empty()), c);
    assert(out + Seq::<Change>::empty() =~= out);
    assert forall|ops: Seq<Change>|
        glass_trace(v1, after.child_widget(), Seq::empty(), ops) == glass_trace(v1, before.child_widget(), out, ops) by {
        lemma_glass_trace_shift(v1, after.child_widget(), before.child_widget(), out, Seq::empty(), ops);
    }
}

/// A frosted-glass panel with an optional title and child widget.
pub struct GlassPanel {
    rect: Rect,
    child: Option<Box<dyn Widget>>,
    tint: Color,
    opacity: u8,
    radius: u32,
    glow_color: Color,
    glow_intensity: u8,
    title: Option<&'static str>,
    title_color: Color,
    border_color: Color,
}

impl View for GlassPanel {
    type V = GlassPanelView;

    closed spec fn view(&self) -> GlassPanelView {
        GlassPanelView {
            rect: self.rect,
            has_child: self.child is Some,
            tint: self.tint@,
            opacity: self.opacity,
            radius: self.radius,
            glow_color: self.glow_color@,
            glow_intensity: self.glow_intensity,
            title: match self.title {
                Some(t) => Some(t@),
                None => None,
            },
            title_bytes: match self.title {
                Some(t) => t.len() as int,
                None => 0,
            },
            title_color: self.title_color@,
            border_color: self.border_color@,
        }
    }
}

impl GlassPanel {
    pub fn new() -> (g: Self)
        ensures
            g@ == (GlassPanelView {
                rect: Rect::new_spec(0, 0, 400, 300),
                has_child: false,
                tint: pack_argb(0, 18, 18, 31),
                opacity: 200,
                radius: 12,
                glow_color: pack_argb(0xFF, 0, 212, 255),
                glow_intensity: 30,
                title: None,
                title_bytes: 0,
                title_color: pack_argb(0xFF, 180, 180, 220),
                border_color: pack_argb(40, 0, 212, 255),
            }),
    {
        Self {
            rect: Rect::new(0, 0, 400, 300),
            child: None,
            tint: Color::from_argb(0, 18, 18, 31),
            opacity: 200,
            radius: 12,
            glow_color: Color::from_rgb(0, 212, 255),
            glow_intensity: 30,
            title: None,
            title_color: Color::from_rgb(180, 180, 220),
            border_color: Color::from_argb(40, 0, 212, 255),
        }
    }

    /// Installs the child and lays it out over the content area.
    pub fn set_child(&mut self, child: Box<dyn Widget>)
        ensures
            final(self)@ == (GlassPanelView { has_child: true, ..old(self)@ }),
            final(self).child_place() == place_child(Some((child.bounds(), child.placeable())), glass_content(final(self)@)),
    {
        let installed = Some(child);
        self.child = installed;
        self.update_child_layout();
    }

    /// Tests [`glass_panel_drawn`].
    fn frame_fits(&self) -> (b: bool)
        ensures
            b == glass_panel_drawn(self@),
    {
        let r = self.rect;
        let (x, y, w, h) = (r.x as i64, r.y as i64, r.w as i64, r.h as i64);
        let (min, max) = (i32::MIN as i64, i32::MAX as i64);
        if w > max - 30 || h > max - 30 || x < min + 15 || y < min + 15 || x + w + 15 > max || y + h + 15
            > max || self.radius > 46000 {
            return false;
        }
        match self.title {
            Some(t) => {
                if x + 12 > max || y + 19 > max + 1 {
                    return false;
                }
                let fits = text_ends_within(t, x + 12, 9);
                fits
            },
            None => true,
        }
    }

    pub fn set_title(&mut self, title: &'static str)
        ensures
            final(self)@ == (GlassPanelView { title: Some(title@), title_bytes: title.len() as int, ..old(self)@ }),
    {
        self.title = Some(title);
    }

    pub fn set_colors(&mut self, tint: Color, opacity: u8, glow: Color, glow_intensity: u8)
        ensures
            final(self)@ == (GlassPanelView { tint: tint@, opacity, glow_color: glow@, glow_intensity, ..old(self)@ }),
    {
        self.tint = tint;
        self.opacity = opacity;
        self.glow_color = glow;
        self.glow_intensity = glow_intensity;
    }

    pub fn set_radius(&mut self, radius: u32)
        ensures
            final(self)@ == (GlassPanelView { radius, ..old(self)@ }),
    {
        self.radius = radius;
    }

    fn content_rect(&self) -> (r: Rect)
        ensures
            r == glass_content(self@),
    {
        let title_h: i32 = if self.title.is_some() {
            13 + 8
        } else {
            6
        };
        Rect::new(
            self.rect.x.wrapping_add(8),
            self.rect.y.wrapping_add(title_h),
            self.rect.w.saturating_sub(16),
            self.rect.h.saturating_sub(title_h as u32 + 8),
        )
    }

    /// The child widget, if any.
    pub closed spec fn child_widget(&self) -> Option<Box<dyn Widget>> {
        self.child
    }

    /// The child's bounding rectangle and whether it is placeable, if
    /// there is a child.
    pub closed spec fn child_place(&self) -> Option<(Rect, bool)> {
        match self.child {
            Some(c) => Some((c.bounds(), c.placeable())),
            None => None,
        }
    }

    /// Places the child (if any) over the content area: moves it to the
    /// area's top-left corner and gives it the area's size.
    fn update_child_layout(&mut self)
        ensures
            final(self)@ == old(self)@,
            final(self).child_place() == place_child(old(self).child_place(), glass_content(old(self)@)),
            child_follows(final(self).child_widget(), old(self).child_widget(), layout_changes(glass_content(old(self)@))),
    {
        let cr = self.content_rect();
        if let Some(ref mut child) = self.child {
            let ghost c0 = *child;
            child.set_pos(cr.x, cr.y);
            let ghost c1 = *child;
            child.set_size(cr.w, cr.h);
            proof {
                let (m, r) = (seq![Change::MoveTo(cr.x, cr.y)], seq![Change::Resize(cr.w, cr.h)]);
                assert forall|ops: Seq<Change>| #[trigger] child.bounds_after(ops) == c0.bounds_after(layout_changes(cr) + ops) by {
                    assert(m + (r + ops) =~= layout_changes(cr) + ops);
                    assert(c1.bounds_after(r + ops) == c0.bounds_after(m + (r + ops)));
                }
                assert forall|ops: Seq<Change>, pix: Seq<u32>, cw: int, ch: int, font: Seq<u8>|
                    #[trigger] child.painted_after(ops, pix, cw, ch, font) == c0.painted_after(layout_changes(cr) + ops, pix, cw, ch, font) by {
                    assert(m + (r + ops) =~= layout_changes(cr) + ops);
                    assert(c1.painted_after(r + ops, pix, cw, ch, font) == c0.painted_after(m + (r + ops), pix, cw, ch, font));
                }
                assert forall|ops: Seq<Change>, e: Event, p: Rect|
                    #[trigger] child.answer_after(ops, e, p) == c0.answer_after(layout_changes(cr) + ops, e, p) by {
                    assert(m + (r + ops) =~= layout_changes(cr) + ops);
                    assert(c1.answer_after(r + ops, e, p) == c0.answer_after(m + (r + ops), e, p));
                }
            }
        }
    }
}

impl Widget for GlassPanel {

    open spec fn bounds(&self) -> Rect {
        self@.rect
    }

    open spec fn placeable(&self) -> bool {
        true
    }

    /// The panel, then its child over it; nothing when the panel's
    /// coordinates are not all `i32` values.
    open spec fn painted(&self, pix: Seq<u32>, w: int, h: int, font: Seq<u8>) -> Seq<u32> {
        if glass_panel_drawn(self@) {
            child_painted(self.child_widget(), glass_panel_image(pix, w, h, font, self@), w, h, font)
        } else {
            pix
        }
    }

    /// The child's answer, with the panel's rectangle moved by its
    /// parent's origin as the child's parent rectangle; `Ignored` when
    /// there is no child.
    open spec fn answer(&self, ev: Event, parent: Rect) -> EventResult {
        match self.child_widget() {
            Some(c) => c.answer(ev, abs_rect(parent, self@.rect)),
            None => EventResult::Ignored,
        }
    }

    open spec fn bounds_after(&self, ops: Seq<Change>) -> Rect {
        glass_trace(self@, self.child_widget(), Seq::empty(), ops).0.rect
    }

    open spec fn painted_after(&self, ops: Seq<Change>, pix: Seq<u32>, w: int, h: int, font: Seq<u8>) -> Seq<u32> {
        let (u, cs) = glass_trace(self@, self.child_widget(), Seq::empty(), ops);
        if glass_panel_drawn(u) {
            child_painted_after(self.child_widget(), cs, glass_panel_image(pix, w, h, font, u), w, h, font)
        } else {
            pix
        }
    }

    open spec fn answer_after(&self, ops: Seq<Change>, ev: Event, parent: Rect) -> EventResult {
        let (u, cs) = glass_trace(self@, self.child_widget(), Seq::empty(), ops);
        match self.child_widget() {
            Some(c) => c.answer_after(cs, ev, abs_rect(parent, u.rect)),
            None => EventResult::Ignored,
        }
    }

    fn draw(&self, canvas: &mut Canvas)
        ensures
            !glass_panel_drawn(self@) ==> final(canvas)@ == old(canvas)@,
            glass_panel_drawn(self@) && !self@.has_child ==> final(canvas)@ == glass_panel_image(
                old(canvas)@,
                old(canvas).width as int,
                old(canvas).height as int,
                old(canvas).font_view(),
                self@,
            ),
    {
        let r = self.rect;
        if !self.frame_fits() {
            return;
        }
        glass_panel(canvas, r.x, r.y, r.w, r.h, self.radius, self.tint, self.opacity, self.glow_color, self.glow_intensity);

        if let Some(title) = self.title {
            canvas.draw_text(r.x + 12, r.y + 6, title, self.title_color);
        }

        if let Some(ref child) = self.child {
            child.draw(canvas);
        }
    }

    fn rect(&self) -> (r: Rect)
        ensures
            r == self@.rect,
    {
        self.rect
    }

    fn min_size(&self) -> (s: (u32, u32))
        ensures
            s == (200u32, 120u32),
    {
        (200, 120)
    }

    /// Moves the panel, and its child by the same distance.
    fn set_pos(&mut self, x: i32, y: i32)
        ensures
            final(self)@ == (GlassPanelView { rect: Rect { x, y, ..old(self)@.rect }, ..old(self)@ }),
            final(self).child_place() == shift_child(
                old(self).child_place(),
                x.wrapping_sub(old(self)@.rect.x),
                y.wrapping_sub(old(self)@.rect.y),
            ),
    {
        let ghost before = *self;
        let dx = x.wrapping_sub(self.rect.x);
        let dy = y.wrapping_sub(self.rect.y);
        self.rect.x = x;
        self.rect.y = y;
        if let Some(ref mut child) = self.child {
            let cr = child.rect();
            child.set_pos(cr.x.wrapping_add(dx), cr.y.wrapping_add(dy));
        }
        proof {
            lemma_glass_follows(*self, before, Change::MoveTo(x, y));
        }
    }

    fn set_size(&mut self, w: u32, h: u32)
        ensures
            final(self)@ == (GlassPanelView { rect: Rect { w, h, ..old(self)@.rect }, ..old(self)@ }),
            final(self).child_place() == place_child(old(self).child_place(), glass_content(final(self)@)),
    {
        let ghost before = *self;
        self.rect.w = w;
        self.rect.h = h;
        self.update_child_layout();
        proof {
            lemma_glass_follows(*self, before, Change::Resize(w, h));
        }
    }

    fn handle_event(&mut self, ev: &Event, parent: Rect) -> (res: EventResult)
        ensures
            final(self)@ == old(self)@,
            !old(self)@.has_child ==> res == EventResult::Ignored,
    {
        let ghost before = *self;
        let abs = offset_rect(parent, self.rect);
        let res = if let Some(ref mut child) = self.child {
            child.handle_event(ev, abs)
        } else {
            EventResult::Ignored
        };
        proof {
            lemma_glass_follows(*self, before, Change::Event(*ev, parent));
        }
        res
    }
}

} // verus!
