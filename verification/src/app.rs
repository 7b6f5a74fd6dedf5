use vstd::prelude::*;
use crate::canvas::Canvas;
use crate::color::{Color, pack_argb};
use crate::icon::{disc_on, rect_on};
use crate::platform::MouseEvent;
use crate::raster::{apply, paint_gradient};
use crate::rect::Rect;
use crate::widget::{child_painted, Event, Widget};
use crate::trace::{child_follows, Change};

verus! {

/// Position, radius and alpha of background star `i` on a `w` x `h`
/// screen.
pub open spec fn star(i: int, w: int, h: int) -> (int, int, int, u8) {
    ((i * 137 + 50) % w, (i * 251 + 100) % h, 1 + i % 3, (8 + i % 20) as u8)
}

/// The pixels after the first `k` background stars are drawn.
pub open spec fn stars(p: Seq<u32>, w: int, h: int, k: int) -> Seq<u32>
    decreases k,
{
    if k <= 0 {
        p
    } else {
        let (x, y, r, a) = star(k - 1, w, h);
        disc_on(stars(p, w, h, k - 1), w, h, x, y, r, pack_argb(a, 100, 150, 255))
    }
}

/// The desktop background: a vertical gradient from 0xFF1A1A2E down towards
/// 0xFF0F0F1E with twenty faint blue stars over it.
pub open spec fn desktop_bg(p: Seq<u32>, w: int, h: int) -> Seq<u32> {
    stars(apply(p, w, h, paint_gradient(0, 0, w, h, 0xFF1A1A2Eu32, 0xFF0F0F1Eu32)), w, h, 20)
}

/// The pixels after the first `k` cells of the 12 x 12 cursor box have been
/// visited (row by row): the arrow's left edge, top edge and diagonal, its
/// top-left 3 x 3 corner white and the rest dark grey.
pub open spec fn cursor_layers(p: Seq<u32>, w: int, h: int, cx: int, cy: int, k: int) -> Seq<u32>
    decreases k,
{
    if k <= 0 {
        p
    } else {
        let j = k - 1;
        let dx = j % 12;
        let dy = j / 12;
        let prev = cursor_layers(p, w, h, cx, cy, k - 1);
        if dx == 0 || dy == 0 || dx == dy {
            rect_on(prev, w, h, cx + dx, cy + dy, 1, 1, if dx < 3 && dy < 3 { 0xFFFFFFFFu32 } else { 0xFF222222u32 })
        } else {
            prev
        }
    }
}

/// `v` limited to `0..=hi`.
pub open spec fn clamp_cursor(v: int, hi: int) -> int {
    if v < 0 {
        0
    } else if v > hi {
        hi
    } else {
        v
    }
}

/// The events the root widget is handed for a mouse event that leaves the
/// cursor at `(x, y)` on a `w` x `h` screen: a press of button 1 while it
/// is held, a release of it otherwise, then a move; each with the whole
/// screen as the parent rectangle.
pub open spec fn mouse_changes(ev: MouseEvent, x: i32, y: i32, w: u32, h: u32) -> Seq<Change> {
    let screen = Rect { x: 0, y: 0, w, h };
    let button = if ev.buttons & 1 != 0 {
        Event::MouseDown { x, y, button: 1 }
    } else {
        Event::MouseUp { x, y, button: 1 }
    };
    seq![Change::Event(button, screen), Change::Event(Event::MouseMove { x, y }, screen)]
}

/// The state of an [`App`] (its root widget aside).
pub struct AppView {
    pub width: u32,
    pub height: u32,
    pub pixels: Seq<u32>,
    pub depth: Seq<u16>,
    pub has_root: bool,
    pub cursor_x: i32,
    pub cursor_y: i32,
    pub running: bool,
    pub frame_ms: u32,
}

/// A single-window application: a canvas the size of the display, an
/// optional root widget and a mouse cursor.
pub struct App {
    canvas: Canvas,
    root: Option<Box<dyn Widget>>,
    cursor_x: i32,
    cursor_y: i32,
    running: bool,
    frame_ms: u32,
}

impl View for App {
    type V = AppView;

    closed spec fn view(&self) -> AppView {
        AppView {
            width: self.canvas.width,
            height: self.canvas.height,
            pixels: self.canvas@,
            depth: self.canvas.depth_view(),
            has_root: self.root is Some,
            cursor_x: self.cursor_x,
            cursor_y: self.cursor_y,
            running: self.running,
            frame_ms: self.frame_ms,
        }
    }
}

/// Display sizes an application can be set up on: the canvas fits in
/// memory; the width is an `i32` (the background gradient's rows end at it)
/// and not 0, nor is the height (the background's stars are placed modulo
/// both); and the height is short enough for the gradient's row weights to
/// be computed in `u32`.
pub open spec fn screen_ok(width: u32, height: u32) -> bool {
    &&& 0 < width <= i32::MAX
    &&& 0 < height <= 16843009
    &&& width * height <= usize::MAX
}

/// Whether the cursor arrow, 12 pixels across and down from `(x, y)`, has
/// `i32` coordinates.
pub open spec fn cursor_fits(x: i32, y: i32) -> bool {
    x + 11 <= i32::MAX && y + 11 <= i32::MAX
}

/// Tests [`cursor_fits`].
pub fn cursor_in_range(x: i32, y: i32) -> (b: bool)
    ensures
        b == cursor_fits(x, y),
{
    x <= i32::MAX - 11 && y <= i32::MAX - 11
}

/// Tests [`screen_ok`].
pub fn supported_screen(width: u32, height: u32) -> (b: bool)
    ensures
        b == screen_ok(width, height),
{
    if width == 0 || width > 0x7fff_ffff || height == 0 || height > 16843009 {
        return false;
    }
    assert(width * height <= 0x8000_0000 * 0x200_0000) by (nonlinear_arith)
        requires width <= 0x8000_0000, height <= 0x200_0000;
    (width as u64) * (height as u64) <= usize::MAX as u64
}

impl App {
    /// The application's invariant: a well-formed canvas of a supported
    /// size, the cursor on it.
    pub closed spec fn wf(&self) -> bool {
        &&& self.canvas.wf()
        &&& screen_ok(self.canvas.width, self.canvas.height)
        &&& 0 <= self.cursor_x < self.canvas.width
        &&& 0 <= self.cursor_y < self.canvas.height
    }

    /// An application on a `width` x `height` display: the desktop
    /// background drawn, no root widget, the cursor at the top-left corner,
    /// running at a 33 ms frame.
    pub fn new(width: u32, height: u32) -> (a: Self)
        requires
            screen_ok(width, height),
        ensures
            a.wf(),
            a@.width == width,
            a@.height == height,
            a@.pixels == desktop_bg(Seq::new((width * height) as nat, |i: int| 0u32), width as int, height as int),
            !a@.has_root,
            a@.cursor_x == 0,
            a@.cursor_y == 0,
            a@.running,
            a@.frame_ms == 33,
            a@.depth == Seq::new((width * height) as nat, |i: int| 0xFFFFu16),
    {
        let canvas = Canvas::new(width, height);
        let mut app = Self { canvas, root: None, cursor_x: 0, cursor_y: 0, running: true, frame_ms: 33 };
        app.render_desktop_bg();
        app
    }

    /// The canvas the application draws on.
    pub fn canvas(&self) -> (c: &Canvas)
        ensures
            c@ == self@.pixels,
            c.width == self@.width,
            c.height == self@.height,
    {
        &self.canvas
    }

    /// The cursor position.
    pub fn cursor(&self) -> (c: (i32, i32))
        ensures
            c == (self@.cursor_x, self@.cursor_y),
    {
        (self.cursor_x, self.cursor_y)
    }

    pub fn is_running(&self) -> (b: bool)
        ensures
            b == self@.running,
    {
        self.running
    }

    /// Milliseconds between frames.
    pub fn frame_ms(&self) -> (ms: u32)
        ensures
            ms == self@.frame_ms,
    {
        self.frame_ms
    }

    /// The glyph table text is drawn with.
    pub closed spec fn canvas_font(&self) -> Seq<u8> {
        self.canvas.font_view()
    }

    /// The root widget, if any.
    pub closed spec fn root_widget(&self) -> Option<Box<dyn Widget>> {
        self.root
    }

    /// The root widget's bounding rectangle and whether it is placeable, if
    /// there is a root.
    pub closed spec fn root_place(&self) -> Option<(Rect, bool)> {
        match self.root {
            Some(r) => Some((r.bounds(), r.placeable())),
            None => None,
        }
    }

    /// Makes `widget` the root, in place of any earlier one, sized to the
    /// whole screen (its position is left as it is).
    pub fn set_root(&mut self, widget: Box<dyn Widget>)
        requires
            old(self).wf(),
        ensures
            final(self).wf(),
            final(self)@ == (AppView { has_root: true, ..old(self)@ }),
            final(self).root_place() == Some(
                (Rect { w: old(self)@.width, h: old(self)@.height, ..widget.bounds() }, widget.placeable()),
            ),
    {
        let w = self.canvas.width;
        let h = self.canvas.height;
        let mut widget = widget;
        widget.set_size(w, h);
        let root = Some(widget);
        self.root = root;
    }

    /// Draws the desktop background over the whole canvas.
    pub fn render_desktop_bg(&mut self)
        requires
            old(self).wf(),
        ensures
            final(self).wf(),
            final(self)@ == (AppView {
                pixels: desktop_bg(old(self)@.pixels, old(self)@.width as int, old(self)@.height as int),
                ..old(self)@
            }),
            final(self).canvas_font() == old(self).canvas_font(),
            final(self).root_widget() == old(self).root_widget(),
    {
        let w = self.canvas.width;
        let h = self.canvas.height;
        let top = Color::from_u32(0xFF1A1A2E);
        let bot = Color::from_u32(0xFF0F0F1E);
        self.canvas.fill_gradient_v(0, 0, w, h, top, bot);
        let ghost g = self.canvas@;
        let wi = w as i32;
        let hi = h as i32;
        let mut i: i32 = 0;
        while i < 20
            invariant
                0 <= i <= 20,
                self.wf(),
                old(self).canvas.same_frame(&self.canvas),
                screen_ok(w, h),
                wi == w,
                hi == h,
                self.canvas.width == w,
                self.canvas.height == h,
                self.root == old(self).root,
                self.cursor_x == old(self).cursor_x,
                self.cursor_y == old(self).cursor_y,
                self.running == old(self).running,
                self.frame_ms == old(self).frame_ms,
                self.canvas@ == stars(g, w as int, h as int, i as int),
            decreases 20 - i,
        {
            let x = (i * 137 + 50) % wi;
            let y = (i * 251 + 100) % hi;
            assert(x <= i * 137 + 50 && y <= i * 251 + 100) by (nonlinear_arith)
                requires
                    x as int == (i * 137 + 50) as int % wi as int,
                    y as int == (i * 251 + 100) as int % hi as int,
                    0 <= i < 20,
                    wi > 0,
                    hi > 0;
            let r = 1u32 + (i as u32 % 3);
            let alpha = 8 + (i % 20);
            self.canvas.fill_circle(x, y, r, Color::from_argb(alpha as u8, 100, 150, 255));
            i = i + 1;
        }
    }

    /// Draws one frame: black, the desktop background, the root widget (if
    /// any) and the cursor. Always asks for the frame to be shown.
    pub fn render_frame(&mut self) -> (shown: bool)
        requires
            old(self).wf(),
            cursor_fits(old(self)@.cursor_x, old(self)@.cursor_y),
        ensures
            shown,
            final(self).wf(),
            final(self)@ == (AppView {
                pixels: final(self)@.pixels,
                depth: Seq::new(old(self)@.depth.len(), |i: int| 0xFFFFu16),
                ..old(self)@
            }),
            final(self)@.pixels == cursor_layers(
                child_painted(
                    old(self).root_widget(),
                    desktop_bg(
                        Seq::new(old(self)@.pixels.len(), |i: int| 0xFF000000u32),
                        old(self)@.width as int,
                        old(self)@.height as int,
                    ),
                    old(self)@.width as int,
                    old(self)@.height as int,
                    old(self).canvas_font(),
                ),
                old(self)@.width as int,
                old(self)@.height as int,
                old(self)@.cursor_x as int,
                old(self)@.cursor_y as int,
                144,
            ),
    {
        self.canvas.clear(Color::from_u32(0xFF000000));
        self.render_desktop_bg();

        if let Some(ref root) = self.root {
            root.draw(&mut self.canvas);
        }

        let ghost under = self@.pixels;
        self.draw_cursor();
        true
    }

    /// Draws the cursor arrow at the cursor position.
    fn draw_cursor(&mut self)
        requires
            old(self).wf(),
            cursor_fits(old(self)@.cursor_x, old(self)@.cursor_y),
        ensures
            final(self).wf(),
            final(self)@ == (AppView {
                pixels: cursor_layers(
                    old(self)@.pixels,
                    old(self)@.width as int,
                    old(self)@.height as int,
                    old(self)@.cursor_x as int,
                    old(self)@.cursor_y as int,
                    144,
                ),
                ..old(self)@
            }),
    {
        let cx = self.cursor_x;
        let cy = self.cursor_y;
        let ghost p = self.canvas@;
        let ghost (w, h) = (self.canvas.width as int, self.canvas.height as int);
        let mut dy: i32 = 0;
        while dy < 12
            invariant
                0 <= dy <= 12,
                self.wf(),
                old(self).canvas.same_frame(&self.canvas),
                self@ == (AppView { pixels: self@.pixels, ..old(self)@ }),
                cx == old(self).cursor_x,
                cy == old(self).cursor_y,
                cx + 11 <= i32::MAX,
                cy + 11 <= i32::MAX,
                w == old(self).canvas.width,
                h == old(self).canvas.height,
                p == old(self).canvas@,
                self.canvas@ == cursor_layers(p, w, h, cx as int, cy as int, dy * 12),
            decreases 12 - dy,
        {
            let mut dx: i32 = 0;
            while dx < 12
                invariant
                    0 <= dy < 12,
                    0 <= dx <= 12,
                    self.wf(),
                    old(self).canvas.same_frame(&self.canvas),
                    self@ == (AppView { pixels: self@.pixels, ..old(self)@ }),
                    cx == old(self).cursor_x,
                    cy == old(self).cursor_y,
                    cx + 11 <= i32::MAX,
                    cy + 11 <= i32::MAX,
                    w == old(self).canvas.width,
                    h == old(self).canvas.height,
                    p == old(self).canvas@,
                    self.canvas@ == cursor_layers(p, w, h, cx as int, cy as int, dy * 12 + dx),
                decreases 12 - dx,
            {
                let ghost j = dy * 12 + dx;
                assert(j % 12 == dx && j / 12 == dy);
                if dx == 0 || dy == 0 || dx == dy {
                    let px = cx + dx;
                    let py = cy + dy;
                    let col = if dx < 3 && dy < 3 {
                        Color::white()
                    } else {
                        Color::from_u32(0xFF222222)
                    };
                    self.canvas.set_pixel(px, py, col);
                }
                dx = dx + 1;
            }
            dy = dy + 1;
        }
    }

    /// Moves the cursor by a mouse event, kept on the screen, and hands the
    /// root widget a press (button 1 down) or a release, then a move, at the
    /// new position (see [`mouse_changes`]); the root then behaves as it did
    /// with those two events made to it first.
    pub fn on_mouse(&mut self, ev: MouseEvent)
        requires
            old(self).wf(),
            i32::MIN <= old(self)@.cursor_x + ev.dx <= i32::MAX,
            i32::MIN <= old(self)@.cursor_y + ev.dy <= i32::MAX,
        ensures
            final(self).wf(),
            final(self)@ == (AppView {
                cursor_x: clamp_cursor(old(self)@.cursor_x + ev.dx, old(self)@.width - 1) as i32,
                cursor_y: clamp_cursor(old(self)@.cursor_y + ev.dy, old(self)@.height - 1) as i32,
                ..old(self)@
            }),
            child_follows(
                final(self).root_widget(),
                old(self).root_widget(),
                mouse_changes(ev, final(self)@.cursor_x, final(self)@.cursor_y, old(self)@.width, old(self)@.height),
            ),
    {
        let nx = self.cursor_x + ev.dx;
        let ny = self.cursor_y + ev.dy;
        let xmax = self.canvas.width as i32 - 1;
        let ymax = self.canvas.height as i32 - 1;
        self.cursor_x = if nx < 0 {
            0
        } else if nx > xmax {
            xmax
        } else {
            nx
        };
        self.cursor_y = if ny < 0 {
            0
        } else if ny > ymax {
            ymax
        } else {
            ny
        };
        let root_rect = Rect::new(0, 0, self.canvas.width, self.canvas.height);
        let (x, y) = (self.cursor_x, self.cursor_y);
        if let Some(ref mut root) = self.root {
            let ghost r0 = *root;
            let press = if ev.buttons & 1 != 0 {
                Event::MouseDown { x, y, button: 1 }
            } else {
                Event::MouseUp { x, y, button: 1 }
            };
            root.handle_event(&press, root_rect);
            let ghost r1 = *root;
            let moved = Event::MouseMove { x, y };
            root.handle_event(&moved, root_rect);
            proof {
                let (a, b) = (seq![Change::Event(press, root_rect)], seq![Change::Event(moved, root_rect)]);
                let all = mouse_changes(ev, x, y, self.canvas.width, self.canvas.height);
                assert(a + b =~= all);
                assert forall|ops: Seq<Change>| #[trigger] root.bounds_after(ops) == r0.bounds_after(all + ops) by {
                    assert(a + (b + ops) =~= all + ops);
                    assert(r1.bounds_after(b + ops) == r0.bounds_after(a + (b + ops)));
                }
                assert forall|ops: Seq<Change>, pix: Seq<u32>, cw: int, ch: int, font: Seq<u8>|
                    #[trigger] root.painted_after(ops, pix, cw, ch, font) == r0.painted_after(all + ops, pix, cw, ch, font) by {
                    assert(a + (b + ops) =~= all + ops);
                    assert(r1.painted_after(b + ops, pix, cw, ch, font) == r0.painted_after(a + (b + ops), pix, cw, ch, font));
                }
                assert forall|ops: Seq<Change>, e: Event, p: Rect|
                    #[trigger] root.answer_after(ops, e, p) == r0.answer_after(all + ops, e, p) by {
                    assert(a + (b + ops) =~= all + ops);
                    assert(r1.answer_after(b + ops, e, p) == r0.answer_after(a + (b + ops), e, p));
                }
            }
        }
    }
}

} // verus!
