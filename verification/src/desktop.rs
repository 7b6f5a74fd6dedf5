use vstd::prelude::*;
use crate::app::clamp_cursor;
use crate::canvas::{Canvas, text_layers};
use crate::color::{Color, pack_argb};
use crate::digits::{clipped, date_bytes, date_text};
use crate::fbtext::byte_text;
use crate::futuristic_clock::byte_chars;
use crate::metro_start::{metro_step, start_drawn, start_image, start_menu, MetroStart, MetroView};
use crate::platform::MouseEvent;
use crate::raster::{apply, paint_full_gradient};
use crate::rect::{Rect, signed, tdiv, to_i32};
use crate::taskbar::{taskbar_drawn, taskbar_image, taskbar_step, TaskBar, TaskBarView};
use crate::widget::{Event, EventResult, Widget};

verus! {

/// A reading of the real-time clock.
#[derive(Clone, Copy, Debug)]
pub struct DateTime {
    pub year: u32,
    pub month: u32,
    pub day: u32,
    pub hour: u32,
    pub minute: u32,
    pub second: u32,
}

/// The state of a [`Desktop`].
pub struct DesktopView {
    pub width: u32,
    pub height: u32,
    pub pixels: Seq<u32>,
    pub depth: Seq<u16>,
    pub font: Seq<u8>,
    pub taskbar: TaskBarView,
    pub start: MetroView,
    pub running: bool,
    pub cursor_x: i32,
    pub cursor_y: i32,
    pub prev_buttons: u8,
    pub time_h: u32,
    pub time_m: u32,
    pub time_s: u32,
    pub date: Seq<u8>,
}

/// Display sizes the desktop can be set up on: the canvas fits in memory,
/// and the task bar's top row, the height read as an `i32` less 48, is an
/// `i32`.
pub open spec fn desktop_screen_ok(width: u32, height: u32) -> bool {
    &&& width * height <= usize::MAX
    &&& signed(height) - 48 >= i32::MIN
}

/// Display sizes on which the cursor can be kept on the screen: each side
/// between 1 and `i32::MAX` pixels.
pub open spec fn pointer_ok(width: u32, height: u32) -> bool {
    &&& 0 < width <= i32::MAX
    &&& 0 < height <= i32::MAX
}

/// Display heights whose gradient rows can be weighted in `u32`.
pub open spec fn gradient_ok(height: u32) -> bool {
    height == 0 || (height - 1) * 255 <= u32::MAX
}

/// The desktop's state after a clock reading: a reading from 2024 on sets
/// the time and the date (`yyyy-mm-dd`, at most 11 bytes); older readings
/// are ignored.
pub open spec fn with_rtc(v: DesktopView, dt: DateTime) -> DesktopView {
    if dt.year >= 2024 {
        DesktopView {
            time_h: dt.hour,
            time_m: dt.minute,
            time_s: dt.second,
            date: clipped(date_bytes(dt.year as nat, dt.month as nat, dt.day as nat), 11),
            ..v
        }
    } else {
        v
    }
}

/// The start screen after a move event while it is open, or the task bar
/// after it while the start screen is closed.
pub open spec fn dispatch_move(v: DesktopView, mev: Event, screen: Rect) -> DesktopView {
    if !v.start.open {
        DesktopView { taskbar: taskbar_step(v.taskbar, mev, screen).1, ..v }
    } else {
        DesktopView { start: metro_step(v.start, mev).1, ..v }
    }
}

/// The desktop after a release: an open start screen gets it (a launch
/// clears the launcher highlight); otherwise the task bar gets it, and a
/// click on the start button toggles the start screen, the highlight
/// following it.
pub open spec fn dispatch_release(v: DesktopView, mev: Event, screen: Rect) -> DesktopView {
    if v.start.open {
        let (r, s2) = metro_step(v.start, mev);
        let v2 = DesktopView { start: s2, ..v };
        if r == EventResult::Handled {
            DesktopView { taskbar: TaskBarView { show_launcher: false, ..v2.taskbar }, ..v2 }
        } else {
            v2
        }
    } else {
        let (r, t2) = taskbar_step(v.taskbar, mev, screen);
        let v2 = DesktopView { taskbar: t2, ..v };
        if r == EventResult::Handled {
            let s2 = MetroView { open: !v2.start.open, hover_idx: -1i32, ..v2.start };
            DesktopView { start: s2, taskbar: TaskBarView { show_launcher: s2.open, ..v2.taskbar }, ..v2 }
        } else {
            v2
        }
    }
}

/// The desktop after one mouse report, and whether the cursor moved: the
/// cursor moves by the report, kept on the screen; a move goes to the
/// start screen when open, else to the task bar; button 1 going up is a
/// release, going down (with the start screen closed) a press on the task
/// bar.
pub open spec fn desktop_input(v: DesktopView, ev: MouseEvent) -> (bool, DesktopView) {
    let nx = clamp_cursor(v.cursor_x + ev.dx, v.width - 1) as i32;
    let ny = clamp_cursor(v.cursor_y + ev.dy, v.height - 1) as i32;
    let moved = nx != v.cursor_x || ny != v.cursor_y;
    let screen = Rect { x: 0, y: 0, w: v.width, h: v.height };
    let v1 = DesktopView { cursor_x: nx, cursor_y: ny, ..v };
    let v2 = if moved {
        dispatch_move(v1, Event::MouseMove { x: nx, y: ny }, screen)
    } else {
        v1
    };
    let pressed = ev.buttons & 1 != 0;
    let was = v.prev_buttons & 1 != 0;
    let v3 = if !pressed && was {
        dispatch_release(v2, Event::MouseUp { x: nx, y: ny, button: 1 }, screen)
    } else {
        v2
    };
    let v4 = if pressed && !was && !v3.start.open {
        DesktopView {
            taskbar: taskbar_step(v3.taskbar, Event::MouseDown { x: nx, y: ny, button: 1 }, screen).1,
            ..v3
        }
    } else {
        v3
    };
    (moved, DesktopView { prev_buttons: ev.buttons, ..v4 })
}

/// The bytes of the large clock: the hours (the tens digit only from 10
/// on), a colon, two digits of minutes, a colon and two of seconds, each
/// digit `b'0'` plus the digit's value (tens taken as a byte).
pub open spec fn big_clock_bytes(h: u32, m: u32, s: u32) -> Seq<u8> {
    let hours = if h >= 10 {
        seq![(48 + (h / 10) % 256) as u8, (48 + h % 10) as u8]
    } else {
        seq![(48 + h % 10) as u8]
    };
    hours + seq![58u8, (48 + (m / 10) % 256) as u8, (48 + m % 10) as u8, 58u8, (48 + (s / 10) % 256) as u8, (
    48 + s % 10) as u8]
}

/// The pixels of a desktop's frame drawn over `pix`: a vertical blue
/// gradient over the whole screen; the time at 4x centred 40 rows above
/// the middle; the date (when there is one) 64 rows below it, 9 pixels per
/// character; the task bar; and the start screen when it is open.
pub open spec fn desktop_image(pix: Seq<u32>, v: DesktopView) -> Seq<u32> {
    let (w, h, font) = (v.width as int, v.height as int, v.font);
    let bg = apply(pix, w, h, paint_full_gradient(h, pack_argb(0xFF, 0, 100, 180), pack_argb(0xFF, 0, 80, 150)));
    let cx = tdiv(signed(v.width), 2);
    let text = big_clock_bytes(v.time_h, v.time_m, v.time_s);
    let tx = cx - text.len() * 36 / 2;
    let ty = tdiv(signed(v.height), 2) - 50 - 26 + 10;
    let clocked = text_layers(bg, w, h, font, byte_chars(text), tx, ty, 4, 0xFFFF_FFFF, text.len() as int);
    let dated = if v.date.len() > 0 {
        byte_text(clocked, w, h, font, v.date, cx - v.date.len() * 9 / 2, ty + 64, 1, pack_argb(0xFF, 200, 220, 255), v.date.len() as int)
    } else {
        clocked
    };
    let barred = if taskbar_drawn(v.taskbar) {
        taskbar_image(dated, w, h, font, v.taskbar)
    } else {
        dated
    };
    if start_drawn(v.start) {
        start_image(barred, w, h, font, v.start)
    } else {
        barred
    }
}

/// Whether every tens digit of the large clock is a byte value `b'0'` can
/// be added to.
pub open spec fn big_clock_ok(h: u32, m: u32, s: u32) -> bool {
    &&& (h / 10) % 256 <= 207
    &&& (m / 10) % 256 <= 207
    &&& (s / 10) % 256 <= 207
}

/// Tests [`desktop_screen_ok`].
pub fn supported_screen(width: u32, height: u32) -> (b: bool)
    ensures
        b == desktop_screen_ok(width, height),
{
    if (to_i32(height) as i64) - 48 < i32::MIN as i64 {
        return false;
    }
    assert(width * height <= 0xFFFF_FFFF * 0xFFFF_FFFF) by (nonlinear_arith)
        requires width <= 0xFFFF_FFFF, height <= 0xFFFF_FFFF;
    let area: u128 = (width as u128) * (height as u128);
    area <= usize::MAX as u128
}

/// Tests [`pointer_ok`].
pub fn pointer_fits(width: u32, height: u32) -> (b: bool)
    ensures
        b == pointer_ok(width, height),
{
    0 < width && width <= 0x7fff_ffff && 0 < height && height <= 0x7fff_ffff
}

/// Tests [`big_clock_ok`].
pub fn clock_fits(h: u32, m: u32, s: u32) -> (b: bool)
    ensures
        b == big_clock_ok(h, m, s),
{
    (h / 10) % 256 <= 207 && (m / 10) % 256 <= 207 && (s / 10) % 256 <= 207
}

/// The desktop shell: a full-screen clock on a blue gradient, a task bar
/// and a start screen.
pub struct Desktop {
    canvas: Canvas,
    taskbar: TaskBar,
    start: MetroStart,
    running: bool,
    cursor_x: i32,
    cursor_y: i32,
    prev_buttons: u8,
    time_h: u32,
    time_m: u32,
    time_s: u32,
    date: Vec<u8>,
}

impl View for Desktop {
    type V = DesktopView;

    closed spec fn view(&self) -> DesktopView {
        DesktopView {
            width: self.canvas.width,
            height: self.canvas.height,
            pixels: self.canvas@,
            depth: self.canvas.depth_view(),
            font: self.canvas.font_view(),
            taskbar: self.taskbar@,
            start: self.start@,
            running: self.running,
            cursor_x: self.cursor_x,
            cursor_y: self.cursor_y,
            prev_buttons: self.prev_buttons,
            time_h: self.time_h,
            time_m: self.time_m,
            time_s: self.time_s,
            date: self.date@,
        }
    }
}

impl Desktop {
    /// The desktop's invariant: a well-formed canvas, the cursor on it
    /// when the cursor can be kept there, at most 11 bytes of date.
    pub closed spec fn wf(&self) -> bool {
        &&& self.canvas.wf()
        &&& pointer_ok(self.canvas.width, self.canvas.height) ==> {
            &&& 0 <= self.cursor_x < self.canvas.width
            &&& 0 <= self.cursor_y < self.canvas.height
        }
        &&& self.date@.len() <= 11
    }

    /// A desktop on a `width` x `height` display: the task bar 48 pixels
    /// high along the bottom, the start screen closed, the cursor in the
    /// middle, and the time and date from `now` when it is a reading from
    /// 2024 on (else midnight and no date).
    pub fn new(width: u32, height: u32, now: Option<DateTime>) -> (d: Self)
        requires
            desktop_screen_ok(width, height),
        ensures
            d.wf(),
            d@.width == width,
            d@.height == height,
            d@.pixels == Seq::new((width * height) as nat, |i: int| 0u32),
            d@.depth == Seq::new((width * height) as nat, |i: int| 0xFFFFu16),
            d@.font.len() == 0,
            d@.taskbar == (TaskBarView {
                rect: Rect::new_spec(0, (signed(height) - 48) as i32, width, 48),
                show_launcher: false,
                time_h: 0,
                time_m: 0,
                launcher_hover: false,
            }),
            !d@.start.open,
            d@.start.screen_w == width,
            d@.start.screen_h == height,
            d@.start.hover_idx == -1,
            d@.start.launched is None,
            start_menu(d@.start.apps),
            d@.running,
            d@.cursor_x == tdiv(signed(width), 2),
            d@.cursor_y == tdiv(signed(height), 2),
            d@.prev_buttons == 0,
            d@ == (match now {
                Some(dt) => with_rtc(DesktopView { time_h: 0, time_m: 0, time_s: 0, date: Seq::empty(), ..d@ }, dt),
                None => DesktopView { time_h: 0, time_m: 0, time_s: 0, date: Seq::empty(), ..d@ },
            }),
    {
        let canvas = Canvas::new(width, height);

        let mut taskbar = TaskBar::new();
        taskbar.set_size(width, 48);
        taskbar.set_pos(0, to_i32(height) - 48);

        let start = MetroStart::new(width, height);

        let mut d = Self {
            canvas,
            taskbar,
            start,
            running: true,
            cursor_x: to_i32(width) / 2,
            cursor_y: to_i32(height) / 2,
            prev_buttons: 0,
            time_h: 0,
            time_m: 0,
            time_s: 0,
            date: Vec::new(),
        };
        let ghost blank = d@;
        assert(blank.date =~= Seq::empty());
        if let Some(dt) = now {
            d.apply_rtc(dt);
        }
        d
    }

    /// Takes a clock reading: one from 2024 on sets the time and the date.
    pub fn apply_rtc(&mut self, dt: DateTime)
        requires
            old(self).wf(),
        ensures
            final(self).wf(),
            final(self)@ == with_rtc(old(self)@, dt),
    {
        if dt.year >= 2024 {
            self.time_h = dt.hour;
            self.time_m = dt.minute;
            self.time_s = dt.second;
            self.date = date_text(dt.year, dt.month, dt.day, 11);
        }
    }

    /// Shows the current hours and minutes on the task bar.
    pub fn show_time(&mut self)
        requires
            old(self).wf(),
        ensures
            final(self).wf(),
            final(self)@ == (DesktopView {
                taskbar: TaskBarView { time_h: old(self)@.time_h, time_m: old(self)@.time_m, ..old(self)@.taskbar },
                ..old(self)@
            }),
    {
        let (h, m) = (self.time_h, self.time_m);
        self.taskbar.set_time(h, m);
    }

    /// After a clock reading: when the seconds differ from `last_s`, shows
    /// the time on the task bar; returns the seconds now shown.
    pub fn sync_clock(&mut self, last_s: u32) -> (shown_s: u32)
        requires
            old(self).wf(),
        ensures
            final(self).wf(),
            old(self)@.time_s != last_s ==> shown_s == old(self)@.time_s && final(self)@ == (DesktopView {
                taskbar: TaskBarView { time_h: old(self)@.time_h, time_m: old(self)@.time_m, ..old(self)@.taskbar },
                ..old(self)@
            }),
            old(self)@.time_s == last_s ==> shown_s == last_s && final(self)@ == old(self)@,
    {
        if self.time_s != last_s {
            self.show_time();
            return self.time_s;
        }
        last_s
    }

    /// The canvas the desktop draws on.
    pub fn canvas(&self) -> (c: &Canvas)
        ensures
            c.width == self@.width,
            c.height == self@.height,
            c@ == self@.pixels,
            c.font_view() == self@.font,
    {
        &self.canvas
    }

    /// The cursor position.
    pub fn cursor(&self) -> (c: (i32, i32))
        ensures
            c == (self@.cursor_x, self@.cursor_y),
    {
        (self.cursor_x, self.cursor_y)
    }

    pub fn is_running(&self) -> (b: bool)
        ensures
            b == self@.running,
    {
        self.running
    }

    /// The time of day: hours, minutes and seconds.
    pub fn time(&self) -> (t: (u32, u32, u32))
        ensures
            t == (self@.time_h, self@.time_m, self@.time_s),
    {
        (self.time_h, self.time_m, self.time_s)
    }

    /// The launch recorded by the start screen, if any, cleared as it is
    /// taken.
    pub fn take_launched(&mut self) -> (i: Option<usize>)
        requires
            old(self).wf(),
        ensures
            final(self).wf(),
            i == old(self)@.start.launched,
            final(self)@ == (DesktopView { start: MetroView { launched: None, ..old(self)@.start }, ..old(self)@ }),
    {
        self.start.take_launched()
    }

    /// The bytes of the large clock for the current time.
    fn clock_text(&self) -> (t: Vec<u8>)
        requires
            big_clock_ok(self.time_h, self.time_m, self.time_s),
        ensures
            t@ == big_clock_bytes(self.time_h, self.time_m, self.time_s),
            t@.len() <= 8,
    {
        let (hm, mm, sm) = (self.time_h, self.time_m, self.time_s);
        let mut buf: Vec<u8> = Vec::new();
        if hm >= 10 {
            let tens = ((hm / 10) % 256) as u8;
            buf.push(48 + tens);
        }
        buf.push(48 + (hm % 10) as u8);
        buf.push(58);
        let mt = ((mm / 10) % 256) as u8;
        buf.push(48 + mt);
        buf.push(48 + (mm % 10) as u8);
        buf.push(58);
        let st = ((sm / 10) % 256) as u8;
        buf.push(48 + st);
        buf.push(48 + (sm % 10) as u8);
        assert(buf@ =~= big_clock_bytes(hm, mm, sm));
        buf
    }

    /// Draws one frame: the blue gradient, the large clock and the date in
    /// the middle, the task bar, and the start screen when it is open.
    pub fn render_frame(&mut self)
        requires
            old(self).wf(),
            big_clock_ok(old(self)@.time_h, old(self)@.time_m, old(self)@.time_s),
            gradient_ok(old(self)@.height),
        ensures
            final(self).wf(),
            final(self)@ == (DesktopView {
                pixels: desktop_image(old(self)@.pixels, old(self)@),
                depth: Seq::new(old(self)@.depth.len(), |i: int| 0xFFFFu16),
                ..old(self)@
            }),
    {
        let ghost (v0, sw, sh, font) = (self@, self.canvas.width as int, self.canvas.height as int, self.canvas.font_view());
        let w = self.canvas.width;
        let h = self.canvas.height;

        let accent = Color::from_rgb(0, 100, 180);
        let accent_dark = Color::from_rgb(0, 80, 150);
        assert((h - 1) * 255 <= u32::MAX);
        self.canvas.clear_gradient(accent, accent_dark);
        let ghost bg = self.canvas@;

        let cx = to_i32(w) / 2;
        let cy = to_i32(h) / 2 - 50;

        let text = self.clock_text();
        let len = text.len();
        let scale = 4u32;
        let step: i32 = 36;
        let tw = len as i32 * step;
        let tx = cx - tw / 2;
        let ty = cy - (13 * 4) / 2 + 10;
        let mut i: usize = 0;
        while i < len
            invariant
                i <= len <= 8,
                len == text@.len(),
                scale == 4,
                step == 36,
                -0x4000_1000 <= tx <= 0x4000_0000,
                -0x4000_1000 <= ty <= 0x4000_0000,
                self.wf(),
                self@ == (DesktopView { pixels: self@.pixels, depth: Seq::new(v0.depth.len(), |i: int| 0xFFFFu16), ..old(self)@ }),
                text@ == big_clock_bytes(v0.time_h, v0.time_m, v0.time_s),
                tx == tdiv(signed(v0.width), 2) - len * 36 / 2,
                v0 == old(self)@,
                sw == v0.width,
                sh == v0.height,
                font == v0.font,
                ty == tdiv(signed(v0.height), 2) - 50 - 26 + 10,
                self@.pixels == text_layers(bg, sw, sh, font, byte_chars(text@), tx as int, ty as int, 4, 0xFFFF_FFFF, i as int),
            decreases len - i,
        {
            let ch = if text[i] == 58 {
                ':'
            } else {
                text[i] as char
            };
            assert(ch == byte_chars(text@)[i as int]);
            self.canvas.draw_char_scaled(tx + i as i32 * step, ty, ch, Color::from_rgb(255, 255, 255), scale);
            i = i + 1;
        }

        let ghost clocked = self@.pixels;
        let n = self.date.len();
        if n > 0 {
            let dw = (n as u32) * 9;
            let dx = cx - (dw as i32) / 2;
            let dy = ty + 52 + 12;
            let mut k: usize = 0;
            while k < n
                invariant
                    k <= n <= 11,
                    n == self.date@.len(),
                    -0x4000_1000 <= dx <= 0x4000_0000,
                    -0x4000_1000 <= dy <= 0x4000_0100,
                    self.wf(),
                    self@ == (DesktopView { pixels: self@.pixels, depth: Seq::new(v0.depth.len(), |i: int| 0xFFFFu16), ..old(self)@ }),
                    dx == tdiv(signed(v0.width), 2) - n * 9 / 2,
                    v0 == old(self)@,
                    sw == v0.width,
                    sh == v0.height,
                    font == v0.font,
                    dy == ty + 64,
                    self@.pixels == byte_text(clocked, sw, sh, font, self@.date, dx as int, dy as int, 1, pack_argb(0xFF, 200, 220, 255), k as int),
                decreases n - k,
            {
                let b = self.date[k];
                self.canvas.draw_char(dx + k as i32 * 9, dy, b as char, Color::from_rgb(200, 220, 255));
                    k = k + 1;
            }
        }

        self.taskbar.draw(&mut self.canvas);
        if self.start.is_open() {
            self.start.draw(&mut self.canvas);
        }
    }

    /// Moves the cursor by `ev`, kept on the screen; whether it moved.
    fn move_cursor(&mut self, ev: MouseEvent) -> (moved: bool)
        requires
            old(self).wf(),
            pointer_ok(old(self)@.width, old(self)@.height),
            i32::MIN <= old(self)@.cursor_x + ev.dx <= i32::MAX,
            i32::MIN <= old(self)@.cursor_y + ev.dy <= i32::MAX,
        ensures
            final(self).wf(),
            final(self)@ == (DesktopView {
                cursor_x: clamp_cursor(old(self)@.cursor_x + ev.dx, old(self)@.width - 1) as i32,
                cursor_y: clamp_cursor(old(self)@.cursor_y + ev.dy, old(self)@.height - 1) as i32,
                ..old(self)@
            }),
            moved == (final(self)@.cursor_x != old(self)@.cursor_x || final(self)@.cursor_y != old(self)@.cursor_y),
    {
        let old_x = self.cursor_x;
        let old_y = self.cursor_y;
        let nx = self.cursor_x + ev.dx;
        let ny = self.cursor_y + ev.dy;
        let xmax = self.canvas.width as i32 - 1;
        let ymax = self.canvas.height as i32 - 1;
        self.cursor_x = if nx < 0 {
            0
        } else if nx > xmax {
            xmax
        } else {
            nx
        };
        self.cursor_y = if ny < 0 {
            0
        } else if ny > ymax {
            ymax
        } else {
            ny
        };
        old_x != self.cursor_x || old_y != self.cursor_y
    }

    /// Hands a release to the start screen or the task bar.
    fn release(&mut self, mev: &Event, screen: Rect)
        requires
            old(self).wf(),
        ensures
            final(self).wf(),
            final(self)@ == dispatch_release(old(self)@, *mev, screen),
    {
        if self.start.is_open() {
            if self.start.handle_event(mev, screen) == EventResult::Handled {
                self.taskbar.set_launcher_shown(false);
            }
        } else {
            if self.taskbar.handle_event(mev, screen) == EventResult::Handled {
                self.start.toggle();
                let open = self.start.is_open();
                self.taskbar.set_launcher_shown(open);
            }
        }
    }

    /// Takes one mouse report: moves the cursor and hands the start screen
    /// or the task bar the move, release or press it makes. Returns whether
    /// the cursor moved (the display's cursor then needs moving too).
    pub fn on_mouse(&mut self, ev: MouseEvent) -> (moved: bool)
        requires
            old(self).wf(),
            pointer_ok(old(self)@.width, old(self)@.height),
            i32::MIN <= old(self)@.cursor_x + ev.dx <= i32::MAX,
            i32::MIN <= old(self)@.cursor_y + ev.dy <= i32::MAX,
        ensures
            final(self).wf(),
            (moved, final(self)@) == desktop_input(old(self)@, ev),
    {
        let moved = self.move_cursor(ev);
        let screen = Rect::new(0, 0, self.canvas.width, self.canvas.height);
        let (x, y) = (self.cursor_x, self.cursor_y);

        if moved {
            let mev = Event::MouseMove { x, y };
            if !self.start.is_open() {
                self.taskbar.handle_event(&mev, screen);
            } else {
                self.start.handle_event(&mev, screen);
            }
        }

        let pressed = (ev.buttons & 1) != 0;
        let was_pressed = (self.prev_buttons & 1) != 0;

        if !pressed && was_pressed {
            let mev = Event::MouseUp { x, y, button: 1 };
            self.release(&mev, screen);
        }

        if pressed && !was_pressed && !self.start.is_open() {
            let mev = Event::MouseDown { x, y, button: 1 };
            self.taskbar.handle_event(&mev, screen);
        }

        self.prev_buttons = ev.buttons;
        moved
    }
}

} // verus!
