use vstd::prelude::*;
use vstd::utf8::encode_utf8;
use vstd::string::StringSliceAdditionalSpecFns;
use crate::canvas::{Canvas, text_layers};
use crate::color::{Color, pack_argb};
use crate::digits::{clipped, clock_bytes, hours_minutes_seconds};
use crate::fx::{glow, glow_radius, paint_glow};
use crate::raster::{apply, fits, paint_disc};
use crate::rect::{Rect, signed, tdiv};
use crate::font::text_ends_within;
use crate::widget::{Event, EventResult, Widget};
use crate::trace::{replay, Change};

verus! {

broadcast use crate::trace::lemma_replay_first;

/// The state of a [`FuturisticClock`].
pub struct ClockView {
    pub rect: Rect,
    pub hours: u32,
    pub minutes: u32,
    pub seconds: u32,
    pub text_color: u32,
    pub glow_color: u32,
    pub date: Seq<char>,
    pub prev_second: u32,
    pub pulse_timer: u32,
}

/// Bytes read as the characters with those codes.
pub open spec fn byte_chars(b: Seq<u8>) -> Seq<char> {
    Seq::new(b.len(), |i: int| b[i] as char)
}

/// The pixels after `h:m:s` (each at least two digits) is drawn at
/// `scale`, centred across `x` with its top at `y`.
pub open spec fn time_image(pix: Seq<u32>, w: int, h: int, font: Seq<u8>, x: int, y: int, hms: Seq<nat>, color: u32, scale: int) -> Seq<u32> {
    let text = clipped(clock_bytes(hms), 16);
    let start = x - tdiv(text.len() * (9 * scale), 2);
    text_layers(pix, w, h, font, byte_chars(text), start, y, scale, color, text.len() as int)
}

/// The pixels `pix` of a `w` x `h` canvas with glyph table `font` after a
/// clock is drawn: a soft glow at the middle (8 rows above centre); the
/// time at 2x centred there, 13 rows higher; the date line (when it is not
/// empty) centred 8 rows below the middle; and two small
/// discs marking the colons.
pub open spec fn clock_image(pix: Seq<u32>, w: int, h: int, font: Seq<u8>, v: ClockView) -> Seq<u32> {
    let r = v.rect;
    let cx = r.x + tdiv(signed(r.w), 2);
    let cy = r.y + tdiv(signed(r.h), 2) - 8;
    let glowed = apply(pix, w, h, paint_glow(cx, cy, glow_radius(12), v.glow_color, 10));
    let ty = cy - 13;
    let timed = time_image(glowed, w, h, font, cx, ty, seq![v.hours as nat, v.minutes as nat, v.seconds as nat], v.text_color, 2);
    let date_bytes = encode_utf8(v.date).len() as usize as int;
    let dated = if date_bytes != 0 {
        text_layers(timed, w, h, font, v.date, cx - tdiv(date_bytes * 9, 2), cy + 8, 1, pack_argb(0xFF, 136, 136, 187), v.date.len() as int)
    } else {
        timed
    };
    let dot = pack_argb(160, 0, 212, 255);
    let first = apply(dated, w, h, paint_disc(cx - 8, ty + 9, 2, dot));
    apply(first, w, h, paint_disc(cx + 16, ty + 9, 2, dot))
}

/// The time's text as drawn: `h:m:s`, each at least two digits, clipped
/// to 16 bytes.
pub open spec fn time_text(v: ClockView) -> Seq<u8> {
    clipped(clock_bytes(seq![v.hours as nat, v.minutes as nat, v.seconds as nat]), 16)
}

/// Whether a clock is drawn: its width and height, and every coordinate
/// that drawing it computes, are `i32` values. That is its middle (half its width across, half its
/// height less 8 down) and the glow, 15 pixels around it; the time's origin
/// and end at 2x (18 pixels a byte, centred) and its last row; the date
/// line's width (9 pixels a byte), origin, end and last row; and the
/// second colon disc, 18 right of the middle.
pub open spec fn clock_drawn(v: ClockView) -> bool {
    let (x, y) = (v.rect.x as int, v.rect.y as int);
    let cx = x + tdiv(signed(v.rect.w), 2);
    let my = y + tdiv(signed(v.rect.h), 2);
    let cy = my - 8;
    let n = time_text(v).len() as int;
    let start = cx - tdiv(n * 18, 2);
    let db = encode_utf8(v.date).len() as usize as int;
    let dx = cx - tdiv(db * 9, 2);
    &&& v.rect.w <= i32::MAX && v.rect.h <= i32::MAX
    &&& i32::MIN + 15 <= cx && cx + 18 <= i32::MAX
    &&& my <= i32::MAX
    &&& i32::MIN + 15 <= cy <= i32::MAX - 15
    &&& i32::MIN <= start && start + n * 18 <= i32::MAX
    &&& db != 0 ==> {
        &&& db * 9 <= i32::MAX
        &&& i32::MIN <= dx && dx + v.date.len() * 9 <= i32::MAX
        &&& cy + 8 + 13 <= i32::MAX + 1
    }
}

/// A large glowing `hh:mm:ss` clock with an optional date line.
pub struct FuturisticClock {
    rect: Rect,
    pub hours: u32,
    pub minutes: u32,
    pub seconds: u32,
    text_color: Color,
    glow_color: Color,
    date_str: String,
    prev_second: u32,
    pulse_timer: u32,
}

impl View for FuturisticClock {
    type V = ClockView;

    closed spec fn view(&self) -> ClockView {
        ClockView {
            rect: self.rect,
            hours: self.hours,
            minutes: self.minutes,
            seconds: self.seconds,
            text_color: self.text_color@,
            glow_color: self.glow_color@,
            date: self.date_str@,
            prev_second: self.prev_second,
            pulse_timer: self.pulse_timer,
        }
    }
}

impl FuturisticClock {
    pub fn new() -> (c: Self)
        ensures
            c@ == (ClockView {
                rect: Rect::new_spec(0, 0, 300, 100),
                hours: 0,
                minutes: 0,
                seconds: 0,
                text_color: pack_argb(0xFF, 240, 240, 255),
                glow_color: pack_argb(0xFF, 0, 212, 255),
                date: Seq::empty(),
                prev_second: 0,
                pulse_timer: 0,
            }),
    {
        let c = Self {
            rect: Rect::new(0, 0, 300, 100),
            hours: 0,
            minutes: 0,
            seconds: 0,
            text_color: Color::from_rgb(240, 240, 255),
            glow_color: Color::from_rgb(0, 212, 255),
            date_str: String::new(),
            prev_second: 0,
            pulse_timer: 0,
        };
        assert(c@.date =~= Seq::empty());
        c
    }

    /// Tests [`clock_drawn`].
    fn frame_fits(&self) -> (b: bool)
        ensures
            b == clock_drawn(self@),
    {
        let r = self.rect;
        let (min, max) = (i32::MIN as i64, i32::MAX as i64);
        if r.w > 0x7fff_ffff || r.h > 0x7fff_ffff {
            return false;
        }
        let cx = r.x as i64 + r.w as i64 / 2;
        let my = r.y as i64 + r.h as i64 / 2;
        let cy = my - 8;
        if cx < min + 15 || cx + 18 > max || my > max || cy < min + 15 || cy > max - 15 {
            return false;
        }
        let text = hours_minutes_seconds(self.hours, self.minutes, self.seconds, 16);
        let n = text.len() as i64;
        let start = cx - n * 18 / 2;
        assert(text@ == time_text(self@));
        if start < min || start + n * 18 > max {
            return false;
        }
        let date = self.date_str.as_str();
        proof {
            assert(date.spec_bytes() == encode_utf8(self@.date));
        }
        let db = date.len();
        if db == 0 {
            return true;
        }
        if db > 238609294 || cy + 21 > max + 1 {
            return false;
        }
        let dx = cx - db as i64 * 9 / 2;
        if dx < min {
            return false;
        }
        text_ends_within(date, dx, 9)
    }

    pub fn set_time(&mut self, h: u32, m: u32, s: u32)
        ensures
            final(self)@ == (ClockView { hours: h, minutes: m, seconds: s, ..old(self)@ }),
    {
        self.hours = h;
        self.minutes = m;
        self.seconds = s;
    }

    /// Replaces the date line.
    pub fn set_date(&mut self, date: &str)
        ensures
            final(self)@ == (ClockView { date: date@, ..old(self)@ }),
    {
        self.date_str = date.to_owned();
    }

    /// Advances the pulse timer by `dt_ms`, restarting it when the seconds
    /// have changed since the last update.
    pub fn update(&mut self, dt_ms: u32)
        requires
            old(self)@.pulse_timer + dt_ms <= u32::MAX,
        ensures
            final(self)@ == (if old(self)@.seconds != old(self)@.prev_second {
                ClockView { prev_second: old(self)@.seconds, pulse_timer: 0, ..old(self)@ }
            } else {
                ClockView { pulse_timer: (old(self)@.pulse_timer + dt_ms) as u32, ..old(self)@ }
            }),
    {
        self.pulse_timer = self.pulse_timer + dt_ms;
        if self.seconds != self.prev_second {
            self.prev_second = self.seconds;
            self.pulse_timer = 0;
        }
    }

    /// Draws `h:m:s` (each at least two digits) at `scale`, centred
    /// across `x` with its top at `y`.
    fn draw_time(canvas: &mut Canvas, x: i32, y: i32, h: u32, m: u32, s: u32, color: Color, scale: u32)
        requires
            old(canvas).wf(),
            scale <= 8,
            ({
                let n = clipped(clock_bytes(seq![h as nat, m as nat, s as nat]), 16).len() as int;
                &&& i32::MIN <= x - tdiv(n * (9 * scale), 2)
                &&& x - tdiv(n * (9 * scale), 2) + n * (9 * scale) <= i32::MAX
            }),
            fits(y as int, 13 * scale),
        ensures
            final(canvas).wf(),
            old(canvas).same_frame(&*final(canvas)),
            final(canvas)@ == time_image(old(canvas)@, old(canvas).width as int, old(canvas).height as int, old(canvas).font_view(), x as int, y as int, seq![h as nat, m as nat, s as nat], color@, scale as int),
    {
        let ghost (cw, ch, font, before) = (canvas.width as int, canvas.height as int, canvas.font_view(), canvas@);
        let text = hours_minutes_seconds(h, m, s, 16);
        let len = text.len();
        assert(len <= 16);
        let step = 9 * scale as i32;
        assert(0 <= len * step <= 16 * 72) by (nonlinear_arith)
            requires len <= 16, 0 <= step <= 72;
        let tw = (len as u32) * step as u32;
        let start = x - (tw as i32) / 2;
        let mut i: usize = 0;
        while i < len
            invariant
                i <= len <= 16,
                len == text@.len(),
                step == 9 * scale,
                scale <= 8,
                fits(y as int, 13 * scale),
                i32::MIN <= start,
                start + len * step <= i32::MAX,
                canvas.wf(),
                old(canvas).same_frame(&*canvas),
                cw == canvas.width,
                ch == canvas.height,
                font == canvas.font_view(),
                canvas@ == text_layers(before, cw, ch, font, byte_chars(text@), start as int, y as int, scale as int, color@, i as int),
            decreases len - i,
        {
            assert(0 <= i * step <= 16 * 72 && i * step + step <= len * step) by (nonlinear_arith)
                requires 0 <= i < len <= 16, 0 <= step <= 72;
            assert(13 * scale <= 104 && 8 * scale <= 64) by (nonlinear_arith)
                requires scale <= 8;
            canvas.draw_char_scaled(start + i as i32 * step, y, text[i] as char, color, scale);
            i = i + 1;
        }
        proof {
            assert(text@ == clipped(clock_bytes(seq![h as nat, m as nat, s as nat]), 16));
        }
    }
}

/// A clock after the change `c`: an event steps it as its
/// `handle_event` does; a move or a resize sets its rectangle as `set_pos`
/// and `set_size` do.
pub open spec fn clock_changed(v: ClockView, c: Change) -> ClockView {
    match c {
        Change::Event(e, p) => v,
        Change::MoveTo(x, y) => ClockView { rect: Rect { x, y, ..v.rect }, ..v },
        Change::Resize(w, h) => ClockView { rect: Rect { w, h, ..v.rect }, ..v },
    }
}

/// A clock after the changes `ops`, made in turn.
pub open spec fn clock_after(v: ClockView, ops: Seq<Change>) -> ClockView {
    replay(v, ops, |u: ClockView, c: Change| clock_changed(u, c))
}

impl Widget for FuturisticClock {
    open spec fn bounds_after(&self, ops: Seq<Change>) -> Rect {
        let v = clock_after(self@, ops);
        v.rect
    }

    open spec fn painted_after(&self, ops: Seq<Change>, pix: Seq<u32>, w: int, h: int, font: Seq<u8>) -> Seq<u32> {
        let v = clock_after(self@, ops);
        if clock_drawn(v) { clock_image(pix, w, h, font, v) } else { pix }
    }

    open spec fn answer_after(&self, ops: Seq<Change>, ev: Event, parent: Rect) -> EventResult {
        let v = clock_after(self@, ops);
        EventResult::Ignored
    }

    open spec fn painted(&self, pix: Seq<u32>, w: int, h: int, font: Seq<u8>) -> Seq<u32> {
        self.painted_after(Seq::empty(), pix, w, h, font)
    }

    open spec fn answer(&self, ev: Event, parent: Rect) -> EventResult {
        self.answer_after(Seq::empty(), ev, parent)
    }

    open spec fn bounds(&self) -> Rect {
        self@.rect
    }

    open spec fn placeable(&self) -> bool {
        true
    }



    fn draw(&self, canvas: &mut Canvas)
        ensures
            final(canvas)@ == if clock_drawn(self@) {
                clock_image(old(canvas)@, old(canvas).width as int, old(canvas).height as int, old(canvas).font_view(), self@)
            } else {
                old(canvas)@
            },
    {
        let r = self.rect;
        if !self.frame_fits() {
            return;
        }
        let cx = r.x + r.w as i32 / 2;
        let cy = r.y + r.h as i32 / 2 - 8;

        glow(canvas, cx, cy, 12, self.glow_color, 10);

        let ty = cy - 13;
        Self::draw_time(canvas, cx, ty, self.hours, self.minutes, self.seconds, self.text_color, 2);

        let date = self.date_str.as_str();
        assert(date.spec_bytes() == encode_utf8(self@.date));
        if date.len() != 0 {
            let dw = (date.len() as u32) * 9;
            let dx = cx - (dw as i32) / 2;
            let dy = cy + 8;
            canvas.draw_text(dx, dy, date, Color::from_rgb(136, 136, 187));
        }

        let colon_x = cx - 8;
        let colon_y = ty + 13 - 4;
        canvas.fill_circle(colon_x, colon_y, 2, Color::from_argb(160, 0, 212, 255));
        canvas.fill_circle(colon_x + 24, colon_y, 2, Color::from_argb(160, 0, 212, 255));
    }

    fn rect(&self) -> (r: Rect)
        ensures
            r == self@.rect,
    {
        self.rect
    }

    fn min_size(&self) -> (s: (u32, u32))
        ensures
            s == (200u32, 60u32),
    {
        (200, 60)
    }

    fn set_pos(&mut self, x: i32, y: i32)
        ensures
            final(self)@ == (ClockView { rect: Rect { x, y, ..old(self)@.rect }, ..old(self)@ }),
    {
        self.rect.x = x;
        self.rect.y = y;
    }

    fn set_size(&mut self, w: u32, h: u32)
        ensures
            final(self)@ == (ClockView { rect: Rect { w, h, ..old(self)@.rect }, ..old(self)@ }),
    {
        self.rect.w = w;
        self.rect.h = h;
    }

    fn handle_event(&mut self, _ev: &Event, _parent: Rect) -> (res: EventResult)
        ensures
            res == EventResult::Ignored,
            final(self)@ == old(self)@,
    {
        EventResult::Ignored
    }
}

} // verus!
