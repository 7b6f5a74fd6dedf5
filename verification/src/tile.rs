use vstd::prelude::*;
use crate::canvas::{Canvas, text_layers};
use crate::color::{Color, pack_argb, red_of, green_of, blue_of};
use crate::font::{text_ends_within, text_width, FONT_H};
use crate::raster::{apply, paint_disc, paint_glass, paint_round_rect, paint_stroke, shadow_rings};
use crate::rect::{Rect, tdiv};
use crate::widget::{press_step, Event, EventResult, Widget};
use crate::trace::{replay, Change};

verus! {

broadcast use crate::trace::lemma_replay_first;

/// The state of a [`MediaTile`].
pub struct MediaTileView {
    pub rect: Rect,
    pub title: Seq<char>,
    pub subtitle: Seq<char>,
    pub icon_label: Seq<char>,
    pub title_bytes: int,
    pub subtitle_bytes: int,
    pub icon_bytes: int,
    pub bg: u32,
    pub hovered: bool,
    pub pressed: bool,
}

/// Whether a tile is drawn: every coordinate that drawing it computes is
/// an `i32` value. That is its shadow, 2 pixels around it with 6 rings; its
/// rectangle's edges; the icon disc (a fifth of the height, between 32 and
/// 64, across) around the point at mid-width a quarter down; the icon
/// label's width at 3x, its origin and its end; the title's row, three
/// fifths down, its width at 2x, origin and end; and the subtitle's, 32
/// rows lower. Besides, the glass sheen over its top third has at most
/// 16843010 rows, so that a row times 255 is a `u32`.
pub open spec fn tile_drawn(v: MediaTileView) -> bool {
    let (x, y, w, h) = (v.rect.x as int, v.rect.y as int, v.rect.w as int, v.rect.h as int);
    let q = h / 5;
    let half = (if q < 32 { 32 } else if q > 64 { 64 } else { q }) / 2;
    let cx = x + w / 2;
    let cy = y + h / 4;
    let lx = cx - v.icon_bytes * 27 / 2;
    let title_y = y + h * 3 / 5;
    let tx = x + tdiv(w - v.title_bytes * 18, 2);
    let sx = x + tdiv(w - v.subtitle_bytes * 9, 2);
    &&& w <= i32::MAX - 10 && h <= i32::MAX - 10
    &&& i32::MIN + 8 <= x && i32::MIN + 8 <= y
    &&& x + w + 7 <= i32::MAX && y + h + 7 <= i32::MAX
    &&& h / 3 == 0 || (h / 3 - 1) * 255 <= u32::MAX
    &&& i32::MIN <= cx - half && cx + half <= i32::MAX
    &&& i32::MIN <= cy - half && cy + half <= i32::MAX
    &&& v.icon_bytes * 27 <= i32::MAX
    &&& i32::MIN <= lx && i32::MIN <= cy - 10
    &&& lx + v.icon_label.len() * 27 <= i32::MAX
    &&& cy + 29 <= i32::MAX + 1
    &&& h * 3 <= i32::MAX
    &&& v.title_bytes * 18 <= i32::MAX
    &&& i32::MIN <= tx && tx + v.title.len() * 18 <= i32::MAX
    &&& v.subtitle_bytes * 9 <= i32::MAX
    &&& i32::MIN <= sx && sx + v.subtitle.len() * 9 <= i32::MAX
    &&& title_y + 45 <= i32::MAX + 1
}

/// A colour channel brightened by 50, saturating at 255.
pub open spec fn brightened(c: u8) -> u8 {
    if c > 205 { 255 } else { (c + 50) as u8 }
}

/// The pixels `pix` of a `w` x `h` canvas with glyph table `font` after a
/// tile is drawn: a shadow of 6 rings around it; its rectangle rounded by
/// 14 in its colour (each channel brightened by 50 when hovered); a glass
/// sheen over its top third; a translucent disc (a fifth of the height,
/// between 32 and 64, across) centred at mid-width a quarter down with the
/// icon label over it at 3x; the title at 2x centred three fifths down;
/// the subtitle 32 rows below; and a faint outline.
pub open spec fn tile_image(pix: Seq<u32>, w: int, h: int, font: Seq<u8>, v: MediaTileView) -> Seq<u32> {
    let (x, y, tw, th) = (v.rect.x as int, v.rect.y as int, v.rect.w, v.rect.h);
    let shadowed = shadow_rings(pix, w, h, x - 2, y - 2, tw + 4, th + 4, 6, 6);
    let bg = if v.hovered {
        pack_argb(0xFF, brightened(red_of(v.bg)), brightened(green_of(v.bg)), brightened(blue_of(v.bg)))
    } else {
        v.bg
    };
    let filled = apply(shadowed, w, h, paint_round_rect(x, y, tw, th, 14, bg));
    let sheen = apply(filled, w, h, paint_glass(x, y, tw as int, (th / 3) as int, 0xFFFF_FFFF));
    let q = th / 5;
    let icon_size = if q < 32 { 32 } else if q > 64 { 64 } else { q as int };
    let cx = x + tdiv(tw as int, 2);
    let cy = y + tdiv(th as int, 4);
    let disc = apply(sheen, w, h, paint_disc(cx, cy, icon_size / 2, 0x33FF_FFFF));
    let ilw = v.icon_bytes * 9 * 3;
    let icon = text_layers(disc, w, h, font, v.icon_label, cx - tdiv(ilw, 2), cy - 10, 3, 0xAAFF_FFFF, v.icon_label.len() as int);
    let title_y = y + tdiv(th * 3, 5);
    let ttw = v.title_bytes * 9 * 2;
    let title = text_layers(icon, w, h, font, v.title, x + tdiv(tw - ttw, 2), title_y, 2, 0xFFFF_FFFF, v.title.len() as int);
    let stw = v.subtitle_bytes * 9;
    let sub = text_layers(title, w, h, font, v.subtitle, x + tdiv(tw - stw, 2), title_y + FONT_H * 2 + 6, 1, 0xFF99_AACC, v.subtitle.len() as int);
    apply(sub, w, h, paint_stroke(x, y, tw, th, 14, 0x44FF_FFFF))
}

/// A large rounded tile with an icon label, a title and a subtitle.
pub struct MediaTile {
    rect: Rect,
    pub title: &'static str,
    pub subtitle: &'static str,
    pub icon_label: &'static str,
    bg: Color,
    hovered: bool,
    pressed: bool,
}

impl View for MediaTile {
    type V = MediaTileView;

    closed spec fn view(&self) -> MediaTileView {
        MediaTileView {
            rect: self.rect,
            title: self.title@,
            subtitle: self.subtitle@,
            icon_label: self.icon_label@,
            title_bytes: self.title.len() as int,
            subtitle_bytes: self.subtitle.len() as int,
            icon_bytes: self.icon_label.len() as int,
            bg: self.bg@,
            hovered: self.hovered,
            pressed: self.pressed,
        }
    }
}

/// A colour channel brightened by 50, saturating at 255.
fn brighten(c: u8) -> (r: u8)
    ensures
        r == if c > 205 { 255 } else { c + 50 },
{
    if c > 205 {
        255
    } else {
        c + 50
    }
}

impl MediaTile {
    /// Tests [`tile_drawn`].
    fn frame_fits(&self) -> (b: bool)
        ensures
            b == tile_drawn(self@),
    {
        let r = self.rect;
        let (x, y, w, h) = (r.x as i64, r.y as i64, r.w as i64, r.h as i64);
        let (min, max) = (i32::MIN as i64, i32::MAX as i64);
        if w > max - 10 || h > max - 10 || x < min + 8 || y < min + 8 || x + w + 7 > max || y + h + 7 > max
            || (h / 3 != 0 && (h / 3 - 1) * 255 > u32::MAX as i64) || h * 3 > max {
            return false;
        }
        let q = h / 5;
        let half = (if q < 32 {
            32
        } else if q > 64 {
            64
        } else {
            q
        }) / 2;
        let cx = x + w / 2;
        let cy = y + h / 4;
        if cx - half < min || cx + half > max || cy - half < min || cy + half > max || cy - 10 < min || cy + 29
            > max + 1 {
            return false;
        }
        let (ib, tb, sb) = (self.icon_label.len(), self.title.len(), self.subtitle.len());
        if ib > 79536431 || tb > 119304647 || sb > 238609294 {
            return false;
        }
        let lx = cx - ib as i64 * 27 / 2;
        let title_y = y + h * 3 / 5;
        let tx = x + (w - tb as i64 * 18) / 2;
        let sx = x + (w - sb as i64 * 9) / 2;
        if lx < min || tx < min || sx < min || title_y + 45 > max + 1 {
            return false;
        }
        text_ends_within(self.icon_label, lx, 27) && text_ends_within(self.title, tx, 18) && text_ends_within(
            self.subtitle,
            sx,
            9,
        )
    }

    pub fn new(title: &'static str, subtitle: &'static str, icon_label: &'static str, bg: Color) -> (t: Self)
        ensures
            t@ == (MediaTileView {
                rect: Rect::new_spec(0, 0, 220, 260),
                title: title@,
                subtitle: subtitle@,
                icon_label: icon_label@,
                title_bytes: title.len() as int,
                subtitle_bytes: subtitle.len() as int,
                icon_bytes: icon_label.len() as int,
                bg: bg@,
                hovered: false,
                pressed: false,
            }),
    {
        Self { rect: Rect::new(0, 0, 220, 260), title, subtitle, icon_label, bg, hovered: false, pressed: false }
    }
}

/// A tile after the change `c`: an event steps it as its
/// `handle_event` does; a move or a resize sets its rectangle as `set_pos`
/// and `set_size` do.
pub open spec fn tile_changed(v: MediaTileView, c: Change) -> MediaTileView {
    match c {
        Change::Event(e, p) => { let s = press_step(v.rect, v.hovered, v.pressed, e); MediaTileView { hovered: s.1, pressed: s.2, ..v } },
        Change::MoveTo(x, y) => MediaTileView { rect: Rect { x, y, ..v.rect }, ..v },
        Change::Resize(w, h) => MediaTileView { rect: Rect { w, h, ..v.rect }, ..v },
    }
}

/// A tile after the changes `ops`, made in turn.
pub open spec fn tile_after(v: MediaTileView, ops: Seq<Change>) -> MediaTileView {
    replay(v, ops, |u: MediaTileView, c: Change| tile_changed(u, c))
}

impl Widget for MediaTile {
    open spec fn bounds_after(&self, ops: Seq<Change>) -> Rect {
        let v = tile_after(self@, ops);
        v.rect
    }

    open spec fn painted_after(&self, ops: Seq<Change>, pix: Seq<u32>, w: int, h: int, font: Seq<u8>) -> Seq<u32> {
        let v = tile_after(self@, ops);
        if tile_drawn(v) { tile_image(pix, w, h, font, v) } else { pix }
    }

    open spec fn answer_after(&self, ops: Seq<Change>, ev: Event, parent: Rect) -> EventResult {
        let v = tile_after(self@, ops);
        press_step(v.rect, v.hovered, v.pressed, ev).0
    }

    open spec fn painted(&self, pix: Seq<u32>, w: int, h: int, font: Seq<u8>) -> Seq<u32> {
        self.painted_after(Seq::empty(), pix, w, h, font)
    }

    open spec fn answer(&self, ev: Event, parent: Rect) -> EventResult {
        self.answer_after(Seq::empty(), ev, parent)
    }

    open spec fn bounds(&self) -> Rect {
        self@.rect
    }

    open spec fn placeable(&self) -> bool {
        true
    }



    fn rect(&self) -> (r: Rect)
        ensures
            r == self@.rect,
    {
        self.rect
    }

    fn min_size(&self) -> (s: (u32, u32))
        ensures
            s == (200u32, 240u32),
    {
        (200, 240)
    }

    fn set_pos(&mut self, x: i32, y: i32)
        ensures
            final(self)@ == (MediaTileView { rect: Rect { x, y, ..old(self)@.rect }, ..old(self)@ }),
    {
        self.rect.x = x;
        self.rect.y = y;
    }

    fn set_size(&mut self, w: u32, h: u32)
        ensures
            final(self)@ == (MediaTileView { rect: Rect { w, h, ..old(self)@.rect }, ..old(self)@ }),
    {
        self.rect.w = w;
        self.rect.h = h;
    }

    fn draw(&self, canvas: &mut Canvas)
        ensures
            final(canvas)@ == if tile_drawn(self@) {
                tile_image(old(canvas)@, old(canvas).width as int, old(canvas).height as int, old(canvas).font_view(), self@)
            } else {
                old(canvas)@
            },
    {
        let r = self.rect;
        if !self.frame_fits() {
            return;
        }
        let tile_w = r.w;
        let tile_h = r.h;
        let radius: u32 = 14;

        canvas.draw_shadow(r.x - 2, r.y - 2, tile_w + 4, tile_h + 4, 6);

        let bg = if self.hovered {
            Color::from_rgb(brighten(self.bg.r()), brighten(self.bg.g()), brighten(self.bg.b()))
        } else {
            self.bg
        };

        canvas.fill_round_rect(r.x, r.y, tile_w, tile_h, radius, bg);
        canvas.fill_glass_rect(r.x, r.y, tile_w, tile_h / 3, Color::white());

        let q = tile_h / 5;
        let icon_size = if q < 32 {
            32
        } else if q > 64 {
            64
        } else {
            q
        };
        let cx = r.x + tile_w as i32 / 2;
        let cy = r.y + tile_h as i32 / 4;

        canvas.fill_circle(cx, cy, icon_size / 2, Color::from_u32(0x33FFFFFF));
        let ilw = text_width(self.icon_label) as i32 * 3;
        canvas.draw_text_large(cx - ilw / 2, cy - 10, self.icon_label, Color::from_u32(0xAAFFFFFF), 3);

        let title_y = r.y + tile_h as i32 * 3 / 5;
        let tw = text_width(self.title) as i32 * 2;
        canvas.draw_text_large(r.x + (tile_w as i32 - tw) / 2, title_y, self.title, Color::white(), 2);

        let st_y = title_y + FONT_H as i32 * 2 + 6;
        let stw = text_width(self.subtitle) as i32;
        canvas.draw_text(r.x + (tile_w as i32 - stw) / 2, st_y, self.subtitle, Color::from_u32(0xFF99AACC));

        canvas.stroke_round_rect(r.x, r.y, tile_w, tile_h, radius, Color::from_u32(0x44FFFFFF));
    }

    fn handle_event(&mut self, ev: &Event, _parent: Rect) -> (res: EventResult)
        ensures
            (res, final(self)@.hovered, final(self)@.pressed) == press_step(old(self)@.rect, old(self)@.hovered, old(self)@.pressed, *ev),
            final(self)@ == (MediaTileView { hovered: final(self)@.hovered, pressed: final(self)@.pressed, ..old(self)@ }),
    {
        let r = self.rect;
        match *ev {
            Event::MouseMove { x, y } => {
                let was = self.hovered;
                self.hovered = r.contains(x, y);
                if was != self.hovered {
                    EventResult::Redraw
                } else {
                    EventResult::Ignored
                }
            },
            Event::MouseDown { x, y, .. } => {
                if r.contains(x, y) {
                    self.pressed = true;
                    EventResult::Redraw
                } else {
                    EventResult::Ignored
                }
            },
            Event::MouseUp { x, y, .. } => {
                let was = self.pressed;
                self.pressed = false;
                if was && r.contains(x, y) {
                    EventResult::Handled
                } else if was {
                    EventResult::Redraw
                } else {
                    EventResult::Ignored
                }
            },
        }
    }
}

} // verus!
