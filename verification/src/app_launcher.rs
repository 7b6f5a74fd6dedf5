use vstd::prelude::*;
use crate::canvas::{Canvas, text_layers};
use crate::color::{Color, pack_argb, red_of, green_of, blue_of};
use crate::fx::{glass_image, glass_panel};
use crate::font::text_ends_within;
use crate::icon::{icon_fits, icon_image, icon_ok};
use crate::raster::{apply, paint_round_rect, paint_stroke};
use crate::rect::{Rect, signed, tdiv};
use crate::widget::{abs_rect, Event, EventResult, Widget};
use crate::trace::{replay, Change};
use crate::window::as_i32;

verus! {

broadcast use crate::trace::lemma_replay_first;

/// Columns of the launcher grid.
pub const COLS: usize = 4;

/// Width of a grid cell.
pub const CELL_W: u32 = 120;

/// Height of a grid cell.
pub const CELL_H: u32 = 130;

/// Space between grid cells.
pub const GAP: u32 = 16;

/// An application entry: its name, icon number and accent colour.
pub struct AppInfo {
    pub name: &'static str,
    pub icon: u32,
    pub color: Color,
}

/// The contents of an [`AppInfo`].
pub struct AppInfoView {
    pub name: Seq<char>,
    pub name_bytes: int,
    pub icon: u32,
    pub color: u32,
}

impl View for AppInfo {
    type V = AppInfoView;

    open spec fn view(&self) -> AppInfoView {
        AppInfoView { name: self.name@, name_bytes: self.name.len() as int, icon: self.icon, color: self.color@ }
    }
}

/// The state of an [`AppLauncher`].
pub struct LauncherView {
    pub rect: Rect,
    pub apps: Seq<AppInfoView>,
    pub hover_idx: i32,
    pub open: bool,
    pub time_ms: u32,
    pub pulse_fill: u8,
    pub pulse_border: u8,
    pub launched: Option<usize>,
}

/// Size of the launcher panel for `n` applications: four cells per row,
/// 20 pixels of margin at the sides and 80 in all above and below the grid
/// (computed in wrapping `u32` arithmetic, as for an empty list).
pub open spec fn panel_size_of(n: int) -> (u32, u32) {
    let rows = (n / 4 + if n % 4 != 0 { 1int } else { 0int }) as u32;
    let inner_h = rows.wrapping_mul(CELL_H).wrapping_add(rows.wrapping_sub(1).wrapping_mul(GAP));
    (568u32, inner_h.wrapping_add(80))
}

/// Rectangle of cell `idx`, in the launcher's own coordinates: the grid is
/// centred across the panel and starts 60 pixels below its top.
pub open spec fn cell_rect(r: Rect, idx: int) -> Rect {
    let row = (idx / 4) as i32;
    let col = (idx % 4) as i32;
    let spare = as_i32(r.w.wrapping_sub(40).wrapping_sub(528));
    let inner_x = r.x.wrapping_add(20).wrapping_add(tdiv(spare as int, 2) as i32);
    Rect {
        x: inner_x.wrapping_add(col.wrapping_mul(136)),
        y: r.y.wrapping_add(60).wrapping_add(row.wrapping_mul(146)),
        w: CELL_W,
        h: CELL_H,
    }
}

/// Cell `idx` in the parent's coordinates.
pub open spec fn abs_cell(parent: Rect, r: Rect, idx: int) -> Rect {
    let a = abs_rect(parent, r);
    let c = cell_rect(r, idx);
    Rect { x: a.x.wrapping_add(c.x).wrapping_sub(r.x), y: a.y.wrapping_add(c.y).wrapping_sub(r.y), w: c.w, h: c.h }
}

/// The first of the `n` cells from `from` on that holds `(x, y)`, or -1.
pub open spec fn cell_hit(parent: Rect, r: Rect, n: int, x: int, y: int, from: int) -> int
    decreases n - from,
{
    if from < 0 || from >= n {
        -1
    } else if abs_cell(parent, r, from).spec_contains(x, y) {
        from
    } else {
        cell_hit(parent, r, n, x, y, from + 1)
    }
}

/// The title drawn at the top of the launcher.
pub open spec fn apps_title() -> Seq<char> {
    seq!['A', 'p', 'p', 's']
}

/// The pixels after cell `i` of the launcher is drawn: its rounded frame
/// (filled and outlined in the application's colour at the pulse's alphas,
/// the fill at least 30, when hovered; otherwise a faint fill and an
/// outline at alpha 40), the application's icon at size 36 centred 20
/// pixels above the cell's middle, and its name centred 28 rows below that.
pub open spec fn cell_image(pix: Seq<u32>, w: int, h: int, font: Seq<u8>, v: LauncherView, i: int) -> Seq<u32> {
    let info = v.apps[i];
    let ar = cell_rect(v.rect, i);
    let (x, y) = (ar.x as int, ar.y as int);
    let c = info.color;
    let (fill, edge) = if i == v.hover_idx {
        (
            pack_argb(if v.pulse_fill < 30 { 30u8 } else { v.pulse_fill }, red_of(c), green_of(c), blue_of(c)),
            pack_argb(v.pulse_border, red_of(c), green_of(c), blue_of(c)),
        )
    } else {
        (pack_argb(25, 60, 60, 100), pack_argb(40, red_of(c), green_of(c), blue_of(c)))
    };
    let filled = apply(pix, w, h, paint_round_rect(x, y, CELL_W, CELL_H, 8, fill));
    let framed = apply(filled, w, h, paint_stroke(x, y, CELL_W, CELL_H, 8, edge));
    let icon_cy = y + 45;
    let iconed = icon_image(framed, w, h, font, x + 60, icon_cy, 36, info.icon, c);
    text_layers(iconed, w, h, font, info.name, x + tdiv(120 - info.name_bytes * 9, 2), icon_cy + 28, 1,
        pack_argb(0xFF, 200, 200, 230), info.name.len() as int)
}

/// The pixels after the first `n` cells of the launcher are drawn.
pub open spec fn cells_image(pix: Seq<u32>, w: int, h: int, font: Seq<u8>, v: LauncherView, n: int) -> Seq<u32>
    decreases n,
{
    if n <= 0 {
        pix
    } else {
        cell_image(cells_image(pix, w, h, font, v, n - 1), w, h, font, v, n - 1)
    }
}

/// The pixels `pix` of a `w` x `h` canvas with glyph table `font` after an
/// open launcher is drawn: a dark glass panel rounded by 16, the title
/// "Apps" at 2x 48 pixels left of its middle and 12 down, and every cell.
pub open spec fn launcher_image(pix: Seq<u32>, w: int, h: int, font: Seq<u8>, v: LauncherView) -> Seq<u32> {
    let r = v.rect;
    let panel = glass_image(pix, w, h, r.x as int, r.y as int, r.w, r.h, 16, pack_argb(200, 10, 10, 20), 220,
        pack_argb(0xFF, 0, 212, 255), 0);
    let cx = r.x + tdiv(signed(r.w), 2);
    let titled = text_layers(panel, w, h, font, apps_title(), cx - 48, r.y + 12, 2, pack_argb(0xFF, 240, 240, 255), 4);
    cells_image(titled, w, h, font, v, v.apps.len() as int)
}

/// Whether cell `i` of a launcher is drawn within `i32`: its row's offset
/// (146 pixels a row) and bottom edge, its icon (at size 36, 60 right and
/// 45 down), its name's width (9 pixels a byte), origin and end, and the
/// name's last row are `i32` values.
pub open spec fn cell_fits(v: LauncherView, i: int) -> bool {
    let info = v.apps[i];
    let ax = v.rect.x + 20 + (v.rect.w - 568) / 2 + (i % 4) * 136;
    let ay = v.rect.y + 60 + (i / 4) * 146;
    let tx = ax + tdiv(120 - info.name_bytes * 9, 2);
    &&& (i / 4) * 146 <= i32::MAX
    &&& ay + CELL_H <= i32::MAX + 1
    &&& icon_ok(ax + 60, ay + 45, 36, info.icon)
    &&& info.name_bytes * 9 <= i32::MAX
    &&& i32::MIN <= tx && tx + info.name.len() * 9 <= i32::MAX
    &&& ay + 45 + 28 + 13 <= i32::MAX + 1
}

/// Whether the launcher's panel lies in the `i32` plane: at least 568
/// pixels wide (its four cells and margins; less would underflow) and its
/// glass, 15 pixels around it, and its title's rows within `i32`.
pub open spec fn launcher_frame_fits(r: Rect) -> bool {
    let (x, y, w, h) = (r.x as int, r.y as int, r.w as int, r.h as int);
    &&& 568 <= w <= i32::MAX - 30 && h <= i32::MAX - 30
    &&& i32::MIN + 15 <= x && i32::MIN + 15 <= y
    &&& x + w + 15 <= i32::MAX && y + h + 15 <= i32::MAX
    &&& y + 12 + 26 <= i32::MAX + 1
}

/// Whether a launcher is drawn: it is open, its panel lies in the `i32`
/// plane and so does every cell (see [`cell_fits`]).
pub open spec fn launcher_drawn(v: LauncherView) -> bool {
    &&& v.open
    &&& launcher_frame_fits(v.rect)
    &&& forall|i: int| 0 <= i < v.apps.len() ==> #[trigger] cell_fits(v, i)
}

/// What an open launcher answers to `ev` and its state after it: a move
/// hovers the cell under the pointer (redraw when that changes); a release
/// over a cell closes the launcher and records that application as
/// launched; a release outside the panel closes it. A closed launcher
/// ignores everything.
pub open spec fn launcher_step(v: LauncherView, ev: Event, parent: Rect) -> (EventResult, LauncherView) {
    if !v.open {
        (EventResult::Ignored, v)
    } else {
        match ev {
            Event::MouseMove { x, y } => {
                let k = cell_hit(parent, v.rect, v.apps.len() as int, x as int, y as int, 0);
                let h: i32 = if k >= 0 {
                    k as i32
                } else {
                    -1i32
                };
                (
                    if h != v.hover_idx {
                        EventResult::Redraw
                    } else {
                        EventResult::Ignored
                    },
                    LauncherView { hover_idx: h, ..v },
                )
            },
            Event::MouseUp { x, y, .. } => {
                let k = cell_hit(parent, v.rect, v.apps.len() as int, x as int, y as int, 0);
                if k >= 0 {
                    (EventResult::Handled, LauncherView { open: false, launched: Some(k as usize), ..v })
                } else if !abs_rect(parent, v.rect).spec_contains(x as int, y as int) {
                    (EventResult::Redraw, LauncherView { open: false, ..v })
                } else {
                    (EventResult::Ignored, v)
                }
            },
            Event::MouseDown { .. } => (EventResult::Ignored, v),
        }
    }
}

/// A grid of application cells on a glass panel.
pub struct AppLauncher {
    rect: Rect,
    pub apps: Vec<AppInfo>,
    hover_idx: i32,
    open: bool,
    time_ms: u32,
    pulse_fill: u8,
    pulse_border: u8,
    launched: Option<usize>,
}

impl View for AppLauncher {
    type V = LauncherView;

    closed spec fn view(&self) -> LauncherView {
        LauncherView {
            rect: self.rect,
            apps: self.apps@.map_values(|a: AppInfo| a@),
            hover_idx: self.hover_idx,
            open: self.open,
            time_ms: self.time_ms,
            pulse_fill: self.pulse_fill,
            pulse_border: self.pulse_border,
            launched: self.launched,
        }
    }
}

/// A new application entry.
fn app(name: &'static str, icon: u32, r: u8, g: u8, b: u8) -> (a: AppInfo)
    ensures
        a@ == (AppInfoView { name: name@, name_bytes: name.len() as int, icon, color: crate::color::pack_argb(0xFF, r, g, b) }),
{
    AppInfo { name, icon, color: Color::from_rgb(r, g, b) }
}

impl AppLauncher {
    /// Size of the panel for `app_count` applications.
    fn panel_size(app_count: usize) -> (s: (u32, u32))
        ensures
            s == panel_size_of(app_count as int),
    {
        let rows = (app_count / COLS + if app_count % COLS != 0 {
            1
        } else {
            0
        }) as u32;
        let inner_w = COLS as u32 * CELL_W + (COLS as u32 - 1) * GAP;
        let inner_h = rows.wrapping_mul(CELL_H).wrapping_add(rows.wrapping_sub(1).wrapping_mul(GAP));
        let pw = inner_w + 40;
        let ph = inner_h.wrapping_add(80);
        (pw, ph)
    }

    pub fn new() -> (l: Self)
        ensures
            l@.rect == Rect::new_spec(0, 0, 568, 502),
            l@.apps.len() == 10,
            l@.apps[0].name == "Terminal"@ && l@.apps[0].icon == 0,
            l@.apps[1].name == "Calculator"@ && l@.apps[1].icon == 1,
            l@.apps[2].name == "Settings"@ && l@.apps[2].icon == 2,
            l@.apps[3].name == "Clock"@ && l@.apps[3].icon == 3,
            l@.apps[4].name == "Editor"@ && l@.apps[4].icon == 4,
            l@.apps[5].name == "Files"@ && l@.apps[5].icon == 8,
            l@.apps[6].name == "Snake"@ && l@.apps[6].icon == 5,
            l@.apps[7].name == "Pong"@ && l@.apps[7].icon == 6,
            l@.apps[8].name == "Tetris"@ && l@.apps[8].icon == 7,
            l@.apps[9].name == "Demo"@ && l@.apps[9].icon == 9,
            l@.hover_idx == -1,
            !l@.open,
            l@.time_ms == 0,
            l@.pulse_fill == 35,
            l@.pulse_border == 126,
            l@.launched is None,
    {
        let mut apps: Vec<AppInfo> = Vec::new();
        apps.push(app("Terminal", 0, 0, 200, 255));
        apps.push(app("Calculator", 1, 180, 80, 255));
        apps.push(app("Settings", 2, 0, 255, 136));
        apps.push(app("Clock", 3, 255, 200, 50));
        apps.push(app("Editor", 4, 255, 80, 100));
        apps.push(app("Files", 8, 50, 200, 255));
        apps.push(app("Snake", 5, 50, 255, 100));
        apps.push(app("Pong", 6, 255, 160, 50));
        apps.push(app("Tetris", 7, 255, 60, 120));
        apps.push(app("Demo", 9, 180, 130, 255));
        let (pw, ph) = Self::panel_size(apps.len());
        Self {
            rect: Rect::new(0, 0, pw, ph),
            apps,
            hover_idx: -1,
            open: false,
            time_ms: 0,
            pulse_fill: 35,
            pulse_border: 126,
            launched: None,
        }
    }

    /// Records the animation clock.
    pub fn update(&mut self, time_ms: u32)
        ensures
            final(self)@ == (LauncherView { time_ms, ..old(self)@ }),
    {
        self.time_ms = time_ms;
    }

    /// Sets the alphas of the hovered cell's fill and border (they pulse
    /// with the animation clock).
    pub fn set_pulse(&mut self, fill: u8, border: u8)
        ensures
            final(self)@ == (LauncherView { pulse_fill: fill, pulse_border: border, ..old(self)@ }),
    {
        self.pulse_fill = fill;
        self.pulse_border = border;
    }

    pub fn set_open(&mut self, open: bool)
        ensures
            final(self)@ == (LauncherView { open, ..old(self)@ }),
    {
        self.open = open;
    }

    pub fn is_open(&self) -> (b: bool)
        ensures
            b == self@.open,
    {
        self.open
    }

    pub fn toggle(&mut self)
        ensures
            final(self)@ == (LauncherView { open: !old(self)@.open, ..old(self)@ }),
    {
        self.open = !self.open;
    }

    /// The application launched by the last release over a cell, if any,
    /// cleared as it is taken.
    pub fn take_launched(&mut self) -> (i: Option<usize>)
        ensures
            i == old(self)@.launched,
            final(self)@ == (LauncherView { launched: None, ..old(self)@ }),
    {
        let i = self.launched;
        self.launched = None;
        i
    }

    /// Tests [`cell_fits`] for cell `i`.
    fn cell_fits_at(&self, i: usize) -> (b: bool)
        requires
            i < self@.apps.len(),
            launcher_frame_fits(self.rect),
        ensures
            b == cell_fits(self@, i as int),
    {
        let info = &self.apps[i];
        assert(self@.apps[i as int] == self.apps@[i as int]@);
        let r = self.rect;
        let (min, max) = (i32::MIN as i64, i32::MAX as i64);
        let row = (i / COLS) as i64;
        let col = (i % COLS) as i64;
        if row > max / 146 {
            return false;
        }
        let ax = r.x as i64 + 20 + (r.w as i64 - 568) / 2 + col * 136;
        let ay = r.y as i64 + 60 + row * 146;
        if ay + 130 > max + 1 || ay + 86 > max + 1 {
            return false;
        }
        if !icon_fits((ax + 60) as i32, (ay + 45) as i32, 36, info.icon) {
            return false;
        }
        let nb = info.name.len();
        if nb > 238609294 {
            return false;
        }
        let tx = ax + (120 - nb as i64 * 9) / 2;
        if tx < min {
            return false;
        }
        text_ends_within(info.name, tx, 9)
    }

    /// Tests [`launcher_drawn`].
    fn frame_fits(&self) -> (b: bool)
        ensures
            b == launcher_drawn(self@),
    {
        if !self.open {
            return false;
        }
        let r = self.rect;
        let (x, y, w, h) = (r.x as i64, r.y as i64, r.w as i64, r.h as i64);
        let (min, max) = (i32::MIN as i64, i32::MAX as i64);
        if w < 568 || w > max - 30 || h > max - 30 || x < min + 15 || y < min + 15 || x + w + 15 > max || y
            + h + 15 > max || y + 38 > max + 1 {
            return false;
        }
        let n = self.apps.len();
        let mut i: usize = 0;
        while i < n
            invariant
                i <= n,
                n == self@.apps.len(),
                launcher_frame_fits(self.rect),
                forall|j: int| 0 <= j < i ==> #[trigger] cell_fits(self@, j),
            decreases n - i,
        {
            if !self.cell_fits_at(i) {
                return false;
            }
            i = i + 1;
        }
        true
    }

    fn app_rect(&self, idx: usize) -> (r: Rect)
        ensures
            r == cell_rect(self.rect, idx as int),
    {
        let row = #[verifier::truncate] ((idx / COLS) as i32);
        let col = (idx % COLS) as i32;
        let spare = crate::rect::to_i32(self.rect.w.wrapping_sub(40).wrapping_sub(528));
        let inner_x = self.rect.x.wrapping_add(20).wrapping_add(spare / 2);
        Rect::new(
            inner_x.wrapping_add(col.wrapping_mul(136)),
            self.rect.y.wrapping_add(60).wrapping_add(row.wrapping_mul(146)),
            CELL_W,
            CELL_H,
        )
    }

    /// Cell `idx` in the parent's coordinates.
    fn abs_app_rect(&self, abs: Rect, idx: usize) -> (r: Rect)
        ensures
            r == (Rect {
                x: abs.x.wrapping_add(cell_rect(self.rect, idx as int).x).wrapping_sub(self.rect.x),
                y: abs.y.wrapping_add(cell_rect(self.rect, idx as int).y).wrapping_sub(self.rect.y),
                w: CELL_W,
                h: CELL_H,
            }),
    {
        let c = self.app_rect(idx);
        Rect::new(abs.x.wrapping_add(c.x).wrapping_sub(self.rect.x), abs.y.wrapping_add(c.y).wrapping_sub(self.rect.y), c.w, c.h)
    }

    /// The first cell (in the parent's coordinates) holding `(x, y)`, or -1.
    fn hit(&self, parent: Rect, x: i32, y: i32) -> (k: Option<usize>)
        ensures
            match k {
                Some(i) => i as int == cell_hit(parent, self.rect, self@.apps.len() as int, x as int, y as int, 0),
                None => cell_hit(parent, self.rect, self@.apps.len() as int, x as int, y as int, 0) == -1,
            },
    {
        let abs = Rect::new(parent.x.wrapping_add(self.rect.x), parent.y.wrapping_add(self.rect.y), self.rect.w, self.rect.h);
        let n = self.apps.len();
        let mut i: usize = 0;
        while i < n
            invariant
                i <= n,
                n == self@.apps.len(),
                abs == abs_rect(parent, self.rect),
                cell_hit(parent, self.rect, n as int, x as int, y as int, 0) == cell_hit(parent, self.rect, n as int, x as int, y as int, i as int),
            decreases n - i,
        {
            let ar = self.abs_app_rect(abs, i);
            if ar.contains(x, y) {
                return Some(i);
            }
            i = i + 1;
        }
        None
    }
    /// Draws cell `i`: its rounded frame (pulsing when hovered), icon and name.
    fn draw_cell(&self, canvas: &mut Canvas, i: usize)
        requires
            old(canvas).wf(),
            i < self.apps@.len(),
            launcher_frame_fits(self.rect),
            cell_fits(self@, i as int),
        ensures
            final(canvas).wf(),
            old(canvas).same_frame(&*final(canvas)),
            final(canvas)@ == cell_image(old(canvas)@, old(canvas).width as int, old(canvas).height as int, old(canvas).font_view(), self@, i as int),
    {
        let info = &self.apps[i];
        let ar = self.app_rect(i);
        let is_hover = #[verifier::truncate] (i as i32) == self.hover_idx;
        let c = info.color;

        if is_hover {
            let fill_alpha = if self.pulse_fill < 30 {
                30
            } else {
                self.pulse_fill
            };
            canvas.fill_round_rect(ar.x, ar.y, ar.w, ar.h, 8, Color::from_argb(fill_alpha, c.r(), c.g(), c.b()));
            canvas.stroke_round_rect(ar.x, ar.y, ar.w, ar.h, 8, Color::from_argb(self.pulse_border, c.r(), c.g(), c.b()));
        } else {
            canvas.fill_round_rect(ar.x, ar.y, ar.w, ar.h, 8, Color::from_argb(25, 60, 60, 100));
            canvas.stroke_round_rect(ar.x, ar.y, ar.w, ar.h, 8, Color::from_argb(40, c.r(), c.g(), c.b()));
        }

        let icon_cy = ar.y + ar.h as i32 / 2 - 20;
        canvas.draw_icon(ar.x + ar.w as i32 / 2, icon_cy, 36, info.icon, c);

        let tw = (info.name.len() as u32) * 9;
        let tx = ar.x + (ar.w as i32 - tw as i32) / 2;
        canvas.draw_text(tx, icon_cy + 28, info.name, Color::from_rgb(200, 200, 230));
    }
}

/// A launcher after the change `c`: an event steps it as its
/// `handle_event` does; a move or a resize sets its rectangle as `set_pos`
/// and `set_size` do.
pub open spec fn launcher_changed(v: LauncherView, c: Change) -> LauncherView {
    match c {
        Change::Event(e, p) => launcher_step(v, e, p).1,
        Change::MoveTo(x, y) => LauncherView { rect: Rect { x, y, ..v.rect }, ..v },
        Change::Resize(w, h) => LauncherView { rect: Rect { w, h, ..v.rect }, ..v },
    }
}

/// A launcher after the changes `ops`, made in turn.
pub open spec fn launcher_after(v: LauncherView, ops: Seq<Change>) -> LauncherView {
    replay(v, ops, |u: LauncherView, c: Change| launcher_changed(u, c))
}

impl Widget for AppLauncher {
    open spec fn bounds_after(&self, ops: Seq<Change>) -> Rect {
        let v = launcher_after(self@, ops);
        v.rect
    }

    open spec fn painted_after(&self, ops: Seq<Change>, pix: Seq<u32>, w: int, h: int, font: Seq<u8>) -> Seq<u32> {
        let v = launcher_after(self@, ops);
        if launcher_drawn(v) { launcher_image(pix, w, h, font, v) } else { pix }
    }

    open spec fn answer_after(&self, ops: Seq<Change>, ev: Event, parent: Rect) -> EventResult {
        let v = launcher_after(self@, ops);
        launcher_step(v, ev, parent).0
    }

    open spec fn painted(&self, pix: Seq<u32>, w: int, h: int, font: Seq<u8>) -> Seq<u32> {
        self.painted_after(Seq::empty(), pix, w, h, font)
    }

    open spec fn answer(&self, ev: Event, parent: Rect) -> EventResult {
        self.answer_after(Seq::empty(), ev, parent)
    }

    open spec fn bounds(&self) -> Rect {
        self@.rect
    }

    open spec fn placeable(&self) -> bool {
        true
    }



    fn rect(&self) -> (r: Rect)
        ensures
            r == self@.rect,
    {
        self.rect
    }

    fn min_size(&self) -> (s: (u32, u32))
        ensures
            s == panel_size_of(self@.apps.len() as int),
    {
        Self::panel_size(self.apps.len())
    }

    fn set_pos(&mut self, x: i32, y: i32)
        ensures
            final(self)@ == (LauncherView { rect: Rect { x, y, ..old(self)@.rect }, ..old(self)@ }),
    {
        self.rect.x = x;
        self.rect.y = y;
    }

    fn set_size(&mut self, w: u32, h: u32)
        ensures
            final(self)@ == (LauncherView { rect: Rect { w, h, ..old(self)@.rect }, ..old(self)@ }),
    {
        self.rect.w = w;
        self.rect.h = h;
    }

    fn draw(&self, canvas: &mut Canvas)
        ensures
            final(canvas)@ == if launcher_drawn(self@) {
                launcher_image(old(canvas)@, old(canvas).width as int, old(canvas).height as int, old(canvas).font_view(), self@)
            } else {
                old(canvas)@
            },
    {
        if !self.frame_fits() {
            return;
        }
        let r = self.rect;

        glass_panel(
            canvas,
            r.x,
            r.y,
            r.w,
            r.h,
            16,
            Color::from_argb(200, 10, 10, 20),
            220,
            Color::from_rgb(0, 212, 255),
            0,
        );

        let cx = r.x + r.w as i32 / 2;
        proof {
            reveal_strlit("Apps");
            assert("Apps"@ =~= apps_title());
        }
        canvas.draw_text_large(cx - 48, r.y + 12, "Apps", Color::from_rgb(240, 240, 255), 2);
        let ghost (cw, ch, font, titled) = (canvas.width as int, canvas.height as int, canvas.font_view(), canvas@);

        let n = self.apps.len();
        let mut i: usize = 0;
        while i < n
            invariant
                i <= n,
                n == self.apps@.len(),
                launcher_drawn(self@),
                canvas.wf(),
                old(canvas).same_frame(&*canvas),
                cw == canvas.width,
                ch == canvas.height,
                font == canvas.font_view(),
                canvas@ == cells_image(titled, cw, ch, font, self@, i as int),
            decreases n - i,
        {
            self.draw_cell(canvas, i);
            i = i + 1;
        }
    }

    fn handle_event(&mut self, ev: &Event, parent: Rect) -> (res: EventResult)
        ensures
            (res, final(self)@) == launcher_step(old(self)@, *ev, parent),
    {
        if !self.open {
            return EventResult::Ignored;
        }
        match *ev {
            Event::MouseMove { x, y } => {
                let old_hover = self.hover_idx;
                let k = self.hit(parent, x, y);
                self.hover_idx = match k {
                    Some(i) => #[verifier::truncate] (i as i32),
                    None => -1,
                };
                if old_hover != self.hover_idx {
                    EventResult::Redraw
                } else {
                    EventResult::Ignored
                }
            },
            Event::MouseUp { x, y, .. } => {
                let k = self.hit(parent, x, y);
                if let Some(i) = k {
                    self.open = false;
                    self.launched = Some(i);
                    return EventResult::Handled;
                }
                let abs = Rect::new(parent.x.wrapping_add(self.rect.x), parent.y.wrapping_add(self.rect.y), self.rect.w, self.rect.h);
                if !abs.contains(x, y) {
                    self.open = false;
                    return EventResult::Redraw;
                }
                EventResult::Ignored
            },
            _ => EventResult::Ignored,
        }
    }
}

} // verus!
