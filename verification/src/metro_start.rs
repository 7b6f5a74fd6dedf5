use vstd::prelude::*;
use crate::canvas::{Canvas, text_layers};
use crate::color::{Color, pack_argb};
use crate::font::text_ends_within;
use crate::raster::{apply, fits, paint_rect};
use crate::rect::{Rect, signed, tdiv, to_i32};
use crate::widget::{Event, EventResult, Widget};
use crate::trace::{replay, Change};
use crate::window::as_i32;

verus! {

broadcast use crate::trace::lemma_replay_first;

/// Side of a start-screen tile.
pub const TILE: u32 = 140;

/// Space between tiles.
pub const GAP: u32 = 14;

/// Tiles per row.
pub const COLS: usize = 5;

/// Height of the title strip above the grid.
pub const TITLE_H: u32 = 80;

/// An application entry of the start screen: its name and tile colour.
pub struct AppInfo {
    pub name: &'static str,
    pub color: Color,
}

/// The contents of an [`AppInfo`].
pub struct MetroAppView {
    pub name: Seq<char>,
    pub name_bytes: int,
    pub color: u32,
}

impl View for AppInfo {
    type V = MetroAppView;

    open spec fn view(&self) -> MetroAppView {
        MetroAppView { name: self.name@, name_bytes: self.name.len() as int, color: self.color@ }
    }
}

/// The state of a [`MetroStart`].
pub struct MetroView {
    pub open: bool,
    pub apps: Seq<MetroAppView>,
    pub hover_idx: i32,
    pub screen_w: u32,
    pub screen_h: u32,
    pub launched: Option<usize>,
}

/// Top-left corner of the grid of `n` tiles, centred across the screen and
/// in the space below the title strip (computed in wrapping arithmetic).
pub open spec fn grid_origin_of(n: int, sw: u32, sh: u32) -> (i32, i32) {
    let rows = (n / 5 + if n % 5 != 0 { 1int } else { 0int }) as u32;
    let total_h = rows.wrapping_mul(TILE).wrapping_add(rows.wrapping_sub(1).wrapping_mul(GAP));
    let gx = tdiv(as_i32(sw).wrapping_sub(756) as int, 2);
    let gy = 80 + tdiv(as_i32(sh).wrapping_sub(80).wrapping_sub(as_i32(total_h)) as int, 2);
    (gx as i32, gy as i32)
}

/// Tile `idx` of the grid whose top-left corner is `(gx, gy)`.
pub open spec fn tile_box(idx: int, gx: i32, gy: i32) -> Rect {
    Rect {
        x: gx.wrapping_add(((idx % 5) as i32).wrapping_mul(154)),
        y: gy.wrapping_add(((idx / 5) as i32).wrapping_mul(154)),
        w: TILE,
        h: TILE,
    }
}

/// The title drawn at the top of the start screen.
pub open spec fn start_title() -> Seq<char> {
    seq!['S', 't', 'a', 'r', 't']
}

/// The pixels after tile `i` of the grid at `(gx, gy)` is drawn: a
/// translucent white frame 2 pixels out when hovered, the tile in the
/// application's colour, and its name centred 19 rows above the tile's
/// bottom.
pub open spec fn start_tile_image(pix: Seq<u32>, w: int, h: int, font: Seq<u8>, v: MetroView, i: int, gx: i32, gy: i32) -> Seq<u32> {
    let info = v.apps[i];
    let tr = tile_box(i, gx, gy);
    let (x, y) = (tr.x as int, tr.y as int);
    let framed = if i == v.hover_idx {
        apply(pix, w, h, paint_rect(x - 2, y - 2, TILE + 4, TILE + 4, pack_argb(60, 255, 255, 255)))
    } else {
        pix
    };
    let tiled = apply(framed, w, h, paint_rect(x, y, TILE as int, TILE as int, info.color));
    text_layers(tiled, w, h, font, info.name, x + tdiv(TILE - info.name_bytes * 9, 2), y + TILE - 19, 1,
        pack_argb(0xFF, 255, 255, 255), info.name.len() as int)
}

/// The pixels after the first `n` tiles of the grid at `(gx, gy)` are drawn.
pub open spec fn start_tiles_image(pix: Seq<u32>, w: int, h: int, font: Seq<u8>, v: MetroView, gx: i32, gy: i32, n: int) -> Seq<u32>
    decreases n,
{
    if n <= 0 {
        pix
    } else {
        start_tile_image(start_tiles_image(pix, w, h, font, v, gx, gy, n - 1), w, h, font, v, n - 1, gx, gy)
    }
}

/// The pixels `pix` of a `w` x `h` canvas with glyph table `font` after an
/// open start screen is drawn: the whole screen in dark grey, the title
/// "Start" at 3x at `(44, 28)`, and every tile of the grid.
pub open spec fn start_image(pix: Seq<u32>, w: int, h: int, font: Seq<u8>, v: MetroView) -> Seq<u32> {
    let bg = apply(pix, w, h, paint_rect(0, 0, signed(v.screen_w), signed(v.screen_h), pack_argb(0xFF, 30, 30, 30)));
    let titled = text_layers(bg, w, h, font, start_title(), 44, 28, 3, pack_argb(0xFF, 255, 255, 255), 5);
    let (gx, gy) = grid_origin_of(v.apps.len() as int, v.screen_w, v.screen_h);
    start_tiles_image(titled, w, h, font, v, gx, gy, v.apps.len() as int)
}

/// Whether tile `i` of the grid at `(gx, gy)` is drawn within `i32`: its
/// row's offset (154 pixels a row), its edges (2 pixels further out when
/// hovered), its name's width (9 pixels a byte), origin and end, and the
/// name's last row are `i32` values.
pub open spec fn start_tile_fits(v: MetroView, i: int, gx: i32, gy: i32) -> bool {
    let info = v.apps[i];
    let x = gx + (i % 5) * 154;
    let y = gy + (i / 5) * 154;
    let nx = x + tdiv(TILE - info.name_bytes * 9, 2);
    &&& (i / 5) * 154 <= i32::MAX
    &&& fits(x, TILE as int) && y + TILE <= i32::MAX
    &&& i == v.hover_idx ==> i32::MIN <= x - 2 && i32::MIN <= y - 2 && fits(x - 2, TILE + 4) && fits(y - 2, TILE + 4)
    &&& info.name_bytes * 9 <= i32::MAX
    &&& i32::MIN <= nx && nx + info.name.len() * 9 <= i32::MAX
    &&& y + TILE - 19 + 13 <= i32::MAX + 1
}

/// Whether a start screen is drawn: it is open and every tile of its grid
/// lies in the `i32` plane (see [`start_tile_fits`]).
pub open spec fn start_drawn(v: MetroView) -> bool {
    let g = grid_origin_of(v.apps.len() as int, v.screen_w, v.screen_h);
    &&& v.open
    &&& forall|i: int| 0 <= i < v.apps.len() ==> #[trigger] start_tile_fits(v, i, g.0, g.1)
}

/// The first of the `n` tiles from `from` on that holds `(x, y)`, or -1.
pub open spec fn tile_hit(n: int, gx: i32, gy: i32, x: int, y: int, from: int) -> int
    decreases n - from,
{
    if from < 0 || from >= n {
        -1
    } else if tile_box(from, gx, gy).spec_contains(x, y) {
        from
    } else {
        tile_hit(n, gx, gy, x, y, from + 1)
    }
}

/// Whether `(x, y)` lies outside the grid area: above it by more than 20
/// pixels, left or right of it, or below its last row (counting one row
/// more when the last row is full).
pub open spec fn off_grid(n: int, gx: i32, gy: i32, x: i32, y: i32) -> bool {
    let bottom = (((n as u32) / 5 + 1) as u32).wrapping_mul(154) - 14;
    ||| y < gy.wrapping_sub(20)
    ||| x < gx
    ||| x > gx.wrapping_add(756)
    ||| y > gy.wrapping_add(as_i32(bottom as u32))
}

/// What an open start screen answers to `ev` and its state after it: a
/// move hovers the tile under the pointer (redraw when that changes); a
/// release over a tile closes the screen and records that application as
/// launched; a release off the grid closes it. A closed screen ignores
/// everything.
pub open spec fn metro_step(v: MetroView, ev: Event) -> (EventResult, MetroView) {
    if !v.open {
        (EventResult::Ignored, v)
    } else {
        let n = v.apps.len() as int;
        let (gx, gy) = grid_origin_of(n, v.screen_w, v.screen_h);
        match ev {
            Event::MouseMove { x, y } => {
                let k = tile_hit(n, gx, gy, x as int, y as int, 0);
                let h: i32 = if k >= 0 {
                    k as i32
                } else {
                    -1i32
                };
                (
                    if h != v.hover_idx {
                        EventResult::Redraw
                    } else {
                        EventResult::Ignored
                    },
                    MetroView { hover_idx: h, ..v },
                )
            },
            Event::MouseUp { x, y, .. } => {
                let k = tile_hit(n, gx, gy, x as int, y as int, 0);
                if k >= 0 {
                    (EventResult::Handled, MetroView { open: false, launched: Some(k as usize), ..v })
                } else if off_grid(n, gx, gy, x, y) {
                    (EventResult::Redraw, MetroView { open: false, ..v })
                } else {
                    (EventResult::Ignored, v)
                }
            },
            Event::MouseDown { .. } => (EventResult::Ignored, v),
        }
    }
}

/// A full-screen start menu: a grid of application tiles.
pub struct MetroStart {
    pub open: bool,
    pub apps: Vec<AppInfo>,
    hover_idx: i32,
    pub screen_w: u32,
    pub screen_h: u32,
    launched: Option<usize>,
}

impl View for MetroStart {
    type V = MetroView;

    closed spec fn view(&self) -> MetroView {
        MetroView {
            open: self.open,
            apps: self.apps@.map_values(|a: AppInfo| a@),
            hover_idx: self.hover_idx,
            screen_w: self.screen_w,
            screen_h: self.screen_h,
            launched: self.launched,
        }
    }
}

/// The start screen's twelve entries, in order, with their names and
/// colours.
pub open spec fn start_menu(apps: Seq<MetroAppView>) -> bool {
    &&& apps.len() == 12
    &&& apps[0].name == "Terminal"@ && apps[0].color == pack_argb(0xFF, 0, 120, 215)
    &&& apps[1].name == "Calc"@ && apps[1].color == pack_argb(0xFF, 240, 140, 40)
    &&& apps[2].name == "Settings"@ && apps[2].color == pack_argb(0xFF, 120, 120, 120)
    &&& apps[3].name == "Clock"@ && apps[3].color == pack_argb(0xFF, 0, 170, 170)
    &&& apps[4].name == "Editor"@ && apps[4].color == pack_argb(0xFF, 200, 60, 60)
    &&& apps[5].name == "Files"@ && apps[5].color == pack_argb(0xFF, 80, 180, 80)
    &&& apps[6].name == "Snake"@ && apps[6].color == pack_argb(0xFF, 160, 80, 200)
    &&& apps[7].name == "Pong"@ && apps[7].color == pack_argb(0xFF, 220, 60, 140)
    &&& apps[8].name == "Tetris"@ && apps[8].color == pack_argb(0xFF, 220, 200, 40)
    &&& apps[9].name == "Demo"@ && apps[9].color == pack_argb(0xFF, 0, 190, 200)
    &&& apps[10].name == "Shutdown"@ && apps[10].color == pack_argb(0xFF, 200, 40, 40)
    &&& apps[11].name == "Reboot"@ && apps[11].color == pack_argb(0xFF, 200, 160, 40)
}

/// A new start-screen entry.
fn entry(name: &'static str, r: u8, g: u8, b: u8) -> (a: AppInfo)
    ensures
        a@ == (MetroAppView { name: name@, name_bytes: name.len() as int, color: crate::color::pack_argb(0xFF, r, g, b) }),
{
    AppInfo { name, color: Color::from_rgb(r, g, b) }
}

impl MetroStart {
    pub fn new(w: u32, h: u32) -> (m: Self)
        ensures
            !m@.open,
            m@.screen_w == w,
            m@.screen_h == h,
            m@.hover_idx == -1,
            m@.launched is None,
            start_menu(m@.apps),
    {
        let mut apps: Vec<AppInfo> = Vec::new();
        apps.push(entry("Terminal", 0, 120, 215));
        apps.push(entry("Calc", 240, 140, 40));
        apps.push(entry("Settings", 120, 120, 120));
        apps.push(entry("Clock", 0, 170, 170));
        apps.push(entry("Editor", 200, 60, 60));
        apps.push(entry("Files", 80, 180, 80));
        apps.push(entry("Snake", 160, 80, 200));
        apps.push(entry("Pong", 220, 60, 140));
        apps.push(entry("Tetris", 220, 200, 40));
        apps.push(entry("Demo", 0, 190, 200));
        apps.push(entry("Shutdown", 200, 40, 40));
        apps.push(entry("Reboot", 200, 160, 40));
        Self { open: false, apps, hover_idx: -1, screen_w: w, screen_h: h, launched: None }
    }

    pub fn is_open(&self) -> (b: bool)
        ensures
            b == self@.open,
    {
        self.open
    }

    pub fn set_open(&mut self, open: bool)
        ensures
            final(self)@ == (MetroView { open, ..old(self)@ }),
    {
        self.open = open;
    }

    /// Opens a closed screen or closes an open one, clearing the hover.
    pub fn toggle(&mut self)
        ensures
            final(self)@ == (MetroView { open: !old(self)@.open, hover_idx: -1i32, ..old(self)@ }),
    {
        self.open = !self.open;
        self.hover_idx = -1;
    }

    /// The application launched by the last release over a tile, if any,
    /// cleared as it is taken.
    pub fn take_launched(&mut self) -> (i: Option<usize>)
        ensures
            i == old(self)@.launched,
            final(self)@ == (MetroView { launched: None, ..old(self)@ }),
    {
        let i = self.launched;
        self.launched = None;
        i
    }

    fn grid_origin(&self) -> (g: (i32, i32))
        ensures
            g == grid_origin_of(self@.apps.len() as int, self.screen_w, self.screen_h),
    {
        let n = self.apps.len();
        let rows = (n / COLS + if n % COLS != 0 {
            1
        } else {
            0
        }) as u32;
        let total_h = rows.wrapping_mul(TILE).wrapping_add(rows.wrapping_sub(1).wrapping_mul(GAP));
        let gx = to_i32(self.screen_w).wrapping_sub(756) / 2;
        let gy = TITLE_H as i32 + (to_i32(self.screen_h).wrapping_sub(80).wrapping_sub(to_i32(total_h)) / 2);
        (gx, gy)
    }

    /// Tests [`start_tile_fits`] for tile `i`.
    fn tile_fits_at(&self, i: usize, gx: i32, gy: i32) -> (b: bool)
        requires
            i < self@.apps.len(),
        ensures
            b == start_tile_fits(self@, i as int, gx, gy),
    {
        let info = &self.apps[i];
        assert(self@.apps[i as int] == self.apps@[i as int]@);
        let (min, max) = (i32::MIN as i64, i32::MAX as i64);
        let row = (i / COLS) as i64;
        let col = (i % COLS) as i64;
        if row > max / 154 {
            return false;
        }
        let x = gx as i64 + col * 154;
        let y = gy as i64 + row * 154;
        if x + 140 > max + 1 || y + 140 > max {
            return false;
        }
        assert(i <= 0x7fff_ffff);
        if (i as i32) == self.hover_idx && (x - 2 < min || y - 2 < min || x + 142 > max + 1 || y + 142 > max + 1) {
            return false;
        }
        let nb = info.name.len();
        if nb > 238609294 {
            return false;
        }
        let nx = x + (140 - nb as i64 * 9) / 2;
        if nx < min {
            return false;
        }
        let b = text_ends_within(info.name, nx, 9);
        assert(info.name.len() == self@.apps[i as int].name_bytes);
        assert(info.name@ == self@.apps[i as int].name);
        proof {
            let v = self@;
            assert(nx == x + tdiv(140 - nb * 9, 2));
            assert(x == gx + (i % 5) * 154 && y == gy + (i / 5) * 154);
            assert(i == v.hover_idx ==> fits(x - 2, TILE + 4) && fits(y - 2, TILE + 4));
            assert(b == (i32::MIN <= nx && nx + v.apps[i as int].name.len() * 9 <= i32::MAX));
        }
        b
    }

    /// Tests [`start_drawn`].
    fn frame_fits(&self) -> (b: bool)
        ensures
            b == start_drawn(self@),
    {
        if !self.open {
            return false;
        }
        let (gx, gy) = self.grid_origin();
        let n = self.apps.len();
        let mut i: usize = 0;
        while i < n
            invariant
                i <= n,
                n == self@.apps.len(),
                (gx, gy) == grid_origin_of(self@.apps.len() as int, self@.screen_w, self@.screen_h),
                forall|j: int| 0 <= j < i ==> #[trigger] start_tile_fits(self@, j, gx, gy),
            decreases n - i,
        {
            if !self.tile_fits_at(i, gx, gy) {
                let ghost g = grid_origin_of(self@.apps.len() as int, self@.screen_w, self@.screen_h);
                assert(g.0 == gx && g.1 == gy);
                assert(!start_tile_fits(self@, i as int, g.0, g.1));
                return false;
            }
            i = i + 1;
        }
        true
    }

    fn tile_rect(&self, idx: usize, gx: i32, gy: i32) -> (r: Rect)
        ensures
            r == tile_box(idx as int, gx, gy),
    {
        let col = (idx % COLS) as i32;
        let row = #[verifier::truncate] ((idx / COLS) as i32);
        Rect::new(gx.wrapping_add(col.wrapping_mul(154)), gy.wrapping_add(row.wrapping_mul(154)), TILE, TILE)
    }

    /// The first tile holding `(x, y)`, if any.
    fn hit(&self, gx: i32, gy: i32, x: i32, y: i32) -> (k: Option<usize>)
        ensures
            match k {
                Some(i) => i as int == tile_hit(self@.apps.len() as int, gx, gy, x as int, y as int, 0),
                None => tile_hit(self@.apps.len() as int, gx, gy, x as int, y as int, 0) == -1,
            },
    {
        let n = self.apps.len();
        let mut i: usize = 0;
        while i < n
            invariant
                i <= n,
                n == self@.apps.len(),
                tile_hit(n as int, gx, gy, x as int, y as int, 0) == tile_hit(n as int, gx, gy, x as int, y as int, i as int),
            decreases n - i,
        {
            if self.tile_rect(i, gx, gy).contains(x, y) {
                return Some(i);
            }
            i = i + 1;
        }
        None
    }

    /// Whether `(x, y)` lies off the grid area.
    fn off_grid(&self, gx: i32, gy: i32, x: i32, y: i32) -> (b: bool)
        ensures
            b == off_grid(self@.apps.len() as int, gx, gy, x, y),
    {
        let n32 = #[verifier::truncate] (self.apps.len() as u32);
        let bottom = (n32 / COLS as u32 + 1).wrapping_mul(TILE + GAP) - GAP;
        y < gy.wrapping_sub(20) || x < gx || x > gx.wrapping_add(COLS as i32 * (TILE + GAP) as i32 - GAP as i32) || y
            > gy.wrapping_add(to_i32(bottom))
    }

    /// Draws tile `i`: a lighter frame when hovered, the tile and its name.
    fn draw_tile(&self, canvas: &mut Canvas, i: usize, gx: i32, gy: i32)
        requires
            old(canvas).wf(),
            i < self@.apps.len(),
            start_tile_fits(self@, i as int, gx, gy),
        ensures
            final(canvas).wf(),
            old(canvas).same_frame(&*final(canvas)),
            final(canvas)@ == start_tile_image(old(canvas)@, old(canvas).width as int, old(canvas).height as int, old(canvas).font_view(), self@, i as int, gx, gy),
    {
        let info = &self.apps[i];
        let tr = self.tile_rect(i, gx, gy);
        if #[verifier::truncate] (i as i32) == self.hover_idx {
            canvas.fill_rect(tr.x - 2, tr.y - 2, tr.w + 4, tr.h + 4, Color::from_argb(60, 255, 255, 255));
        }
        canvas.fill_rect(tr.x, tr.y, tr.w, tr.h, info.color);
        let tw = (info.name.len() as u32) * 9;
        let tx = tr.x + (tr.w as i32 - tw as i32) / 2;
        let ty = tr.y + tr.h as i32 - 13 - 6;
        canvas.draw_text(tx, ty, info.name, Color::from_rgb(255, 255, 255));
    }
}

/// A start after the change `c`: an event steps it as its
/// `handle_event` does; a move or a resize sets its rectangle as `set_pos`
/// and `set_size` do.
pub open spec fn start_changed(v: MetroView, c: Change) -> MetroView {
    match c {
        Change::Event(e, p) => metro_step(v, e).1,
        Change::MoveTo(x, y) => v,
        Change::Resize(w, h) => MetroView { screen_w: w, screen_h: h, ..v },
    }
}

/// A start after the changes `ops`, made in turn.
pub open spec fn start_after(v: MetroView, ops: Seq<Change>) -> MetroView {
    replay(v, ops, |u: MetroView, c: Change| start_changed(u, c))
}

impl Widget for MetroStart {
    open spec fn bounds_after(&self, ops: Seq<Change>) -> Rect {
        let v = start_after(self@, ops);
        Rect { x: 0, y: 0, w: v.screen_w, h: v.screen_h }
    }

    open spec fn painted_after(&self, ops: Seq<Change>, pix: Seq<u32>, w: int, h: int, font: Seq<u8>) -> Seq<u32> {
        let v = start_after(self@, ops);
        if start_drawn(v) { start_image(pix, w, h, font, v) } else { pix }
    }

    open spec fn answer_after(&self, ops: Seq<Change>, ev: Event, parent: Rect) -> EventResult {
        let v = start_after(self@, ops);
        metro_step(v, ev).0
    }

    open spec fn painted(&self, pix: Seq<u32>, w: int, h: int, font: Seq<u8>) -> Seq<u32> {
        self.painted_after(Seq::empty(), pix, w, h, font)
    }

    open spec fn answer(&self, ev: Event, parent: Rect) -> EventResult {
        self.answer_after(Seq::empty(), ev, parent)
    }

    open spec fn bounds(&self) -> Rect {
        Rect { x: 0, y: 0, w: self@.screen_w, h: self@.screen_h }
    }

    open spec fn placeable(&self) -> bool {
        false
    }



    fn draw(&self, canvas: &mut Canvas)
        ensures
            final(canvas)@ == if start_drawn(self@) {
                start_image(old(canvas)@, old(canvas).width as int, old(canvas).height as int, old(canvas).font_view(), self@)
            } else {
                old(canvas)@
            },
    {
        if !self.frame_fits() {
            return;
        }

        canvas.fill_rect(0, 0, self.screen_w, self.screen_h, Color::from_rgb(30, 30, 30));

        proof {
            reveal_strlit("Start");
            assert("Start"@ =~= start_title());
        }
        canvas.draw_text_large(44, 28, "Start", Color::from_rgb(255, 255, 255), 3);
        let ghost (cw, ch, font, titled) = (canvas.width as int, canvas.height as int, canvas.font_view(), canvas@);

        let (gx, gy) = self.grid_origin();
        let n = self.apps.len();
        let mut i: usize = 0;
        while i < n
            invariant
                i <= n,
                n == self@.apps.len(),
                (gx, gy) == grid_origin_of(self@.apps.len() as int, self@.screen_w, self@.screen_h),
                start_drawn(self@),
                canvas.wf(),
                old(canvas).same_frame(&*canvas),
                cw == canvas.width,
                ch == canvas.height,
                font == canvas.font_view(),
                canvas@ == start_tiles_image(titled, cw, ch, font, self@, gx, gy, i as int),
            decreases n - i,
        {
            proof {
                let g = grid_origin_of(self@.apps.len() as int, self@.screen_w, self@.screen_h);
                assert(g.0 == gx && g.1 == gy);
                assert(start_tile_fits(self@, i as int, g.0, g.1));
            }
            self.draw_tile(canvas, i, gx, gy);
            i = i + 1;
        }
    }

    fn rect(&self) -> (r: Rect)
        ensures
            r == Rect::new_spec(0, 0, self@.screen_w, self@.screen_h),
    {
        Rect::new(0, 0, self.screen_w, self.screen_h)
    }

    fn min_size(&self) -> (s: (u32, u32))
        ensures
            s == (self@.screen_w, self@.screen_h),
    {
        (self.screen_w, self.screen_h)
    }

    /// The start screen always covers the whole screen: placing it does
    /// nothing.
    fn set_pos(&mut self, _x: i32, _y: i32)
        ensures
            final(self)@ == old(self)@,
    {
    }

    fn set_size(&mut self, w: u32, h: u32)
        ensures
            final(self)@ == (MetroView { screen_w: w, screen_h: h, ..old(self)@ }),
    {
        self.screen_w = w;
        self.screen_h = h;
    }

    fn handle_event(&mut self, ev: &Event, _parent: Rect) -> (res: EventResult)
        ensures
            (res, final(self)@) == metro_step(old(self)@, *ev),
    {
        if !self.open {
            return EventResult::Ignored;
        }
        let (gx, gy) = self.grid_origin();

        match *ev {
            Event::MouseMove { x, y } => {
                let old_hover = self.hover_idx;
                self.hover_idx = match self.hit(gx, gy, x, y) {
                    Some(i) => #[verifier::truncate] (i as i32),
                    None => -1,
                };
                if old_hover != self.hover_idx {
                    EventResult::Redraw
                } else {
                    EventResult::Ignored
                }
            },
            Event::MouseUp { x, y, .. } => {
                if let Some(i) = self.hit(gx, gy, x, y) {
                    self.open = false;
                    self.launched = Some(i);
                    return EventResult::Handled;
                }
                if self.off_grid(gx, gy, x, y) {
                    self.open = false;
                    return EventResult::Redraw;
                }
                EventResult::Ignored
            },
            _ => EventResult::Ignored,
        }
    }
}

} // verus!
