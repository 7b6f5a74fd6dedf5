use vstd::prelude::*;
use crate::canvas::{Canvas, text_layers};
use crate::color::Color;
use crate::font::text_ends_within;
use crate::raster::{apply, paint_rect};
use crate::rect::{Rect, signed, tdiv, to_i32};
use crate::tile::{tile_drawn, tile_image, MediaTile, MediaTileView};
use crate::widget::{press_step, Event, EventResult, Widget};
use crate::trace::{replay, Change};
use crate::window::as_i32;

verus! {

broadcast use crate::trace::lemma_replay_first;

/// The state of a [`TileScroller`].
pub struct ScrollerView {
    pub rect: Rect,
    pub tiles: Seq<MediaTileView>,
    pub scroll_offset: i32,
    pub target_offset: i32,
    pub tile_w: u32,
    pub tile_h: u32,
    pub gap: i32,
    pub dragging: bool,
    pub drag_start_x: i32,
    pub drag_start_offset: i32,
    pub title: Seq<char>,
    pub title_bytes: int,
}

/// Distance from one tile's left edge to the next one's.
pub open spec fn pitch(v: ScrollerView) -> i32 {
    as_i32(v.tile_w).wrapping_add(v.gap)
}

/// Width of the strip of tiles with a 40-pixel margin on each side
/// (computed in wrapping `i32` arithmetic).
pub open spec fn total_width_of(v: ScrollerView) -> i32 {
    (v.tiles.len() as i32).wrapping_mul(pitch(v)).wrapping_sub(v.gap).wrapping_add(80)
}

/// Left edge of tile `i`: 40 pixels in from the scroller, shifted by the
/// scroll offset, one pitch per tile.
pub open spec fn tile_x(v: ScrollerView, i: int) -> i32 {
    v.rect.x.wrapping_add(40).wrapping_add(v.scroll_offset).wrapping_add((i as i32).wrapping_mul(pitch(v)))
}

/// The tiles placed in a row 50 pixels below the scroller's top, each
/// `tile_w` x `tile_h`.
pub open spec fn laid_out(v: ScrollerView) -> Seq<MediaTileView> {
    Seq::new(
        v.tiles.len(),
        |i: int|
            MediaTileView {
                rect: Rect { x: tile_x(v, i), y: v.rect.y.wrapping_add(50), w: v.tile_w, h: v.tile_h },
                ..v.tiles[i]
            },
    )
}

/// The pixels after the first `n` of `tiles` have been drawn in order
/// (each one whose coordinates are `i32` values; see [`tile_drawn`]).
pub open spec fn tiles_image(pix: Seq<u32>, w: int, h: int, font: Seq<u8>, tiles: Seq<MediaTileView>, n: int) -> Seq<u32>
    decreases n,
{
    if n <= 0 {
        pix
    } else {
        let prev = tiles_image(pix, w, h, font, tiles, n - 1);
        let t = tiles[n - 1];
        if tile_drawn(t) {
            tile_image(prev, w, h, font, t)
        } else {
            prev
        }
    }
}

/// The scroll bar, when the strip is wider than the scroller: its left
/// edge, top and width. It is `vis_w * vis_w / total` wide (at least 40),
/// 12 rows above the scroller's bottom, and shifted right by the scroll
/// offset times the free width over the hidden width (never left of the
/// scroller's edge), in wrapping `i32` arithmetic.
pub open spec fn scroll_bar(v: ScrollerView) -> Option<(i32, i32, i32)> {
    let vis_w = as_i32(v.rect.w);
    let total = total_width_of(v);
    if total > vis_w {
        let share = tdiv(vis_w.wrapping_mul(vis_w) as int, total as int) as i32;
        let bar_w: i32 = if share < 40 { 40 } else { share };
        let span = total - vis_w;
        let shift = v.scroll_offset.wrapping_mul(vis_w.wrapping_sub(bar_w));
        let q = tdiv(shift as int, span) as i32;
        let bar_x = v.rect.x.wrapping_add(if q < 0 { 0i32 } else { q });
        Some((bar_x, (v.rect.y + signed(v.rect.h) - 12) as i32, bar_w))
    } else {
        None
    }
}

/// The pixels `pix` of a `w` x `h` canvas with glyph table `font` after a
/// scroller is drawn: its title at 2x from 20 right and 8 down, a 60 x 3
/// underline 36 rows down, its tiles in order, and the scroll bar (4 rows
/// high) when the strip is wider than the scroller and the bar ends within
/// `i32`.
pub open spec fn scroller_image(pix: Seq<u32>, w: int, h: int, font: Seq<u8>, v: ScrollerView) -> Seq<u32> {
    let (x, y) = (v.rect.x as int, v.rect.y as int);
    let titled = text_layers(pix, w, h, font, v.title, x + 20, y + 8, 2, 0xFFE8_E8F0, v.title.len() as int);
    let lined = apply(titled, w, h, paint_rect(x + 20, y + 36, 60, 3, 0xFF66_99CC));
    let tiled = tiles_image(lined, w, h, font, v.tiles, v.tiles.len() as int);
    match scroll_bar(v) {
        Some((bx, by, bw)) => if bx + bw <= i32::MAX + 1 {
            apply(tiled, w, h, paint_rect(bx as int, by as int, bw as int, 4, 0x88FF_FFFF))
        } else {
            tiled
        },
        None => tiled,
    }
}

/// Whether a scroller's own parts are drawn (its tiles are drawn or not by
/// their own rule): its width and height, the end of its title at 2x, 18
/// pixels a character from 20 right of its left edge, its underline, 36 to
/// 39 rows down, and, when it has a scroll bar, the bar's row, 12 above its
/// bottom edge, are `i32` values.
pub open spec fn scroller_drawn(v: ScrollerView) -> bool {
    let (x, y, hs) = (v.rect.x as int, v.rect.y as int, v.rect.h as int);
    &&& v.rect.w <= i32::MAX && v.rect.h <= i32::MAX
    &&& x + 20 + v.title.len() * 18 <= i32::MAX
    &&& x + 80 <= i32::MAX + 1
    &&& y + 39 <= i32::MAX + 1
    &&& scroll_bar(v) is Some ==> i32::MIN <= y + hs - 12 && i32::MIN <= y + hs <= i32::MAX
}

/// Every tile after it has handled `ev`.
pub open spec fn step_tiles(tiles: Seq<MediaTileView>, ev: Event) -> Seq<MediaTileView> {
    Seq::new(
        tiles.len(),
        |i: int|
            {
                let s = press_step(tiles[i].rect, tiles[i].hovered, tiles[i].pressed, ev);
                MediaTileView { hovered: s.1, pressed: s.2, ..tiles[i] }
            },
    )
}

/// Whether some tile answers `ev` with anything but `Ignored`.
pub open spec fn any_tile_answers(tiles: Seq<MediaTileView>, ev: Event) -> bool {
    exists|i: int|
        0 <= i < tiles.len() && (#[trigger] press_step(tiles[i].rect, tiles[i].hovered, tiles[i].pressed, ev)).0
            != EventResult::Ignored
}

/// The first tile from `from` on whose rectangle holds `(x, y)`, or -1.
pub open spec fn first_hit(tiles: Seq<MediaTileView>, x: int, y: int, from: int) -> int
    decreases tiles.len() - from,
{
    if from < 0 || from >= tiles.len() {
        -1
    } else if tiles[from].rect.spec_contains(x, y) {
        from
    } else {
        first_hit(tiles, x, y, from + 1)
    }
}

/// The scroll offset a drag to pointer column `x` gives: the offset at the
/// start of the drag plus the pointer's travel, kept between 0 and the
/// most that still shows the last tile.
pub open spec fn drag_offset(v: ScrollerView, x: i32) -> i32 {
    let new_off = v.drag_start_offset.wrapping_add(x.wrapping_sub(v.drag_start_x));
    let excess = total_width_of(v).wrapping_sub(as_i32(v.rect.w));
    let min_off: i32 = if excess > 0 {
        (-excess) as i32
    } else {
        0
    };
    let lower = if new_off < min_off {
        min_off
    } else {
        new_off
    };
    if lower > 0 {
        0
    } else {
        lower
    }
}

/// What a scroller answers to `ev`, and its state after it: a drag moves
/// the strip and lays the tiles out again; otherwise moves and releases go
/// to every tile (a redraw when any of them answers), and a press inside
/// the scroller goes to the first tile under the pointer or else starts a
/// drag.
pub open spec fn scroller_step(v: ScrollerView, ev: Event) -> (EventResult, ScrollerView) {
    match ev {
        Event::MouseMove { x, y } => {
            if v.dragging {
                let v2 = ScrollerView { scroll_offset: drag_offset(v, x), ..v };
                (EventResult::Redraw, ScrollerView { tiles: laid_out(v2), ..v2 })
            } else {
                (
                    if any_tile_answers(v.tiles, ev) {
                        EventResult::Redraw
                    } else {
                        EventResult::Ignored
                    },
                    ScrollerView { tiles: step_tiles(v.tiles, ev), ..v },
                )
            }
        },
        Event::MouseDown { x, y, .. } => {
            if v.rect.spec_contains(x as int, y as int) {
                let k = first_hit(v.tiles, x as int, y as int, 0);
                if k >= 0 {
                    (
                        EventResult::Redraw,
                        ScrollerView { tiles: v.tiles.update(k, MediaTileView { pressed: true, ..v.tiles[k] }), ..v },
                    )
                } else {
                    (
                        EventResult::Redraw,
                        ScrollerView { dragging: true, drag_start_x: x, drag_start_offset: v.scroll_offset, ..v },
                    )
                }
            } else {
                (EventResult::Ignored, v)
            }
        },
        Event::MouseUp { .. } => {
            if v.dragging {
                (EventResult::Redraw, ScrollerView { dragging: false, ..v })
            } else {
                (
                    if any_tile_answers(v.tiles, ev) {
                        EventResult::Redraw
                    } else {
                        EventResult::Ignored
                    },
                    ScrollerView { tiles: step_tiles(v.tiles, ev), ..v },
                )
            }
        },
    }
}

/// A horizontally scrolling row of media tiles under a title.
pub struct TileScroller {
    rect: Rect,
    tiles: Vec<MediaTile>,
    pub scroll_offset: i32,
    target_offset: i32,
    tile_w: u32,
    tile_h: u32,
    gap: i32,
    dragging: bool,
    drag_start_x: i32,
    drag_start_offset: i32,
    pub title: &'static str,
}

impl View for TileScroller {
    type V = ScrollerView;

    closed spec fn view(&self) -> ScrollerView {
        ScrollerView {
            rect: self.rect,
            tiles: self.tiles@.map_values(|t: MediaTile| t@),
            scroll_offset: self.scroll_offset,
            target_offset: self.target_offset,
            tile_w: self.tile_w,
            tile_h: self.tile_h,
            gap: self.gap,
            dragging: self.dragging,
            drag_start_x: self.drag_start_x,
            drag_start_offset: self.drag_start_offset,
            title: self.title@,
            title_bytes: self.title.len() as int,
        }
    }
}

impl TileScroller {
    pub fn new(title: &'static str) -> (s: Self)
        ensures
            s@ == (ScrollerView {
                rect: Rect::new_spec(0, 0, 800, 320),
                tiles: Seq::empty(),
                scroll_offset: 0,
                target_offset: 0,
                tile_w: 200,
                tile_h: 260,
                gap: 24,
                dragging: false,
                drag_start_x: 0,
                drag_start_offset: 0,
                title: title@,
                title_bytes: title.len() as int,
            }),
    {
        let s = Self {
            rect: Rect::new(0, 0, 800, 320),
            tiles: Vec::new(),
            scroll_offset: 0,
            target_offset: 0,
            tile_w: 200,
            tile_h: 260,
            gap: 24,
            dragging: false,
            drag_start_x: 0,
            drag_start_offset: 0,
            title,
        };
        assert(s@.tiles =~= Seq::empty());
        s
    }

    /// Appends a tile to the row.
    pub fn add_tile(&mut self, tile: MediaTile)
        ensures
            final(self)@ == (ScrollerView { tiles: old(self)@.tiles.push(tile@), ..old(self)@ }),
    {
        self.tiles.push(tile);
        assert(self@.tiles =~= old(self)@.tiles.push(tile@));
    }

    fn layout_tiles(&mut self)
        ensures
            final(self)@ == (ScrollerView { tiles: laid_out(old(self)@), ..old(self)@ }),
    {
        let ghost v = self@;
        let start_x = self.rect.x.wrapping_add(40).wrapping_add(self.scroll_offset);
        let step = to_i32(self.tile_w).wrapping_add(self.gap);
        let ty = self.rect.y.wrapping_add(50);
        let n = self.tiles.len();
        let mut i: usize = 0;
        while i < n
            invariant
                i <= n,
                n == self.tiles@.len(),
                n == v.tiles.len(),
                start_x == v.rect.x.wrapping_add(40).wrapping_add(v.scroll_offset),
                step == pitch(v),
                ty == v.rect.y.wrapping_add(50),
                self@ == (ScrollerView { tiles: self@.tiles, ..v }),
                self@.tiles.len() == n,
                forall|k: int| 0 <= k < i ==> #[trigger] self.tiles@[k]@ == laid_out(v)[k],
                forall|k: int| i <= k < n ==> #[trigger] self.tiles@[k]@ == v.tiles[k],
            decreases n - i,
        {
            let tx = start_x.wrapping_add((#[verifier::truncate] (i as i32)).wrapping_mul(step));
            let ghost before = self.tiles@;
            self.tiles[i].set_pos(tx, ty);
            self.tiles[i].set_size(self.tile_w, self.tile_h);
            proof {
                assert forall|k: int| 0 <= k < n && k != i implies #[trigger] self.tiles@[k] == before[k] by {}
                assert(self.tiles@[i as int]@ == laid_out(v)[i as int]);
            }
            i = i + 1;
        }
        assert(self@.tiles =~= laid_out(v));
    }

    /// Width of the strip of tiles with its margins.
    /// Tests [`scroller_drawn`].
    fn frame_fits(&self) -> (b: bool)
        ensures
            b == scroller_drawn(self@),
    {
        let r = self.rect;
        let (x, y, hs) = (r.x as i64, r.y as i64, r.h as i64);
        let (min, max) = (i32::MIN as i64, i32::MAX as i64);
        if r.w > 0x7fff_ffff || r.h > 0x7fff_ffff || x + 80 > max + 1 || y + 39 > max + 1 {
            return false;
        }
        if self.total_width() > to_i32(r.w) && (y + hs - 12 < min || y + hs < min || y + hs > max) {
            return false;
        }
        let fits = text_ends_within(self.title, x + 20, 18);
        fits
    }

    fn total_width(&self) -> (t: i32)
        ensures
            t == total_width_of(self@),
    {
        (self.tiles.len() as i32).wrapping_mul(to_i32(self.tile_w).wrapping_add(self.gap)).wrapping_sub(
            self.gap,
        ).wrapping_add(80)
    }

    pub fn set_tile_size(&mut self, w: u32, h: u32)
        ensures
            final(self)@ == (ScrollerView { tile_w: w, tile_h: h, ..old(self)@ }),
    {
        self.tile_w = w;
        self.tile_h = h;
    }

    /// Hands `ev` to every tile; whether any of them answered.
    fn step_all(&mut self, ev: &Event, r: Rect) -> (any: bool)
        ensures
            any == any_tile_answers(old(self)@.tiles, *ev),
            final(self)@ == (ScrollerView { tiles: step_tiles(old(self)@.tiles, *ev), ..old(self)@ }),
    {
        let ghost v = self@;
        let n = self.tiles.len();
        let mut any = false;
        let mut i: usize = 0;
        while i < n
            invariant
                i <= n,
                n == v.tiles.len(),
                self@ == (ScrollerView { tiles: self@.tiles, ..v }),
                self@.tiles.len() == n,
                forall|k: int| 0 <= k < i ==> #[trigger] self.tiles@[k]@ == step_tiles(v.tiles, *ev)[k],
                forall|k: int| i <= k < n ==> #[trigger] self.tiles@[k]@ == v.tiles[k],
                any == exists|k: int|
                    0 <= k < i && (#[trigger] press_step(v.tiles[k].rect, v.tiles[k].hovered, v.tiles[k].pressed, *ev)).0
                        != EventResult::Ignored,
            decreases n - i,
        {
            let ghost before = self.tiles@;
            let res = self.tiles[i].handle_event(ev, r);
            proof {
                assert forall|k: int| 0 <= k < n && k != i implies #[trigger] self.tiles@[k] == before[k] by {}
                assert(self.tiles@[i as int]@ == step_tiles(v.tiles, *ev)[i as int]);
            }
            if res != EventResult::Ignored {
                any = true;
            }
            i = i + 1;
        }
        assert(self@.tiles =~= step_tiles(v.tiles, *ev));
        any
    }
}

/// A scroller after the change `c`: an event steps it as its
/// `handle_event` does; a move or a resize sets its rectangle as `set_pos`
/// and `set_size` do.
pub open spec fn scroller_changed(v: ScrollerView, c: Change) -> ScrollerView {
    match c {
        Change::Event(e, p) => scroller_step(v, e).1,
        Change::MoveTo(x, y) => ScrollerView { rect: Rect { x, y, ..v.rect }, ..v },
        Change::Resize(w, h) => ScrollerView { rect: Rect { w, h, ..v.rect }, ..v },
    }
}

/// A scroller after the changes `ops`, made in turn.
pub open spec fn scroller_after(v: ScrollerView, ops: Seq<Change>) -> ScrollerView {
    replay(v, ops, |u: ScrollerView, c: Change| scroller_changed(u, c))
}

impl Widget for TileScroller {
    open spec fn bounds_after(&self, ops: Seq<Change>) -> Rect {
        let v = scroller_after(self@, ops);
        v.rect
    }

    open spec fn painted_after(&self, ops: Seq<Change>, pix: Seq<u32>, w: int, h: int, font: Seq<u8>) -> Seq<u32> {
        let v = scroller_after(self@, ops);
        if scroller_drawn(v) { scroller_image(pix, w, h, font, v) } else { pix }
    }

    open spec fn answer_after(&self, ops: Seq<Change>, ev: Event, parent: Rect) -> EventResult {
        let v = scroller_after(self@, ops);
        scroller_step(v, ev).0
    }

    open spec fn painted(&self, pix: Seq<u32>, w: int, h: int, font: Seq<u8>) -> Seq<u32> {
        self.painted_after(Seq::empty(), pix, w, h, font)
    }

    open spec fn answer(&self, ev: Event, parent: Rect) -> EventResult {
        self.answer_after(Seq::empty(), ev, parent)
    }

    open spec fn bounds(&self) -> Rect {
        self@.rect
    }

    open spec fn placeable(&self) -> bool {
        true
    }



    fn rect(&self) -> (r: Rect)
        ensures
            r == self@.rect,
    {
        self.rect
    }

    fn min_size(&self) -> (s: (u32, u32))
        ensures
            s == (400u32, 300u32),
    {
        (400, 300)
    }

    fn set_pos(&mut self, x: i32, y: i32)
        ensures
            final(self)@ == (ScrollerView { rect: Rect { x, y, ..old(self)@.rect }, ..old(self)@ }),
    {
        self.rect.x = x;
        self.rect.y = y;
    }

    fn set_size(&mut self, w: u32, h: u32)
        ensures
            final(self)@ == (ScrollerView { rect: Rect { w, h, ..old(self)@.rect }, ..old(self)@ }),
    {
        self.rect.w = w;
        self.rect.h = h;
    }

    fn draw(&self, canvas: &mut Canvas)
        ensures
            final(canvas)@ == if scroller_drawn(self@) {
                scroller_image(old(canvas)@, old(canvas).width as int, old(canvas).height as int, old(canvas).font_view(), self@)
            } else {
                old(canvas)@
            },
    {
        let r = self.rect;
        if !self.frame_fits() {
            return;
        }
        let ghost (cw, ch, font) = (canvas.width as int, canvas.height as int, canvas.font_view());

        canvas.draw_text_large(r.x + 20, r.y + 8, self.title, Color::from_u32(0xFFE8E8F0), 2);

        let line_y = r.y + 36;
        canvas.fill_rect(r.x + 20, line_y, 60, 3, Color::from_u32(0xFF6699CC));
        let ghost lined = canvas@;

        let n = self.tiles.len();
        let mut i: usize = 0;
        while i < n
            invariant
                i <= n,
                n == self.tiles@.len(),
                canvas.wf(),
                old(canvas).same_frame(&*canvas),
                cw == canvas.width,
                ch == canvas.height,
                font == canvas.font_view(),
                canvas@ == tiles_image(lined, cw, ch, font, self@.tiles, i as int),
            decreases n - i,
        {
            assert(self@.tiles[i as int] == self.tiles@[i as int]@);
            self.tiles[i].draw(canvas);
            i = i + 1;
        }

        let vis_w = r.w as i32;
        let total = self.total_width();
        if total > vis_w {
            let share = vis_w.wrapping_mul(vis_w) / total;
            let bar_w = if share < 40 {
                40
            } else {
                share
            };
            let span = total - vis_w;
            let shift = self.scroll_offset.wrapping_mul(vis_w.wrapping_sub(bar_w));
            let q = if shift == i32::MIN && span == -1 {
                0
            } else {
                shift / span
            };
            let bar_x = r.x.wrapping_add(
                if q < 0 {
                    0
                } else {
                    q
                },
            );
            let bar_y = r.y + r.h as i32 - 12;
            if bar_x as i64 + bar_w as i64 <= i32::MAX as i64 + 1 {
                canvas.fill_rect(bar_x, bar_y, bar_w as u32, 4, Color::from_u32(0x88FFFFFF));
            }
        }
    }

    fn handle_event(&mut self, ev: &Event, _parent: Rect) -> (res: EventResult)
        ensures
            (res, final(self)@) == scroller_step(old(self)@, *ev),
    {
        let r = self.rect;
        match *ev {
            Event::MouseMove { x, y } => {
                if self.dragging {
                    let dx = x.wrapping_sub(self.drag_start_x);
                    let new_off = self.drag_start_offset.wrapping_add(dx);
                    let excess = self.total_width().wrapping_sub(to_i32(r.w));
                    let min_off: i32 = if excess > 0 {
                        -excess
                    } else {
                        0
                    };
                    let lower = if new_off < min_off {
                        min_off
                    } else {
                        new_off
                    };
                    self.scroll_offset = if lower > 0 {
                        0
                    } else {
                        lower
                    };
                    self.layout_tiles();
                    return EventResult::Redraw;
                }
                if self.step_all(ev, r) {
                    EventResult::Redraw
                } else {
                    EventResult::Ignored
                }
            },
            Event::MouseDown { x, y, .. } => {
                if r.contains(x, y) {
                    let ghost v = self@;
                    let n = self.tiles.len();
                    let mut i: usize = 0;
                    while i < n
                        invariant
                            i <= n,
                            n == v.tiles.len(),
                            self@ == v,
                            first_hit(v.tiles, x as int, y as int, 0) == first_hit(v.tiles, x as int, y as int, i as int),
                            *ev is MouseDown,
                            ev.pos() == (x as int, y as int),
                            v.rect.spec_contains(x as int, y as int),
                            v == old(self)@,
                        decreases n - i,
                    {
                        let ghost before = self.tiles@;
                        proof {
                            assert(self@.tiles[i as int] == before[i as int]@);
                        }
                        let res = self.tiles[i].handle_event(ev, r);
                        proof {
                            assert forall|k: int| 0 <= k < n && k != i implies #[trigger] self.tiles@[k] == before[k] by {}
                        }
                        if res != EventResult::Ignored {
                            proof {
                                assert(first_hit(v.tiles, x as int, y as int, i as int) == i);
                                let upd = v.tiles.update(i as int, MediaTileView { pressed: true, ..v.tiles[i as int] });
                                assert forall|k: int| 0 <= k < n implies #[trigger] self@.tiles[k] == upd[k] by {
                                    if k != i {
                                        assert(self@.tiles[k] == before[k]@);
                                    }
                                }
                                assert(self@.tiles =~= upd);
                                assert(self@ == (ScrollerView { tiles: upd, ..v }));
                                assert(v.rect.spec_contains(x as int, y as int));
                                assert(scroller_step(v, *ev).1 == (ScrollerView { tiles: upd, ..v }));
                            }
                            return EventResult::Redraw;
                        }
                        proof {
                            assert forall|k: int| 0 <= k < n implies #[trigger] self@.tiles[k] == v.tiles[k] by {
                                if k != i {
                                    assert(self@.tiles[k] == before[k]@);
                                }
                            }
                            assert(self@.tiles =~= v.tiles);
                        }
                        i = i + 1;
                    }
                    self.dragging = true;
                    self.drag_start_x = x;
                    self.drag_start_offset = self.scroll_offset;
                    return EventResult::Redraw;
                }
                EventResult::Ignored
            },
            Event::MouseUp { .. } => {
                if self.dragging {
                    self.dragging = false;
                    return EventResult::Redraw;
                }
                if self.step_all(ev, r) {
                    EventResult::Redraw
                } else {
                    EventResult::Ignored
                }
            },
        }
    }
}

} // verus!
