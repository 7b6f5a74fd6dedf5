use vstd::prelude::*;
use vstd::string::StringSliceAdditionalSpecFns;

verus! {

/// Width of a glyph cell in pixels (one bit per pixel in a row byte, most
/// significant bit leftmost).
pub const FONT_W: u32 = 8;

/// Height of a glyph cell in pixel rows.
pub const FONT_H: u32 = 13;

/// Row `row` of the glyph for character code `code` in a table that stores
/// `FONT_H` row bytes per glyph, glyph `k` at offset `k * FONT_H`. Codes past
/// the end of the table have blank glyphs.
pub open spec fn glyph_row(table: Seq<u8>, code: int, row: int) -> u8 {
    if 0 <= code && 0 <= row < FONT_H && (code + 1) * FONT_H <= table.len() {
        table[code * FONT_H + row]
    } else {
        0
    }
}

/// Whether column `col` (0 = leftmost) of a glyph row is set.
pub open spec fn glyph_bit(bits: u8, col: int) -> bool {
    0 <= col < 8 && (bits & (0x80u8 >> (col as u8))) != 0
}

/// A bitmap font: `FONT_H` row bytes per glyph, indexed by character code.
pub struct Font {
    rows: Vec<u8>,
}

impl View for Font {
    type V = Seq<u8>;

    closed spec fn view(&self) -> Seq<u8> {
        self.rows@
    }
}

impl Font {
    /// A font in which every glyph is blank.
    pub fn blank() -> (f: Font)
        ensures
            f@.len() == 0,
    {
        Font { rows: Vec::new() }
    }

    /// A font from its glyph table (`FONT_H` bytes per glyph, glyph `k` at
    /// offset `k * FONT_H`).
    pub fn from_rows(rows: Vec<u8>) -> (f: Font)
        ensures
            f@ == rows@,
    {
        Font { rows }
    }

    /// The `FONT_H` row bytes of the glyph for `c`.
    pub fn glyph(&self, c: char) -> (g: Vec<u8>)
        ensures
            g.len() == FONT_H,
            forall|row: int| 0 <= row < FONT_H ==> #[trigger] g@[row] == glyph_row(self@, c as int, row),
    {
        let code = c as u32 as usize;
        let n = self.rows.len();
        let mut g: Vec<u8> = Vec::new();
        let mut row: usize = 0;
        let present = code < n / 13 && (code + 1) * 13 <= n;
        while row < 13
            invariant
                row <= 13,
                g.len() == row,
                n == self.rows@.len(),
                code == c as int,
                present == (code < n / 13 && (code + 1) * 13 <= n),
                forall|k: int| 0 <= k < row ==> #[trigger] g@[k] == glyph_row(self.rows@, c as int, k),
            decreases 13 - row,
        {
            if present {
                g.push(self.rows[code * 13 + row]);
            } else {
                g.push(0);
            }
            row = row + 1;
        }
        g
    }
}

/// Width in pixels of `s` drawn at scale 1: one glyph cell plus one pixel of
/// spacing per byte.
pub fn text_width(s: &str) -> (w: u32)
    requires
        s.len() * (FONT_W + 1) <= u32::MAX,
    ensures
        w == s.len() * (FONT_W + 1),
{
    let n = s.len();
    assert(n <= u32::MAX) by (nonlinear_arith)
        requires n * 9 <= u32::MAX;
    (n as u32) * (FONT_W + 1)
}

/// Whether `s` has at most `limit` characters.
pub fn text_fits(s: &str, limit: usize) -> (b: bool)
    ensures
        b == (s@.len() <= limit),
{
    broadcast use vstd::string::axiom_spec_iter;

    let mut n: usize = 0;
    for ch in it: s.chars()
        invariant
            it.seq() == s@,
            n == it.index(),
            n <= limit,
    {
        if n == limit {
            return false;
        }
        n = n + 1;
    }
    true
}

/// Whether text `s`, drawn from `start` with `step` pixels a character,
/// ends at or before `i32::MAX`.
pub fn text_ends_within(s: &str, start: i64, step: i64) -> (b: bool)
    requires
        i32::MIN <= start,
        1 <= step <= 27,
    ensures
        b == (start + s@.len() * step <= i32::MAX),
{
    let max = i32::MAX as i64;
    if start > max {
        return false;
    }
    let room = ((max - start) / step) as usize;
    let fits = text_fits(s, room);
    proof {
        let n = s@.len() as int;
        assert(fits <==> start + n * step <= max) by (nonlinear_arith)
            requires
                fits == (n <= room),
                room as int == (max - start) as int / step as int,
                0 <= max - start,
                1 <= step,
                0 <= n,
        ;
    }
    fits
}

/// `s.len()` as a `u32` times `k`, wrapping as `u32` arithmetic does.
pub open spec fn wrapped_width(len: int, k: int) -> u32 {
    (((len % 0x1_0000_0000) * k) % 0x1_0000_0000) as u32
}

/// `(s.len() as u32).wrapping_mul(k)`, with its value stated.
pub fn byte_width(s: &str, k: u32) -> (w: u32)
    ensures
        w == wrapped_width(s.len() as int, k as int),
{
    let n = s.len();
    let n32 = n as u32;
    assert(n32 as int == (n as int) % 0x1_0000_0000) by (bit_vector)
        requires n32 == n as u32;
    n32.wrapping_mul(k)
}

/// Height in pixels of one line of text.
pub fn line_height() -> (h: u32)
    ensures
        h == FONT_H,
{
    FONT_H
}

} // verus!
