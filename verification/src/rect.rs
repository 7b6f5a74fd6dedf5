use vstd::prelude::*;

verus! {

/// The value of a `u32` read back as an `i32` (two's complement), as the
/// expression `w as i32` computes it.
pub open spec fn signed(w: u32) -> int {
    if w <= 0x7fff_ffff {
        w as int
    } else {
        w as int - 0x1_0000_0000
    }
}

/// `w as i32`, with its value stated.
pub fn to_i32(w: u32) -> (r: i32)
    ensures
        r as int == signed(w),
{
    assert((w as i32) as int == if w <= 0x7fff_ffffu32 {
        w as int
    } else {
        w as int - 0x1_0000_0000
    }) by (bit_vector);
    w as i32
}

/// `a / b` rounded toward zero, as integer division in Rust rounds.
pub open spec fn tdiv(a: int, b: int) -> int {
    if a >= 0 {
        a / b
    } else {
        -((-a) / b)
    }
}

/// `lo <= p < lo + len`.
pub open spec fn in_span(p: int, lo: int, len: int) -> bool {
    lo <= p < lo + len
}

/// 2D rectangle (integer coordinates).
#[derive(Clone, Copy, Debug, PartialEq, Eq, Structural)]
pub struct Rect {
    pub x: i32,
    pub y: i32,
    pub w: u32,
    pub h: u32,
}

impl Default for Rect {
    fn default() -> (r: Self)
        ensures
            r == (Rect { x: 0, y: 0, w: 0, h: 0 }),
    {
        Self { x: 0, y: 0, w: 0, h: 0 }
    }
}

impl Rect {
    /// Whether the point lies in the rectangle, the width and height being
    /// taken as `i32` values.
    pub open spec fn spec_contains(self, px: int, py: int) -> bool {
        in_span(px, self.x as int, signed(self.w)) && in_span(py, self.y as int, signed(self.h))
    }

    /// The rectangle with these fields.
    pub open spec fn new_spec(x: i32, y: i32, w: u32, h: u32) -> Rect {
        Rect { x, y, w, h }
    }

    #[verifier::when_used_as_spec(new_spec)]
    pub fn new(x: i32, y: i32, w: u32, h: u32) -> (r: Self)
        ensures
            r == (Rect { x, y, w, h }),
    {
        Self { x, y, w, h }
    }

    pub fn contains(self, px: i32, py: i32) -> (b: bool)
        ensures
            b == self.spec_contains(px as int, py as int),
    {
        let wi = to_i32(self.w) as i64;
        let hi = to_i32(self.h) as i64;
        px as i64 >= self.x as i64 && py as i64 >= self.y as i64 && (px as i64) < self.x as i64 + wi
            && (py as i64) < self.y as i64 + hi
    }

    pub fn right(self) -> (r: i32)
        requires
            i32::MIN <= self.x + signed(self.w) <= i32::MAX,
        ensures
            r == self.x + signed(self.w),
    {
        self.x + to_i32(self.w)
    }

    pub fn bottom(self) -> (r: i32)
        requires
            i32::MIN <= self.y + signed(self.h) <= i32::MAX,
        ensures
            r == self.y + signed(self.h),
    {
        self.y + to_i32(self.h)
    }
}

} // verus!
