use vstd::prelude::*;

verus! {

/// The packed word `0xAABBGGRR`: alpha `a` in bits 24..32, blue in 16..24,
/// green in 8..16 and red in 0..8.
pub open spec fn pack_argb(a: u8, r: u8, g: u8, b: u8) -> u32 {
    (a as int * 0x1000000 + b as int * 0x10000 + g as int * 0x100 + r as int) as u32
}

/// Alpha byte of a packed colour.
pub open spec fn alpha_of(v: u32) -> u8 {
    (v as int / 0x1000000) as u8
}

/// Red byte of a packed colour.
pub open spec fn red_of(v: u32) -> u8 {
    (v as int % 0x100) as u8
}

/// Green byte of a packed colour.
pub open spec fn green_of(v: u32) -> u8 {
    ((v as int / 0x100) % 0x100) as u8
}

/// Blue byte of a packed colour.
pub open spec fn blue_of(v: u32) -> u8 {
    ((v as int / 0x10000) % 0x100) as u8
}

/// One channel of a blend: `fg` weighted by `alpha`, `bg` by `255 - alpha`,
/// divided by 255 and rounded down.
pub open spec fn blend_channel(fg: u8, bg: u8, alpha: u8) -> u8 {
    ((fg as int * alpha as int + bg as int * (255 - alpha as int)) / 255) as u8
}

/// The packed result of blending `fg` over `bg` with weight `alpha`: an opaque
/// colour whose channels are blended one by one.
pub open spec fn blend_packed(fg: u32, bg: u32, alpha: u8) -> u32 {
    pack_argb(
        0xFF,
        blend_channel(red_of(fg), red_of(bg), alpha),
        blend_channel(green_of(fg), green_of(bg), alpha),
        blend_channel(blue_of(fg), blue_of(bg), alpha),
    )
}

/// An RGBA colour packed into one `u32` as `0xAABBGGRR`: alpha in the top
/// byte, then blue, green, and red in the low byte.
#[derive(Clone, Copy, Debug, PartialEq, Eq, Structural)]
pub struct Color(u32);

impl View for Color {
    type V = u32;

    closed spec fn view(&self) -> u32 {
        self.0
    }
}

proof fn lemma_pack_bits(a: u8, r: u8, g: u8, b: u8)
    ensures
        ((a as u32) << 24u32 | (b as u32) << 16u32 | (g as u32) << 8u32 | r as u32) == pack_argb(
            a,
            r,
            g,
            b,
        ),
        pack_argb(a, r, g, b) == a as int * 0x1000000 + b as int * 0x10000 + g as int * 0x100
            + r as int,
{
    assert(((a as u32) << 24u32 | (b as u32) << 16u32 | (g as u32) << 8u32 | r as u32) == (a as u32)
        * 0x1000000u32 + (b as u32) * 0x10000u32 + (g as u32) * 0x100u32 + r as u32)
        by (bit_vector);
}

/// Packing four bytes and reading them back gives the same four bytes.
pub proof fn lemma_pack_unpack(a: u8, r: u8, g: u8, b: u8)
    ensures
        alpha_of(pack_argb(a, r, g, b)) == a,
        red_of(pack_argb(a, r, g, b)) == r,
        green_of(pack_argb(a, r, g, b)) == g,
        blue_of(pack_argb(a, r, g, b)) == b,
{
    lemma_pack_bits(a, r, g, b);
    let v = a as int * 0x1000000 + b as int * 0x10000 + g as int * 0x100 + r as int;
    assert(v / 0x1000000 == a) by (nonlinear_arith)
        requires v == a as int * 0x1000000 + b as int * 0x10000 + g as int * 0x100 + r as int,
            0 <= a < 256, 0 <= r < 256, 0 <= g < 256, 0 <= b < 256;
    assert((v / 0x10000) % 0x100 == b) by (nonlinear_arith)
        requires v == a as int * 0x1000000 + b as int * 0x10000 + g as int * 0x100 + r as int,
            0 <= a < 256, 0 <= r < 256, 0 <= g < 256, 0 <= b < 256;
    assert((v / 0x100) % 0x100 == g) by (nonlinear_arith)
        requires v == a as int * 0x1000000 + b as int * 0x10000 + g as int * 0x100 + r as int,
            0 <= a < 256, 0 <= r < 256, 0 <= g < 256, 0 <= b < 256;
    assert(v % 0x100 == r) by (nonlinear_arith)
        requires v == a as int * 0x1000000 + b as int * 0x10000 + g as int * 0x100 + r as int,
            0 <= a < 256, 0 <= r < 256, 0 <= g < 256, 0 <= b < 256;
}

/// Every packed word is the packing of its own four bytes.
pub proof fn lemma_unpack_pack(v: u32)
    ensures
        pack_argb(alpha_of(v), red_of(v), green_of(v), blue_of(v)) == v,
{
    let a = v as int / 0x1000000;
    let b = (v as int / 0x10000) % 0x100;
    let g = (v as int / 0x100) % 0x100;
    let r = v as int % 0x100;
    assert(a * 0x1000000 + b * 0x10000 + g * 0x100 + r == v as int && 0 <= a < 256) by (nonlinear_arith)
        requires
            0 <= v < 0x1_0000_0000,
            a == v / 0x1000000,
            b == (v / 0x10000) % 0x100,
            g == (v / 0x100) % 0x100,
            r == v % 0x100,
    ;
}

/// A blended channel lies between the two channels it was blended from.
pub proof fn lemma_blend_channel_between(fg: u8, bg: u8, alpha: u8)
    ensures
        (fg <= bg ==> fg <= blend_channel(fg, bg, alpha) <= bg),
        (bg <= fg ==> bg <= blend_channel(fg, bg, alpha) <= fg),
        alpha == 255 ==> blend_channel(fg, bg, alpha) == fg,
        alpha == 0 ==> blend_channel(fg, bg, alpha) == bg,
{
    let f = fg as int;
    let b = bg as int;
    let a = alpha as int;
    let n = f * a + b * (255 - a);
    assert(f <= b ==> f * 255 <= n <= b * 255) by (nonlinear_arith)
        requires n == f * a + b * (255 - a), 0 <= a <= 255;
    assert(b <= f ==> b * 255 <= n <= f * 255) by (nonlinear_arith)
        requires n == f * a + b * (255 - a), 0 <= a <= 255;
    assert(f <= b ==> f <= n / 255 <= b) by (nonlinear_arith)
        requires f <= b ==> f * 255 <= n <= b * 255;
    assert(b <= f ==> b <= n / 255 <= f) by (nonlinear_arith)
        requires b <= f ==> b * 255 <= n <= f * 255;
    assert(a == 255 ==> n == f * 255) by (nonlinear_arith)
        requires n == f * a + b * (255 - a);
    assert(a == 0 ==> n == b * 255) by (nonlinear_arith)
        requires n == f * a + b * (255 - a);
}

impl Color {
    /// Opaque black.
    pub fn black() -> (c: Self)
        ensures
            c@ == 0xFF000000u32,
    {
        Self(0xFF000000)
    }

    /// Opaque white.
    pub fn white() -> (c: Self)
        ensures
            c@ == 0xFFFFFFFFu32,
    {
        Self(0xFFFFFFFF)
    }

    /// Opaque red.
    pub fn red() -> (c: Self)
        ensures
            c@ == 0xFF0000FFu32,
    {
        Self(0xFF0000FF)
    }

    /// Opaque green.
    pub fn green() -> (c: Self)
        ensures
            c@ == 0xFF00FF00u32,
    {
        Self(0xFF00FF00)
    }

    /// Opaque blue.
    pub fn blue() -> (c: Self)
        ensures
            c@ == 0xFFFF0000u32,
    {
        Self(0xFFFF0000)
    }

    pub fn from_argb(a: u8, r: u8, g: u8, b: u8) -> (c: Self)
        ensures
            c@ == pack_argb(a, r, g, b),
    {
        proof {
            lemma_pack_bits(a, r, g, b);
        }
        Self((a as u32) << 24u32 | (b as u32) << 16u32 | (g as u32) << 8u32 | r as u32)
    }

    pub fn from_rgb(r: u8, g: u8, b: u8) -> (c: Self)
        ensures
            c@ == pack_argb(0xFF, r, g, b),
    {
        Self::from_argb(0xFF, r, g, b)
    }

    pub fn from_u32(val: u32) -> (c: Self)
        ensures
            c@ == val,
    {
        Self(val)
    }

    pub fn to_u32(self) -> (v: u32)
        ensures
            v == self@,
    {
        self.0
    }

    pub fn r(self) -> (r: u8)
        ensures
            r == red_of(self@),
    {
        let v = self.0;
        assert((v as u8) == (v % 0x100u32) as u8) by (bit_vector);
        v as u8
    }

    pub fn g(self) -> (g: u8)
        ensures
            g == green_of(self@),
    {
        let v = self.0;
        assert(((v >> 8u32) as u8) == ((v / 0x100u32) % 0x100u32) as u8) by (bit_vector);
        (v >> 8u32) as u8
    }

    pub fn b(self) -> (b: u8)
        ensures
            b == blue_of(self@),
    {
        let v = self.0;
        assert(((v >> 16u32) as u8) == ((v / 0x10000u32) % 0x100u32) as u8) by (bit_vector);
        (v >> 16u32) as u8
    }

    pub fn a(self) -> (a: u8)
        ensures
            a == alpha_of(self@),
    {
        let v = self.0;
        assert(((v >> 24u32) as u8) == (v / 0x1000000u32) as u8) by (bit_vector);
        (v >> 24u32) as u8
    }

    /// Blends `self` over `bg` with weight `alpha` (255 gives `self`, 0 gives
    /// `bg`); the result is opaque.
    pub fn blend(self, bg: Color, alpha: u8) -> (c: Color)
        ensures
            c@ == blend_packed(self@, bg@, alpha),
    {
        let a = alpha as u32;
        let inv = 255 - a;
        let fr = self.r() as u32;
        let fg = self.g() as u32;
        let fb = self.b() as u32;
        let br = bg.r() as u32;
        let bgg = bg.g() as u32;
        let bb = bg.b() as u32;
        assert(fr * a + br * inv <= 255 * 255) by (nonlinear_arith)
            requires fr <= 255, br <= 255, a + inv == 255;
        assert(fg * a + bgg * inv <= 255 * 255) by (nonlinear_arith)
            requires fg <= 255, bgg <= 255, a + inv == 255;
        assert(fb * a + bb * inv <= 255 * 255) by (nonlinear_arith)
            requires fb <= 255, bb <= 255, a + inv == 255;
        let r = (fr * a + br * inv) / 255;
        let g = (fg * a + bgg * inv) / 255;
        let b = (fb * a + bb * inv) / 255;
        Color::from_argb(0xFF, r as u8, g as u8, b as u8)
    }
}

} // verus!
