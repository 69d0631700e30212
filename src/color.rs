use vstd::prelude::*;

verus! {

/// Channel sum that stops at the top of the byte range instead of wrapping.
pub open spec fn saturating_channel_sum(a: u8, b: u8) -> u8 {
    if a + b > 255 {
        255
    } else {
        (a + b) as u8
    }
}

/// An 8-bit-per-channel color with an alpha channel.
#[derive(Clone, Copy, Debug, PartialEq, Eq, Structural)]
pub struct Color {
    pub r: u8,
    pub g: u8,
    pub b: u8,
    pub a: u8,
}

impl Color {
    /// An opaque color from its three color channels.
    #[allow(non_snake_case)]
    pub fn RGB(r: u8, g: u8, b: u8) -> (c: Color)
        ensures
            c == (Color { r, g, b, a: 255 }),
    {
        Color { r, g, b, a: 255 }
    }

    /// A color from all four channels.
    #[allow(non_snake_case)]
    pub fn RGBA(r: u8, g: u8, b: u8, a: u8) -> (c: Color)
        ensures
            c == (Color { r, g, b, a }),
    {
        Color { r, g, b, a }
    }
}

impl Default for Color {
    /// Opaque black.
    fn default() -> (c: Color)
        ensures
            c == (Color { r: 0, g: 0, b: 0, a: 255 }),
    {
        Color { r: 0, g: 0, b: 0, a: 255 }
    }
}

/// What `+` on two colors gives: each color channel added with saturation, alpha opaque.
pub open spec fn color_sum(x: Color, y: Color) -> Color {
    Color {
        r: saturating_channel_sum(x.r, y.r),
        g: saturating_channel_sum(x.g, y.g),
        b: saturating_channel_sum(x.b, y.b),
        a: 255,
    }
}

impl vstd::std_specs::ops::AddSpecImpl<Color> for Color {
    open spec fn obeys_add_spec() -> bool {
        true
    }

    open spec fn add_req(self, rhs: Color) -> bool {
        true
    }

    open spec fn add_spec(self, rhs: Color) -> Color {
        color_sum(self, rhs)
    }
}

impl std::ops::Add<Color> for Color {
    type Output = Color;

    fn add(self, other: Color) -> (c: Color)
        ensures
            c == color_sum(self, other),
    {
        let r: u16 = self.r as u16 + other.r as u16;
        let g: u16 = self.g as u16 + other.g as u16;
        let b: u16 = self.b as u16 + other.b as u16;
        Color::RGB(
            if r > 255 { 255 } else { r as u8 },
            if g > 255 { 255 } else { g as u8 },
            if b > 255 { 255 } else { b as u8 },
        )
    }
}

/// How many steps of a `Factor` make up the factor one.
pub const FACTOR_ONE: u32 = 1000;

/// A non-negative scale factor in fixed point: `milli / 1000`.
#[derive(Clone, Copy, Debug, PartialEq, Eq, Structural)]
pub struct Factor {
    pub milli: u32,
}

/// The largest of the three color channels (alpha is not a color channel).
pub open spec fn max_channel(c: Color) -> u8 {
    if c.r >= c.g && c.r >= c.b {
        c.r
    } else if c.g >= c.b {
        c.g
    } else {
        c.b
    }
}

/// Whether scaling a color whose largest channel is `top` by `milli / 1000` pushes that
/// channel past 255.
pub open spec fn scale_overflows(top: u8, milli: u32) -> bool {
    top as int * milli as int > 255 * FACTOR_ONE as int
}

/// One channel `v` of a color whose largest channel is `top`, scaled by `milli / 1000`.
/// Without overflow the exact product is truncated; with overflow every channel is brought
/// down by the one factor `255 / (top * milli / 1000)`, which leaves `v * 255 / top`.
pub open spec fn scaled_channel(v: u8, top: u8, milli: u32) -> u8 {
    if scale_overflows(top, milli) {
        (v as int * 255 / top as int) as u8
    } else {
        (v as int * milli as int / FACTOR_ONE as int) as u8
    }
}

/// What `*` by a factor gives: all three channels scaled by the same factor, alpha opaque.
pub open spec fn color_scaled(c: Color, f: Factor) -> Color {
    Color {
        r: scaled_channel(c.r, max_channel(c), f.milli),
        g: scaled_channel(c.g, max_channel(c), f.milli),
        b: scaled_channel(c.b, max_channel(c), f.milli),
        a: 255,
    }
}

fn scale_channel(v: u8, top: u8, milli: u32) -> (r: u8)
    requires
        v <= top,
    ensures
        r == scaled_channel(v, top, milli),
{
    assert(top as int * milli as int <= 255 * 0xffff_ffff) by (nonlinear_arith)
        requires
            top <= 255,
            milli <= 0xffff_ffff,
    ;
    assert(v as int * milli as int <= 255 * 0xffff_ffff) by (nonlinear_arith)
        requires
            v <= 255,
            milli <= 0xffff_ffff,
    ;
    let prod: u64 = top as u64 * milli as u64;
    if prod > 255 * (FACTOR_ONE as u64) {
        let q: u64 = v as u64 * 255 / top as u64;
        proof {
            assert(v as int * 255 / top as int <= 255) by (nonlinear_arith)
                requires
                    v <= top,
                    top > 0,
            ;
        }
        q as u8
    } else {
        let q: u64 = v as u64 * milli as u64 / (FACTOR_ONE as u64);
        proof {
            assert(v as int * milli as int / 1000 <= 255) by (nonlinear_arith)
                requires
                    v <= top,
                    top as int * milli as int <= 255 * 1000,
            ;
        }
        q as u8
    }
}

impl vstd::std_specs::ops::MulSpecImpl<Factor> for Color {
    open spec fn obeys_mul_spec() -> bool {
        true
    }

    open spec fn mul_req(self, rhs: Factor) -> bool {
        true
    }

    open spec fn mul_spec(self, rhs: Factor) -> Color {
        color_scaled(self, rhs)
    }
}

impl std::ops::Mul<Factor> for Color {
    type Output = Color;

    fn mul(self, f: Factor) -> (c: Color)
        ensures
            c == color_scaled(self, f),
    {
        let top: u8 = if self.r >= self.g && self.r >= self.b {
            self.r
        } else if self.g >= self.b {
            self.g
        } else {
            self.b
        };
        Color {
            r: scale_channel(self.r, top, f.milli),
            g: scale_channel(self.g, top, f.milli),
            b: scale_channel(self.b, top, f.milli),
            a: 255,
        }
    }
}

/// When scaling would push the largest channel past 255, the result keeps the hue: that
/// channel lands on 255 exactly, each channel is its old value times `255 / top` rounded
/// down, and no two channels swap order. No channel is clipped on its own.
pub proof fn lemma_scale_keeps_hue(c: Color, f: Factor)
    requires
        scale_overflows(max_channel(c), f.milli),
    ensures
        ({
            let s = color_scaled(c, f);
            let top = max_channel(c) as int;
            &&& s.r as int == c.r as int * 255 / top
            &&& s.g as int == c.g as int * 255 / top
            &&& s.b as int == c.b as int * 255 / top
            &&& max_channel(s) == 255
            &&& (c.r <= c.g ==> s.r <= s.g)
            &&& (c.g <= c.b ==> s.g <= s.b)
            &&& (c.r <= c.b ==> s.r <= s.b)
        }),
{
    let top = max_channel(c) as int;
    lemma_rescale_ordered(c.r as int, c.g as int, top);
    lemma_rescale_ordered(c.g as int, c.b as int, top);
    lemma_rescale_ordered(c.r as int, c.b as int, top);
    lemma_rescale_ordered(c.g as int, c.r as int, top);
    lemma_rescale_ordered(c.b as int, c.g as int, top);
    lemma_rescale_ordered(c.b as int, c.r as int, top);
    lemma_rescale_ordered(c.r as int, top, top);
    lemma_rescale_ordered(c.g as int, top, top);
    lemma_rescale_ordered(c.b as int, top, top);
    vstd::arithmetic::div_mod::lemma_div_by_multiple(255, top);
}

/// Every factor above 255 scales a color as the largest factor does: the largest
/// channel lands on 255 and the others keep their ratio to it.
pub proof fn lemma_large_factors_scale_alike(c: Color, k: u32)
    requires
        k > 255 * FACTOR_ONE,
    ensures
        color_scaled(c, Factor { milli: k }) == color_scaled(c, Factor { milli: u32::MAX }),
{
    let top = max_channel(c);
    if top > 0 {
        assert(top as int * k as int >= k as int) by (nonlinear_arith)
            requires
                top >= 1,
                k >= 0,
        ;
        assert(top as int * u32::MAX as int >= u32::MAX as int) by (nonlinear_arith)
            requires
                top >= 1,
        ;
    } else {
        assert(c.r == 0 && c.g == 0 && c.b == 0);
        assert(0 * k as int == 0 && 0 * u32::MAX as int == 0);
    }
}

/// Rescaling by `255 / top` keeps the order of two channels and stays within 255.
proof fn lemma_rescale_ordered(v: int, w: int, top: int)
    requires
        0 <= v <= top,
        0 <= w <= top,
        top > 0,
    ensures
        v <= w ==> v * 255 / top <= w * 255 / top,
        w * 255 / top <= 255,
{
    assert(w * 255 <= top * 255) by (nonlinear_arith)
        requires
            w <= top,
    ;
    vstd::arithmetic::div_mod::lemma_div_by_multiple(255, top);
    lemma_div_monotone(w * 255, top * 255, top);
    if v <= w {
        assert(v * 255 <= w * 255) by (nonlinear_arith)
            requires
                v <= w,
        ;
        lemma_div_monotone(v * 255, w * 255, top);
    }
}

proof fn lemma_div_monotone(x: int, y: int, d: int)
    requires
        0 <= x <= y,
        d > 0,
    ensures
        x / d <= y / d,
{
    vstd::arithmetic::div_mod::lemma_div_is_ordered(x, y, d);
}

} // verus!
