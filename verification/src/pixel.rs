//! Pixels and the straight-alpha source-over blend.

use vstd::prelude::*;
use vstd::arithmetic::div_mod::{lemma_div_is_ordered, lemma_div_multiples_vanish};

verus! {

/// One pixel: red, green, blue and alpha channels, each in `[0, 255]`,
/// interpreted in straight (non-premultiplied) form. Alpha 255 is fully
/// opaque, 0 fully transparent.
#[derive(Clone, Copy, PartialEq, Eq, Structural, Debug)]
pub struct Pixel {
    pub r: u8,
    pub g: u8,
    pub b: u8,
    pub a: u8,
}

/// Numerator of the source-over output alpha, on the common denominator
/// `255 * 255`: with `af = f.a / 255` and `ab = b.a / 255`, the output alpha
/// `af + ab * (1 - af)` equals `over_alpha_num(f, b) / (255 * 255)`.
pub open spec fn over_alpha_num(f: Pixel, b: Pixel) -> int {
    f.a * 255 + b.a * (255 - f.a)
}

/// One color channel of the source-over composite of `f` over `b`, where
/// `cf` and `cb` are the corresponding channels of `f` and `b`: the exact
/// rational `(cf*af + cb*ab*(1-af)) / (af + ab*(1-af))` brought to integer
/// form and truncated.
pub open spec fn over_channel(cf: u8, cb: u8, f: Pixel, b: Pixel) -> int {
    (cf * f.a * 255 + cb * b.a * (255 - f.a)) / over_alpha_num(f, b)
}

/// Straight-alpha source-over composite of foreground `f` over background
/// `b`. A fully transparent foreground leaves the background pixel exactly
/// as it was (in particular its color channels are preserved).
pub open spec fn src_over(f: Pixel, b: Pixel) -> Pixel {
    if f.a == 0 {
        b
    } else {
        Pixel {
            r: over_channel(f.r, b.r, f, b) as u8,
            g: over_channel(f.g, b.g, f, b) as u8,
            b: over_channel(f.b, b.b, f, b) as u8,
            a: (over_alpha_num(f, b) / 255) as u8,
        }
    }
}

/// The alpha numerator is at most `255 * 255`, and positive when the
/// foreground is not fully transparent.
proof fn lemma_alpha_num_bounds(f: Pixel, b: Pixel)
    ensures
        over_alpha_num(f, b) <= 65025,
        f.a > 0 ==> over_alpha_num(f, b) >= 255,
{
    assert(b.a * (255 - f.a) <= 255 * (255 - f.a)) by (nonlinear_arith)
        requires b.a <= 255, f.a <= 255,
    ;
    assert(f.a * 255 + 255 * (255 - f.a) == 65025);
    assert(b.a * (255 - f.a) >= 0) by (nonlinear_arith)
        requires b.a >= 0, f.a <= 255,
    ;
}

/// Each blended color channel lies in `[0, 255]`.
proof fn lemma_channel_bounds(cf: u8, cb: u8, f: Pixel, b: Pixel)
    requires
        f.a > 0,
    ensures
        0 <= over_channel(cf, cb, f, b) <= 255,
        cf * f.a * 255 + cb * b.a * (255 - f.a) <= 255 * over_alpha_num(f, b),
        0 <= cf * f.a <= 65025,
        0 <= cb * b.a <= 65025,
        0 <= cb * b.a * (255 - f.a) <= 16581375,
{
    let n = over_alpha_num(f, b);
    let num = cf * f.a * 255 + cb * b.a * (255 - f.a);
    lemma_alpha_num_bounds(f, b);
    assert(0 <= cf * f.a <= 65025 && 0 <= cb * b.a <= 65025
        && 0 <= cb * b.a * (255 - f.a) <= 16581375) by (nonlinear_arith)
        requires
            cf <= 255,
            cb <= 255,
            0 < f.a <= 255,
            0 <= b.a <= 255,
    ;
    assert(num <= 255 * n && num >= 0) by (nonlinear_arith)
        requires
            cf <= 255,
            cb <= 255,
            0 < f.a <= 255,
            0 <= b.a <= 255,
            n == f.a * 255 + b.a * (255 - f.a),
            num == cf * f.a * 255 + cb * b.a * (255 - f.a),
    ;
    lemma_div_is_ordered(num, 255 * n, n);
    lemma_div_multiples_vanish(255, n);
    lemma_div_is_ordered(0, num, n);
}

/// A fully opaque foreground replaces the background pixel exactly.
pub proof fn lemma_src_over_opaque(f: Pixel, b: Pixel)
    requires
        f.a == 255,
    ensures
        src_over(f, b) == f,
{
    lemma_div_multiples_vanish(f.r as int, 65025);
    lemma_div_multiples_vanish(f.g as int, 65025);
    lemma_div_multiples_vanish(f.b as int, 65025);
}

/// A fully transparent foreground leaves the background pixel unchanged.
pub proof fn lemma_src_over_transparent(f: Pixel, b: Pixel)
    requires
        f.a == 0,
    ensures
        src_over(f, b) == b,
{
}

/// Blend foreground `f` over background `b` with the straight-alpha
/// source-over operator.
pub fn blend_px(f: Pixel, b: Pixel) -> (r: Pixel)
    ensures
        r == src_over(f, b),
{
    if f.a == 0 {
        return b;
    }
    proof {
        lemma_alpha_num_bounds(f, b);
        lemma_channel_bounds(f.r, b.r, f, b);
        lemma_channel_bounds(f.g, b.g, f, b);
        lemma_channel_bounds(f.b, b.b, f, b);
        lemma_div_is_ordered(over_alpha_num(f, b), 65025, 255);
    }
    let fa: u32 = f.a as u32;
    let ba: u32 = b.a as u32;
    let n: u32 = fa * 255 + ba * (255 - fa);
    let cr: u32 = ((f.r as u32) * fa * 255 + (b.r as u32) * ba * (255 - fa)) / n;
    let cg: u32 = ((f.g as u32) * fa * 255 + (b.g as u32) * ba * (255 - fa)) / n;
    let cb: u32 = ((f.b as u32) * fa * 255 + (b.b as u32) * ba * (255 - fa)) / n;
    Pixel { r: cr as u8, g: cg as u8, b: cb as u8, a: (n / 255) as u8 }
}

} // verus!
