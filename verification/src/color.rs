//! Colours and alpha compositing.

use vstd::prelude::*;

verus! {

/// A colour of four 8-bit channels. For a pixel that is composited onto a
/// canvas, `a` is the weight of the blend: 0 leaves the canvas as it is, 255
/// replaces what was there.
#[derive(Clone, Copy, Debug, PartialEq, Eq, Structural)]
pub struct Rgba {
    pub r: u8,
    pub g: u8,
    pub b: u8,
    pub a: u8,
}

/// The sum that alpha compositing divides by 255: `dest` weighted by
/// `255 - alpha`, `src` weighted by `alpha`.
pub open spec fn weighted_sum(dest: u8, src: u8, alpha: u8) -> int {
    dest * (255 - alpha) + src * alpha
}

/// One channel of `dest * (1 - a) + src * a` with `a = alpha / 255`, rounded
/// to the nearest integer. The exact value is never halfway between two
/// integers, as 255 is odd.
pub open spec fn blend_channel(dest: u8, src: u8, alpha: u8) -> int {
    (weighted_sum(dest, src, alpha) + 127) / 255
}

impl Rgba {
    /// Opaque black, the background of a fresh canvas.
    pub open spec fn black() -> Rgba {
        Rgba { r: 0, g: 0, b: 0, a: 255 }
    }

    /// `src` composited over `self`: red, green and blue are blended channel
    /// by channel with the weight `src.a`, and the alpha of `self` stays.
    pub open spec fn blend_spec(self, src: Rgba) -> Rgba {
        Rgba {
            r: blend_channel(self.r, src.r, src.a) as u8,
            g: blend_channel(self.g, src.g, src.a) as u8,
            b: blend_channel(self.b, src.b, src.a) as u8,
            a: self.a,
        }
    }

    /// Composites `other` over `self` and returns the pixel that results.
    pub fn blend(self, other: Rgba) -> (out: Rgba)
        ensures
            out == self.blend_spec(other),
            out.a == self.a,
            other.a == 0 ==> out == self,
            other.a == 255 ==> out.r == other.r && out.g == other.g && out.b == other.b,
    {
        let out = Rgba {
            r: blend_byte(self.r, other.r, other.a),
            g: blend_byte(self.g, other.g, other.a),
            b: blend_byte(self.b, other.b, other.a),
            a: self.a,
        };
        proof {
            if other.a == 0 {
                lemma_blend_transparent(self, other);
            }
            if other.a == 255 {
                lemma_blend_opaque(self, other);
            }
        }
        out
    }
}

/// Blends one channel in integer arithmetic.
fn blend_byte(dest: u8, src: u8, alpha: u8) -> (out: u8)
    ensures
        out == blend_channel(dest, src, alpha),
{
    proof {
        lemma_weighted_sum_bounds(dest, src, alpha);
    }
    let keep: u32 = 255 - alpha as u32;
    assert(dest as u32 * keep == dest * (255 - alpha)) by (nonlinear_arith)
        requires
            keep == 255 - alpha,
            0 <= dest * (255 - alpha) <= 255 * 255,
    ;
    assert(src as u32 * alpha as u32 == src * alpha) by (nonlinear_arith)
        requires
            0 <= src <= 255,
            0 <= alpha <= 255,
    ;
    let sum: u32 = dest as u32 * keep + src as u32 * alpha as u32;
    ((sum + 127) / 255) as u8
}

/// The weighted sum of two channels lies between 0 and 255 * 255.
pub proof fn lemma_weighted_sum_bounds(dest: u8, src: u8, alpha: u8)
    ensures
        0 <= weighted_sum(dest, src, alpha) <= 255 * 255,
{
    let w: int = 255 - alpha;
    let a: int = alpha as int;
    assert(0 <= dest * w <= 255 * w) by (nonlinear_arith)
        requires
            0 <= dest <= 255,
            0 <= w,
    ;
    assert(0 <= src * a <= 255 * a) by (nonlinear_arith)
        requires
            0 <= src <= 255,
            0 <= a,
    ;
}

/// A blended channel is the integer nearest to the exact weighted mean: it
/// fits in a byte, and 255 times it differs from the weighted sum by at most
/// 127, which is less than half of 255.
pub proof fn lemma_blend_channel_nearest(dest: u8, src: u8, alpha: u8)
    ensures
        0 <= blend_channel(dest, src, alpha) <= 255,
        -127 <= weighted_sum(dest, src, alpha) - 255 * blend_channel(dest, src, alpha) <= 127,
{
    lemma_weighted_sum_bounds(dest, src, alpha);
}

/// No other integer is as near to the exact weighted mean as the blended
/// channel is.
pub proof fn lemma_blend_channel_unique(dest: u8, src: u8, alpha: u8, r: int)
    requires
        -127 <= weighted_sum(dest, src, alpha) - 255 * r <= 127,
    ensures
        r == blend_channel(dest, src, alpha),
{
    lemma_weighted_sum_bounds(dest, src, alpha);
}

/// A source pixel of alpha 0 leaves the destination as it is.
pub proof fn lemma_blend_transparent(dest: Rgba, src: Rgba)
    requires
        src.a == 0,
    ensures
        dest.blend_spec(src) == dest,
{
}

/// A source pixel of alpha 255 replaces red, green and blue of the
/// destination; the destination's alpha stays.
pub proof fn lemma_blend_opaque(dest: Rgba, src: Rgba)
    requires
        src.a == 255,
    ensures
        dest.blend_spec(src) == (Rgba { r: src.r, g: src.g, b: src.b, a: dest.a }),
{
}

/// Red, green and blue of a blend do not depend on the destination's alpha.
pub proof fn lemma_blend_ignores_dest_alpha(dest1: Rgba, dest2: Rgba, src: Rgba)
    requires
        dest1.r == dest2.r,
        dest1.g == dest2.g,
        dest1.b == dest2.b,
    ensures
        dest1.blend_spec(src).r == dest2.blend_spec(src).r,
        dest1.blend_spec(src).g == dest2.blend_spec(src).g,
        dest1.blend_spec(src).b == dest2.blend_spec(src).b,
{
}

} // verus!
