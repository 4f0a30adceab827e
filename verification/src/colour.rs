use vstd::prelude::*;
use crate::sqrt::{sqrt_floor, isqrt, div_floor};
use crate::arith::{lemma_mul_bound, lemma_div_bound};

verus! {

/// Largest value an emitted-light channel may take.
pub const EMIT_LIMIT: i64 = 0x4000_0000;

/// A colour as three fixed-point channels scaled by `T_SCALE`; `T_SCALE`
/// itself stands for channel value one.
#[derive(Clone, Copy, Debug, PartialEq, Eq, Structural)]
pub struct RGB(pub i64, pub i64, pub i64);

/// All three channels are nonnegative.
pub open spec fn rgb_nonneg(c: RGB) -> bool {
    c.0 >= 0 && c.1 >= 0 && c.2 >= 0
}

/// All three channels are at most `bound`.
pub open spec fn rgb_bounded(c: RGB, bound: int) -> bool {
    c.0 <= bound && c.1 <= bound && c.2 <= bound
}

/// An attenuation: a colour with channels between zero and one.
pub open spec fn rgb_attenuation(c: RGB) -> bool {
    rgb_nonneg(c) && rgb_bounded(c, crate::T_SCALE as int)
}

impl RGB {
    pub open spec fn spec_black() -> RGB {
        RGB(0, 0, 0)
    }

    pub fn black() -> (r: RGB)
        ensures
            r == RGB::spec_black(),
    {
        RGB(0, 0, 0)
    }

    pub fn add(self, o: RGB) -> (r: RGB)
        requires
            -0x1000_0000_0000_0000 <= self.0 <= 0x1000_0000_0000_0000,
            -0x1000_0000_0000_0000 <= self.1 <= 0x1000_0000_0000_0000,
            -0x1000_0000_0000_0000 <= self.2 <= 0x1000_0000_0000_0000,
            -0x1000_0000_0000_0000 <= o.0 <= 0x1000_0000_0000_0000,
            -0x1000_0000_0000_0000 <= o.1 <= 0x1000_0000_0000_0000,
            -0x1000_0000_0000_0000 <= o.2 <= 0x1000_0000_0000_0000,
        ensures
            r.0 == self.0 + o.0,
            r.1 == self.1 + o.1,
            r.2 == self.2 + o.2,
    {
        RGB(self.0 + o.0, self.1 + o.1, self.2 + o.2)
    }

    /// Channelwise product with an attenuation, rescaled: never negative and
    /// never more than the colour attenuated.
    pub fn attenuate(self, att: RGB) -> (r: RGB)
        requires
            rgb_attenuation(att),
            rgb_nonneg(self),
            rgb_bounded(self, 0x40_0000_0000),
        ensures
            r.0 == att.0 * self.0 / (crate::T_SCALE as int),
            r.1 == att.1 * self.1 / (crate::T_SCALE as int),
            r.2 == att.2 * self.2 / (crate::T_SCALE as int),
            rgb_nonneg(r),
            r.0 <= self.0,
            r.1 <= self.1,
            r.2 <= self.2,
    {
        proof {
            lemma_attenuate_channel(att.0 as int, self.0 as int);
            lemma_attenuate_channel(att.1 as int, self.1 as int);
            lemma_attenuate_channel(att.2 as int, self.2 as int);
        }
        let x = div_floor((att.0 as i128) * (self.0 as i128), crate::T_SCALE as i128);
        let y = div_floor((att.1 as i128) * (self.1 as i128), crate::T_SCALE as i128);
        let z = div_floor((att.2 as i128) * (self.2 as i128), crate::T_SCALE as i128);
        RGB(x as i64, y as i64, z as i64)
    }

    /// Averages over the sample count, gamma-corrects for gamma two, and
    /// clamps each channel to an eight-bit value.
    pub fn to_integers(self, num_samples: usize) -> (r: (usize, usize, usize))
        requires
            rgb_nonneg(self),
            rgb_bounded(self, 0x1000_0000_0000_0000),
            num_samples >= 1,
        ensures
            r.0 == spec_channel_byte(self.0 as int, num_samples as int),
            r.1 == spec_channel_byte(self.1 as int, num_samples as int),
            r.2 == spec_channel_byte(self.2 as int, num_samples as int),
            r.0 < 256,
            r.1 < 256,
            r.2 < 256,
    {
        let ir = channel_byte(self.0, num_samples);
        let ig = channel_byte(self.1, num_samples);
        let ib = channel_byte(self.2, num_samples);
        (ir, ig, ib)
    }
}

/// One channel taken to an eight-bit value: averaged over the samples,
/// square-rooted in fixed point (gamma two), scaled to `[0, 255]`.
pub open spec fn spec_channel_byte(c: int, num_samples: int) -> int {
    let avg = c / num_samples;
    let root = sqrt_floor((avg * (crate::T_SCALE as int)) as nat) as int;
    let v = 256 * root / (crate::T_SCALE as int);
    if v > 255 {
        255
    } else {
        v
    }
}

/// The attenuated channel stays within `[0, c]`.
proof fn lemma_attenuate_channel(a: int, c: int)
    requires
        0 <= a <= crate::T_SCALE as int,
        0 <= c <= 0x40_0000_0000,
    ensures
        0 <= a * c / (crate::T_SCALE as int) <= c,
        a * c <= 0x400_0000_0000_0000,
{
    lemma_mul_bound(a, c, crate::T_SCALE as int, 0x40_0000_0000);
    assert(a * c >= 0) by (nonlinear_arith)
        requires
            a >= 0,
            c >= 0,
    ;
    assert(a * c <= (crate::T_SCALE as int) * c) by (nonlinear_arith)
        requires
            a <= crate::T_SCALE as int,
            c >= 0,
    ;
    vstd::arithmetic::div_mod::lemma_div_is_ordered(
        a * c,
        (crate::T_SCALE as int) * c,
        crate::T_SCALE as int,
    );
    assert((crate::T_SCALE as int) * c / (crate::T_SCALE as int) == c) by {
        vstd::arithmetic::div_mod::lemma_fundamental_div_mod_converse(
            (crate::T_SCALE as int) * c,
            crate::T_SCALE as int,
            c,
            0,
        );
    }
    lemma_div_bound(a * c, crate::T_SCALE as int, 0x400_0000_0000_0000);
    vstd::arithmetic::div_mod::lemma_div_is_ordered(0, a * c, crate::T_SCALE as int);
}

fn channel_byte(c: i64, num_samples: usize) -> (r: usize)
    requires
        0 <= c <= 0x1000_0000_0000_0000,
        num_samples >= 1,
    ensures
        r == spec_channel_byte(c as int, num_samples as int),
        r < 256,
{
    let avg = div_floor(c as i128, num_samples as i128);
    proof {
        lemma_div_bound(c as int, num_samples as int, 0x1000_0000_0000_0000);
        lemma_mul_bound(
            avg as int,
            crate::T_SCALE as int,
            0x1000_0000_0000_0000,
            crate::T_SCALE as int,
        );
        vstd::arithmetic::div_mod::lemma_div_is_ordered(0, c as int, num_samples as int);
        assert((avg as int) * (crate::T_SCALE as int) >= 0) by (nonlinear_arith)
            requires
                avg >= 0,
                crate::T_SCALE as int > 0,
        ;
    }
    let scaled = avg * (crate::T_SCALE as i128);
    let root = isqrt(scaled);
    proof {
        lemma_mul_bound(256, root as int, 256, 0x8000_0000_0000_0000);
        lemma_div_bound(256 * (root as int), crate::T_SCALE as int, 0x80_0000_0000_0000_0000);
        vstd::arithmetic::div_mod::lemma_div_is_ordered(
            0,
            256 * (root as int),
            crate::T_SCALE as int,
        );
    }
    let v = div_floor(256 * root, crate::T_SCALE as i128);
    if v > 255 {
        255
    } else {
        v as usize
    }
}

impl RGB {
    /// Builds a colour from eight-bit channel values.
    pub fn from_integers(r: usize, g: usize, b: usize) -> (c: RGB)
        requires
            r < 256,
            g < 256,
            b < 256,
        ensures
            c.0 == r * (crate::T_SCALE as int) / 255,
            c.1 == g * (crate::T_SCALE as int) / 255,
            c.2 == b * (crate::T_SCALE as int) / 255,
            rgb_attenuation(c),
    {
    proof {
        lemma_mul_bound(r as int, crate::T_SCALE as int, 255, crate::T_SCALE as int);
        lemma_mul_bound(g as int, crate::T_SCALE as int, 255, crate::T_SCALE as int);
        lemma_mul_bound(b as int, crate::T_SCALE as int, 255, crate::T_SCALE as int);
        lemma_rgb_from_channel(r as int);
        lemma_rgb_from_channel(g as int);
        lemma_rgb_from_channel(b as int);
    }
        let x = div_floor((r as i128) * (crate::T_SCALE as i128), 255);
        let y = div_floor((g as i128) * (crate::T_SCALE as i128), 255);
        let z = div_floor((b as i128) * (crate::T_SCALE as i128), 255);
        RGB(x as i64, y as i64, z as i64)
    }
}

proof fn lemma_rgb_from_channel(v: int)
    requires
        0 <= v < 256,
    ensures
        0 <= v * (crate::T_SCALE as int) / 255 <= crate::T_SCALE as int,
{
    lemma_mul_bound(v, crate::T_SCALE as int, 255, crate::T_SCALE as int);
    vstd::arithmetic::div_mod::lemma_div_is_ordered(
        0,
        v * (crate::T_SCALE as int),
        255,
    );
    assert(v * (crate::T_SCALE as int) <= 255 * (crate::T_SCALE as int)) by (nonlinear_arith)
        requires
            v <= 255,
            crate::T_SCALE as int > 0,
    ;
    vstd::arithmetic::div_mod::lemma_div_is_ordered(
        v * (crate::T_SCALE as int),
        255 * (crate::T_SCALE as int),
        255,
    );
    assert(255 * (crate::T_SCALE as int) / 255 == crate::T_SCALE as int) by {
        vstd::arithmetic::div_mod::lemma_fundamental_div_mod_converse(
            255 * (crate::T_SCALE as int),
            255,
            crate::T_SCALE as int,
            0,
        );
    }
}

} // verus!
