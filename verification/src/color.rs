//! Colors: three fixed-point channels, nominally in `[0, 1]`.
//!
//! Per-pixel sampling adds many sample colors into one accumulator and
//! converts the sum to gamma-corrected bytes at the end, so the channel
//! values of an accumulator may exceed one unit.

use vstd::prelude::*;

verus! {

use crate::fixed::SCALE;
use crate::fixed::tdiv;
use crate::fixed::fxmul;
use crate::fixed::clamp_s;
use crate::fixed::isqrt_s;
use crate::fixed::isqrt_i128;
use crate::fixed::lemma_tdiv_bounds;
use crate::fixed::lemma_tdiv_nonincreasing;
use crate::rng::gen_range_i64;

#[derive(Clone, Copy, PartialEq, Eq, Structural, Debug)]
pub struct Color(pub i64, pub i64, pub i64);

/// A displayable color: every channel within `[0, 1]`.
pub open spec fn color_wf(c: Color) -> bool {
    &&& 0 <= c.0 <= SCALE
    &&& 0 <= c.1 <= SCALE
    &&& 0 <= c.2 <= SCALE
}

/// The byte a nonnegative accumulated channel turns into: average over
/// the samples, gamma-correct by a square root, clamp to `[0, 1]` and
/// spread over `0..=255`.
pub open spec fn byte_of(v: int, samples: int) -> int {
    tdiv(clamp_s(isqrt_s((tdiv(v, samples) * SCALE) as nat) as int, 0, SCALE as int) * 255,
        SCALE as int)
}

impl Default for Color {
    /// White, as in a freshly cleared canvas.
    fn default() -> (r: Color)
        ensures
            r == Color(SCALE as i64, SCALE as i64, SCALE as i64),
    {
        Color(SCALE, SCALE, SCALE)
    }
}

impl Color {
    pub fn white() -> (r: Color)
        ensures
            r == Color(SCALE as i64, SCALE as i64, SCALE as i64),
    {
        Color(SCALE, SCALE, SCALE)
    }

    pub fn black() -> (r: Color)
        ensures
            r == Color(0i64, 0i64, 0i64),
    {
        Color(0, 0, 0)
    }

    /// A color with three uniform draws from `[0, 1)`.
    pub fn random(rng: &mut rand::rngs::StdRng) -> (r: Color)
        ensures
            color_wf(r),
    {
        Color(
            gen_range_i64(rng, 0, SCALE),
            gen_range_i64(rng, 0, SCALE),
            gen_range_i64(rng, 0, SCALE),
        )
    }

    /// A color with three uniform draws from `[min, max)`.
    pub fn random_range(min: i64, max: i64, rng: &mut rand::rngs::StdRng) -> (r: Color)
        requires
            0 <= min < max <= SCALE,
        ensures
            color_wf(r),
            min <= r.0 < max,
            min <= r.1 < max,
            min <= r.2 < max,
    {
        Color(
            gen_range_i64(rng, min, max),
            gen_range_i64(rng, min, max),
            gen_range_i64(rng, min, max),
        )
    }

    /// Channelwise sum; used to accumulate samples.
    pub fn add(&self, rhs: &Color) -> (r: Color)
        requires
            i64::MIN <= self.0 + rhs.0 <= i64::MAX,
            i64::MIN <= self.1 + rhs.1 <= i64::MAX,
            i64::MIN <= self.2 + rhs.2 <= i64::MAX,
        ensures
            r.0 == self.0 + rhs.0,
            r.1 == self.1 + rhs.1,
            r.2 == self.2 + rhs.2,
    {
        Color(self.0 + rhs.0, self.1 + rhs.1, self.2 + rhs.2)
    }

    /// In-place channelwise sum.
    pub fn add_assign(&mut self, rhs: &Color)
        requires
            i64::MIN <= old(self).0 + rhs.0 <= i64::MAX,
            i64::MIN <= old(self).1 + rhs.1 <= i64::MAX,
            i64::MIN <= old(self).2 + rhs.2 <= i64::MAX,
        ensures
            final(self).0 == old(self).0 + rhs.0,
            final(self).1 == old(self).1 + rhs.1,
            final(self).2 == old(self).2 + rhs.2,
    {
        self.0 = self.0 + rhs.0;
        self.1 = self.1 + rhs.1;
        self.2 = self.2 + rhs.2;
    }

    /// Channelwise product; attenuation acts per channel.
    pub fn mul(&self, rhs: &Color) -> (r: Color)
        requires
            i64::MIN <= fxmul(self.0 as int, rhs.0 as int) <= i64::MAX,
            i64::MIN <= fxmul(self.1 as int, rhs.1 as int) <= i64::MAX,
            i64::MIN <= fxmul(self.2 as int, rhs.2 as int) <= i64::MAX,
        ensures
            r.0 == fxmul(self.0 as int, rhs.0 as int),
            r.1 == fxmul(self.1 as int, rhs.1 as int),
            r.2 == fxmul(self.2 as int, rhs.2 as int),
    {
        Color(
            crate::fixed::fx_mul(self.0, rhs.0),
            crate::fixed::fx_mul(self.1, rhs.1),
            crate::fixed::fx_mul(self.2, rhs.2),
        )
    }

    /// All channels scaled by the fixed-point factor `s`.
    pub fn scale(&self, s: i64) -> (r: Color)
        requires
            i64::MIN <= fxmul(s as int, self.0 as int) <= i64::MAX,
            i64::MIN <= fxmul(s as int, self.1 as int) <= i64::MAX,
            i64::MIN <= fxmul(s as int, self.2 as int) <= i64::MAX,
        ensures
            r.0 == fxmul(s as int, self.0 as int),
            r.1 == fxmul(s as int, self.1 as int),
            r.2 == fxmul(s as int, self.2 as int),
    {
        Color(
            crate::fixed::fx_mul(s, self.0),
            crate::fixed::fx_mul(s, self.1),
            crate::fixed::fx_mul(s, self.2),
        )
    }

    /// The accumulated color of `samples` samples as one RGB byte
    /// triple, gamma-corrected; exact per `byte_of`.
    pub fn to_bytes(self, samples: usize) -> (r: [u8; 3])
        requires
            1 <= samples <= 0x7fff_ffff_ffff_ffff,
            self.0 >= 0,
            self.1 >= 0,
            self.2 >= 0,
        ensures
            r[0] == byte_of(self.0 as int, samples as int),
            r[1] == byte_of(self.1 as int, samples as int),
            r[2] == byte_of(self.2 as int, samples as int),
    {
        [
            byte_channel(self.0, samples as i64),
            byte_channel(self.1, samples as i64),
            byte_channel(self.2, samples as i64),
        ]
    }
}

/// One channel of `Color::to_bytes`, exact per `byte_of`.
fn byte_channel(v: i64, samples: i64) -> (r: u8)
    requires
        samples >= 1,
        v >= 0,
    ensures
        r == byte_of(v as int, samples as int),
{
    proof {
        lemma_tdiv_nonincreasing(v as int, samples as int);
    }
    let scaled: i64 = v / samples;
    let gamma: i64 = isqrt_i128((scaled as i128) * (SCALE as i128));
    let clamped: i64 = if gamma > SCALE {
        SCALE
    } else {
        gamma
    };
    proof {
        lemma_tdiv_bounds(clamped * 255, SCALE as int, 0, 255);
    }
    let byte: i64 = clamped * 255 / SCALE;
    byte as u8
}

} // verus!
