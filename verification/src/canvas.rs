//! A canvas addressed from its center, backed by a flat pixel vector.

use vstd::prelude::*;

verus! {

use crate::color::Color;
use crate::fixed::SCALE;
use crate::fixed::tdiv;
use crate::fixed::clamp_s;
use crate::fixed::lemma_tdiv_bounds;
use crate::fixed::lemma_tdiv_abs_bound;
use crate::fixed::lemma_mul_abs_bound;
use crate::point3d::Point3D;

pub struct Canvas {
    pub width: usize,
    pub height: usize,
    pub pixels: Vec<Color>,
}

/// A usable canvas: bounded dimensions and one stored color per pixel.
pub open spec fn canvas_wf(c: Canvas) -> bool {
    &&& 1 <= c.width <= 0x8000
    &&& 1 <= c.height <= 0x8000
    &&& c.pixels@.len() == c.width * c.height
}

/// The byte a stored channel turns into: clamped to `[0, 1]` and
/// spread over `0..=255`, without gamma correction.
pub open spec fn flat_byte(v: int) -> int {
    tdiv(clamp_s(v, 0, SCALE as int) * 255, SCALE as int)
}

impl Canvas {
    /// A canvas of the given size with every pixel white.
    pub fn new(width: usize, height: usize) -> (r: Canvas)
        requires
            1 <= width <= 0x8000,
            1 <= height <= 0x8000,
        ensures
            canvas_wf(r),
            r.width == width,
            r.height == height,
            forall|i: int|
                0 <= i < r.pixels@.len() ==> r.pixels@[i] == Color(
                    SCALE as i64,
                    SCALE as i64,
                    SCALE as i64,
                ),
    {
        let mut pixels: Vec<Color> = Vec::new();
        proof {
            lemma_mul_abs_bound(width as int, height as int, 0x8000, 0x8000);
        }
        let n = width * height;
        for i in 0..n
            invariant
                pixels@.len() == i,
                forall|k: int|
                    0 <= k < pixels@.len() ==> pixels@[k] == Color(
                        SCALE as i64,
                        SCALE as i64,
                        SCALE as i64,
                    ),
        {
            pixels.push(Color(SCALE, SCALE, SCALE));
        }
        Canvas { width, height, pixels }
    }

    /// The viewing direction through canvas coordinates `(x, y)`: a
    /// unit viewport at unit distance along positive z.
    pub fn to_viewport(&self, x: isize, y: isize) -> (r: Point3D)
        requires
            canvas_wf(*self),
            -0x10000 <= x <= 0x10000,
            -0x10000 <= y <= 0x10000,
        ensures
            r.x == tdiv(x * SCALE, self.width as int),
            r.y == tdiv(y * SCALE, self.height as int),
            r.z == SCALE,
    {
        proof {
            lemma_mul_abs_bound(x as int, SCALE as int, 0x10000, SCALE as int);
            lemma_mul_abs_bound(y as int, SCALE as int, 0x10000, SCALE as int);
            lemma_tdiv_abs_bound(x * SCALE, self.width as int, 0x10000 * SCALE);
            lemma_tdiv_abs_bound(y * SCALE, self.height as int, 0x10000 * SCALE);
        }
        let vx = crate::fixed::div_i128((x as i128) * (SCALE as i128), self.width as i128);
        let vy = crate::fixed::div_i128((y as i128) * (SCALE as i128), self.height as i128);
        Point3D { x: vx as i64, y: vy as i64, z: SCALE }
    }

    /// Paint the pixel at centered coordinates `(x, y)`; coordinates
    /// outside the canvas are ignored.
    pub fn put_pixel(&mut self, x: isize, y: isize, color: Color)
        requires
            canvas_wf(*old(self)),
            -0x20000 <= x <= 0x20000,
            -0x20000 <= y <= 0x20000,
        ensures
            canvas_wf(*final(self)),
            final(self).width == old(self).width,
            final(self).height == old(self).height,
            ({
                let sx = old(self).width as int / 2 + x;
                let sy = old(self).height as int / 2 - y - 1;
                if 0 <= sx < old(self).width && 0 <= sy < old(self).height {
                    final(self).pixels@ == old(self).pixels@.update(sy * old(self).width + sx,
                    color)
                } else {
                    final(self).pixels@ == old(self).pixels@
                }
            }),
    {
        let sx = (self.width / 2) as isize + x;
        let sy = (self.height / 2) as isize - y - 1;
        if sx < 0 || sx >= self.width as isize {
            return ;
        }
        if sy < 0 || sy >= self.height as isize {
            return ;
        }
        proof {
            assert(sy * self.width <= (self.height - 1) * self.width) by (nonlinear_arith)
                requires
                    sy <= self.height - 1,
                    self.width >= 0,
            ;
            assert((self.height - 1) * (self.width as int) + self.width == (self.height as int)
                * self.width) by (nonlinear_arith);
            assert((self.width as int) * self.height == (self.height as int) * self.width)
                by (nonlinear_arith);
        }
        let n = self.pixels.len();
        let pos = sy as usize * self.width + sx as usize;
        self.pixels.set(pos, color);
    }

    /// Flatten the canvas to a row-major RGB byte buffer, top row
    /// first, one clamped byte per channel.
    pub fn to_pixels(&self) -> (r: Vec<u8>)
        requires
            canvas_wf(*self),
        ensures
            r@.len() == 3 * self.pixels@.len(),
            forall|i: int|
                0 <= i < self.pixels@.len() ==> {
                    &&& #[trigger] r@[3 * i] == flat_byte(self.pixels@[i].0 as int)
                    &&& r@[3 * i + 1] == flat_byte(self.pixels@[i].1 as int)
                    &&& r@[3 * i + 2] == flat_byte(self.pixels@[i].2 as int)
                },
    {
        let mut out: Vec<u8> = Vec::new();
        let n = self.pixels.len();
        for i in 0..n
            invariant
                n == self.pixels@.len(),
                out@.len() == 3 * i,
                forall|k: int|
                    0 <= k < i ==> {
                        &&& #[trigger] out@[3 * k] == flat_byte(self.pixels@[k].0 as int)
                        &&& out@[3 * k + 1] == flat_byte(self.pixels@[k].1 as int)
                        &&& out@[3 * k + 2] == flat_byte(self.pixels@[k].2 as int)
                    },
        {
            let ghost out0 = out@;
            let p = self.pixels[i];
            out.push(flat_channel(p.0));
            out.push(flat_channel(p.1));
            out.push(flat_channel(p.2));
            proof {
                assert(forall|j: int| 0 <= j < out0.len() ==> #[trigger] out@[j] == out0[j]);
                assert(out@[3 * (i as int)] == flat_byte(self.pixels@[i as int].0 as int));
                assert(out@[3 * (i as int) + 1] == flat_byte(self.pixels@[i as int].1 as int));
                assert(out@[3 * (i as int) + 2] == flat_byte(self.pixels@[i as int].2 as int));
            }
        }
        out
    }
}

/// One channel flattened to a byte, exact per `flat_byte`.
fn flat_channel(v: i64) -> (r: u8)
    ensures
        r == flat_byte(v as int),
{
    let c: i64 = if v < 0 {
        0
    } else if v > SCALE {
        SCALE
    } else {
        v
    };
    proof {
        lemma_tdiv_bounds(c * 255, SCALE as int, 0, 255);
    }
    let b = c * 255 / SCALE;
    b as u8
}

} // verus!
