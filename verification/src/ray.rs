//! Rays: an origin and a (not necessarily unit) direction.

use vstd::prelude::*;

verus! {

use crate::fixed::SCALE;
use crate::fixed::tdiv;
use crate::fixed::lemma_mul_abs_bound;
use crate::fixed::lemma_tdiv_abs_bound;
use crate::point3d::Point3D;
use crate::point3d::in_range;

#[derive(Clone, Copy, PartialEq, Eq, Structural, Debug)]
pub struct Ray {
    pub origin: Point3D,
    pub direction: Point3D,
}

/// X coordinate of the point at parameter `t` along the ray; `t` is a
/// fixed-point scalar, so the step is scaled back down once.
pub open spec fn at_x(r: Ray, t: int) -> int {
    r.origin.x + tdiv(t * r.direction.x, SCALE as int)
}

/// Y coordinate of the point at parameter `t` along the ray.
pub open spec fn at_y(r: Ray, t: int) -> int {
    r.origin.y + tdiv(t * r.direction.y, SCALE as int)
}

/// Z coordinate of the point at parameter `t` along the ray.
pub open spec fn at_z(r: Ray, t: int) -> int {
    r.origin.z + tdiv(t * r.direction.z, SCALE as int)
}

impl Ray {
    pub fn new(origin: Point3D, direction: Point3D) -> (r: Ray)
        ensures
            r == (Ray { origin, direction }),
    {
        Ray { origin, direction }
    }

    /// The point reached after `t` of this ray's direction.
    pub fn at(&self, t: i64) -> (p: Point3D)
        requires
            in_range(self.origin, 0x4000_0000_0000),
            in_range(self.direction, 0x4000_0000),
            -0x2_0000_0000 <= t <= 0x2_0000_0000,
        ensures
            p.x == at_x(*self, t as int),
            p.y == at_y(*self, t as int),
            p.z == at_z(*self, t as int),
    {
        proof {
            lemma_mul_abs_bound(t as int, self.direction.x as int, 0x2_0000_0000, 0x4000_0000);
            lemma_mul_abs_bound(t as int, self.direction.y as int, 0x2_0000_0000, 0x4000_0000);
            lemma_mul_abs_bound(t as int, self.direction.z as int, 0x2_0000_0000, 0x4000_0000);
            lemma_tdiv_abs_bound(t * self.direction.x, SCALE as int, 0x8000_0000_0000);
            lemma_tdiv_abs_bound(t * self.direction.y, SCALE as int, 0x8000_0000_0000);
            lemma_tdiv_abs_bound(t * self.direction.z, SCALE as int, 0x8000_0000_0000);
        }
        let sx = crate::fixed::div_i128((t as i128) * (self.direction.x as i128), SCALE as i128);
        let sy = crate::fixed::div_i128((t as i128) * (self.direction.y as i128), SCALE as i128);
        let sz = crate::fixed::div_i128((t as i128) * (self.direction.z as i128), SCALE as i128);
        Point3D {
            x: self.origin.x + sx as i64,
            y: self.origin.y + sy as i64,
            z: self.origin.z + sz as i64,
        }
    }
}

} // verus!
