//! Hit records and the interface of ray-intersectable geometry.

use vstd::prelude::*;

verus! {

use crate::material::Material;
use crate::material::material_wf;
use crate::point3d::Point3D;
use crate::point3d::in_range;
use crate::point3d::COORD_LIMIT;
use crate::point3d::UNIT_LIMIT;
use crate::ray::Ray;

/// The result of a successful intersection test: the hit point, the
/// surface normal oriented against the incoming ray, the ray parameter,
/// whether the outward normal already faced the ray, and the surface's
/// material.
#[derive(Clone, Copy, PartialEq, Eq, Structural, Debug)]
pub struct HitRecord {
    pub point: Point3D,
    pub normal: Point3D,
    pub t: i64,
    pub front_face: bool,
    pub material: Material,
}

/// Every field of the record is within the bounds that the scattering
/// functions rely on.
pub open spec fn rec_wf(h: HitRecord) -> bool {
    &&& in_range(h.point, COORD_LIMIT as int)
    &&& in_range(h.normal, UNIT_LIMIT as int)
    &&& material_wf(h.material)
}

pub trait Hittable {
    /// When the geometry and the ray are small enough to intersect
    /// without overflow.
    spec fn hit_req(&self, ray: &Ray, t_min: i64, t_max: i64) -> bool;

    /// Intersect the ray with this object over the parameter window
    /// `[t_min, t_max]`; any reported hit lies in the window and
    /// carries a bounded record.
    fn hit(&self, ray: &Ray, t_min: i64, t_max: i64) -> (r: Option<HitRecord>)
        requires
            self.hit_req(ray, t_min, t_max),
        ensures
            match r {
                Some(rec) => t_min <= rec.t <= t_max && rec_wf(rec),
                None => true,
            },
    ;
}

} // verus!
