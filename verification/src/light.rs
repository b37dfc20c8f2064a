//! Light sources for the direct-illumination shader.

use vstd::prelude::*;

verus! {

use crate::fixed::SCALE;
use crate::point3d::Point3D;

#[derive(Clone, Copy, PartialEq, Eq, Structural, Debug)]
pub enum LightType {
    Ambient,
    Directional,
    Point,
}

/// A light: ambient lights carry only an intensity; point lights carry
/// their position, directional lights their direction.
#[derive(Clone, Copy, PartialEq, Eq, Structural, Debug)]
pub struct Light {
    pub typ: LightType,
    pub intensity: i64,
    pub point: Option<Point3D>,
}

/// A usable light: a nonnegative intensity of at most one, and a
/// world-bounded position or direction wherever the type calls for
/// one.
pub open spec fn light_wf(l: Light) -> bool {
    &&& 0 <= l.intensity <= SCALE
    &&& (l.typ != LightType::Ambient ==> l.point is Some)
    &&& (l.point matches Some(p) ==> crate::point3d::in_range(p, crate::point3d::WORLD_LIMIT as int))
}

} // verus!
