//! What a ray can hit, and what is recorded of a hit.
use crate::ray::Ray;
use vstd::prelude::*;

verus! {

/// What is known of the place where a ray met a surface.
#[derive(Debug, Clone, Copy, PartialEq)]
pub struct HitRecord<V, T, M> {
    /// The point at which the ray meets the surface.
    pub point: V,
    /// The unit normal of the surface at that point, turned against the ray.
    pub normal: V,
    /// The parameter of the ray at that point.
    pub t: T,
    /// Whether the ray came from outside the surface.
    pub front_face: bool,
    /// The material of the surface.
    pub material: M,
}

impl<V, T, M> HitRecord<V, T, M> {
    /// Creates the record of a hit at `point`, where the ray has the
    /// parameter `t`. `front_face` tells whether the ray came from outside
    /// the surface, that is, whether it runs against `outward_normal`; the
    /// normal that is kept is the one of `outward_normal` and its opposite
    /// `inward_normal` that is turned against the ray.
    pub fn from_ray(
        point: V,
        outward_normal: V,
        inward_normal: V,
        t: T,
        front_face: bool,
        material: M,
    ) -> (r: HitRecord<V, T, M>)
        ensures
            r.point == point,
            r.normal == (if front_face {
                outward_normal
            } else {
                inward_normal
            }),
            r.t == t,
            r.front_face == front_face,
            r.material == material,
    {
        let normal = if front_face {
            outward_normal
        } else {
            inward_normal
        };
        HitRecord { point, normal, t, front_face, material }
    }
}

/// Anything that a ray can hit.
pub trait Hittable {
    /// Points and directions in space.
    type Vector;

    /// Parameters along a ray.
    type Scalar;

    /// What a surface is made of.
    type Material;

    /// Looks for the place where `ray` meets the object at a parameter that is
    /// acceptable for the range from `t_min` to `t_max`.
    fn hit(&self, ray: Ray<Self::Vector>, t_min: Self::Scalar, t_max: Self::Scalar) -> (r: Option<
        HitRecord<Self::Vector, Self::Scalar, Self::Material>,
    >);
}

/// Whether `found` is something that `object` may report when it is asked
/// for a hit of `ray` in the range from `t_min` to `t_max`.
pub open spec fn reports<H: Hittable>(
    object: &H,
    ray: Ray<H::Vector>,
    t_min: H::Scalar,
    t_max: H::Scalar,
    found: Option<HitRecord<H::Vector, H::Scalar, H::Material>>,
) -> bool {
    call_ensures(H::hit, (object, ray, t_min, t_max), found)
}

} // verus!
