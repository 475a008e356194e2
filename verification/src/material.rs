//! What surfaces are made of, and what they make of a ray.
use crate::hittable::HitRecord;
use crate::ray::Ray;
use vstd::prelude::*;

verus! {

/// What a surface is made of. `C` is the type of colours and `T` that of
/// numbers.
#[derive(Debug, Clone, Copy, PartialEq)]
pub enum Material<C, T> {
    /// A matt surface, which scatters light to all sides.
    Lambertian {
        /// The share of each colour that the surface reflects.
        albedo: C,
    },
    /// A metal surface, which mirrors light.
    Metal {
        /// The share of each colour that the surface reflects.
        albedo: C,
        /// The width of the lobe around the mirror direction, from 0, a
        /// perfect mirror, to 1.
        fuzz: T,
    },
}

impl<C, T> Material<C, T> {
    /// The share of each colour that the surface reflects.
    pub open spec fn albedo_spec(&self) -> C {
        match self {
            Material::Lambertian { albedo } => *albedo,
            Material::Metal { albedo, .. } => *albedo,
        }
    }

    /// What the material makes of a ray that hit it at `rec`. `direction` is
    /// where the surface would send the ray, and `sound` tells whether that
    /// direction can be used as it stands. For a matt surface it cannot where
    /// it has come out next to zero, and the ray then leaves along the
    /// normal. For a metal it cannot where it points into the surface, and
    /// the ray is then swallowed.
    pub open spec fn scatter_spec<V, M>(
        &self,
        rec: HitRecord<V, T, M>,
        direction: V,
        sound: bool,
    ) -> Option<(C, Ray<V>)> {
        match self {
            Material::Lambertian { albedo } => Some(
                (
                    *albedo,
                    (Ray {
                        orig: rec.point,
                        dir: if sound {
                            direction
                        } else {
                            rec.normal
                        },
                    }),
                ),
            ),
            Material::Metal { albedo, .. } => if sound {
                Some((*albedo, (Ray { orig: rec.point, dir: direction })))
            } else {
                None
            },
        }
    }
}

impl<C: Copy, T> Material<C, T> {
    /// The share of each colour that the surface reflects.
    pub fn albedo(&self) -> (r: C)
        ensures
            r == self.albedo_spec(),
    {
        match self {
            Material::Lambertian { albedo } => *albedo,
            Material::Metal { albedo, .. } => *albedo,
        }
    }

    /// Decides how a ray goes on from the hit `rec`: the attenuation, which
    /// is the share of each colour that is kept, and the scattered ray; or
    /// nothing where the surface swallows the ray. `direction` is where the
    /// surface would send the ray, and `sound` tells whether that direction
    /// can be used as it stands: for a matt surface, whether it has not come
    /// out next to zero; for a metal, whether it points away from the
    /// surface.
    pub fn scatter<V: Copy, M>(&self, rec: &HitRecord<V, T, M>, direction: V, sound: bool) -> (r:
        Option<(C, Ray<V>)>)
        ensures
            r == self.scatter_spec(*rec, direction, sound),
    {
        match self {
            Material::Lambertian { albedo } => {
                let scatter_direction = if sound {
                    direction
                } else {
                    rec.normal
                };
                Some((*albedo, Ray::new(rec.point, scatter_direction)))
            },
            Material::Metal { albedo, .. } => {
                if sound {
                    Some((*albedo, Ray::new(rec.point, direction)))
                } else {
                    None
                }
            },
        }
    }
}

impl<C: Default, T> Default for Material<C, T> {
    /// A matt surface of the default colour.
    fn default() -> (r: Material<C, T>)
        ensures
            (r matches Material::Lambertian { albedo } && call_ensures(C::default, (), albedo)),
    {
        Material::Lambertian { albedo: C::default() }
    }
}

/// A matt surface never swallows a ray, and what it keeps of the light is
/// its albedo.
pub proof fn lemma_lambertian_always_scatters<C, T, V, M>(
    material: Material<C, T>,
    rec: HitRecord<V, T, M>,
    direction: V,
    sound: bool,
)
    requires
        material is Lambertian,
    ensures
        material.scatter_spec(rec, direction, sound) matches Some((attenuation, scattered))
            && attenuation == material.albedo_spec() && scattered.orig == rec.point,
{
}

/// A metal swallows exactly the rays that it would send into the surface,
/// and sends the others on in the very direction that was handed over.
pub proof fn lemma_metal_scatters_outward<C, T, V, M>(
    material: Material<C, T>,
    rec: HitRecord<V, T, M>,
    direction: V,
    sound: bool,
)
    requires
        material is Metal,
    ensures
        material.scatter_spec(rec, direction, sound) is Some <==> sound,
        material.scatter_spec(rec, direction, sound) matches Some((attenuation, scattered))
            ==> scattered.dir == direction,
{
}

/// Whatever the material, a scattered ray starts at the hit and runs in the
/// direction that was handed over or along the normal, and the attenuation
/// is the albedo.
pub proof fn lemma_attenuation_is_albedo<C, T, V, M>(
    material: Material<C, T>,
    rec: HitRecord<V, T, M>,
    direction: V,
    sound: bool,
)
    ensures
        material.scatter_spec(rec, direction, sound) matches Some((attenuation, scattered))
            ==> attenuation == material.albedo_spec() && scattered.orig == rec.point && (
        scattered.dir == direction || scattered.dir == rec.normal),
{
}

} // verus!
