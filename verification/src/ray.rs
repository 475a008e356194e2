//! Rays: an origin and a direction.
use vstd::prelude::*;

verus! {

/// A ray in space: the points `orig + t * dir`.
#[derive(Debug, Clone, Copy)]
pub struct Ray<V> {
    /// The origin of the ray.
    pub orig: V,
    /// The direction of the ray, of any length but zero.
    pub dir: V,
}

impl<V> Ray<V> {
    /// Creates the ray that starts at `orig` and runs along `dir`.
    pub fn new(orig: V, dir: V) -> (r: Ray<V>)
        ensures
            r.orig == orig,
            r.dir == dir,
    {
        Ray { orig, dir }
    }
}

} // verus!
