//! Which root of an intersection equation counts as the hit.
use crate::order::{in_range, let_through, lt, obeys_order, turned_down};
use vstd::prelude::*;

verus! {

/// The root that is reported for the range from `t_min` to `t_max`: `near` if
/// it is acceptable, else `far` if that one is acceptable, else none.
pub open spec fn nearest_root_spec<T: PartialOrd>(near: T, far: T, t_min: T, t_max: T) -> Option<
    T,
> {
    if in_range(near, t_min, t_max) {
        Some(near)
    } else if in_range(far, t_min, t_max) {
        Some(far)
    } else {
        None
    }
}

/// Picks, of the two parameters at which a ray meets a closed surface, the
/// one that is reported as the hit. `near` is the root that was computed as
/// the smaller one and is tried first.
pub fn nearest_root<T: PartialOrd>(near: T, far: T, t_min: T, t_max: T) -> (r: Option<T>)
    ensures
        (match r {
            Some(root) => (root == near && let_through(near, t_min, t_max)) || (root == far
                && turned_down(near, t_min, t_max) && let_through(far, t_min, t_max)),
            None => turned_down(near, t_min, t_max) && turned_down(far, t_min, t_max),
        }),
        obeys_order::<T>() ==> r == nearest_root_spec(near, far, t_min, t_max),
{
    if !(near < t_min || t_max < near) {
        Some(near)
    } else if !(far < t_min || t_max < far) {
        Some(far)
    } else {
        None
    }
}

/// Where both roots are acceptable, the first one is reported, and it is the
/// nearer one whenever the roots were handed over in their order. So a ray
/// that starts outside a surface is stopped where it enters.
pub proof fn lemma_entry_before_exit<T: PartialOrd>(near: T, far: T, t_min: T, t_max: T)
    requires
        in_range(near, t_min, t_max),
        in_range(far, t_min, t_max),
    ensures
        nearest_root_spec(near, far, t_min, t_max) == Some(near),
        !lt(far, near) ==> !lt(far, nearest_root_spec(near, far, t_min, t_max)->Some_0),
{
}

/// Where the first root lies below the range and the second one is
/// acceptable, the second one is reported and not nothing. So a ray that
/// starts inside a surface is stopped where it leaves.
pub proof fn lemma_exit_from_inside<T: PartialOrd>(near: T, far: T, t_min: T, t_max: T)
    requires
        lt(near, t_min),
        in_range(far, t_min, t_max),
    ensures
        nearest_root_spec(near, far, t_min, t_max) == Some(far),
{
}

/// A root that is reported is acceptable for the range, and nothing is
/// reported only where neither root is.
pub proof fn lemma_reported_root_in_range<T: PartialOrd>(near: T, far: T, t_min: T, t_max: T)
    ensures
        (match nearest_root_spec(near, far, t_min, t_max) {
            Some(root) => in_range(root, t_min, t_max),
            None => !in_range(near, t_min, t_max) && !in_range(far, t_min, t_max),
        }),
{
}

} // verus!
