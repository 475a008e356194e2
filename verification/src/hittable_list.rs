//! The objects of a scene, and the nearest of them along a ray.
use crate::hittable::{reports, HitRecord, Hittable};
use crate::order::{in_range, lt, ranked};
use crate::ray::Ray;
use vstd::prelude::*;

verus! {

/// The upper end of the range that is left once `best` has been found.
pub open spec fn bound_after<V, T, M>(best: Option<HitRecord<V, T, M>>, t_max: T) -> T {
    match best {
        Some(rec) => rec.t,
        None => t_max,
    }
}

/// Of the hit kept so far and of what the next object reported for the range
/// that was left, the one to keep: a new hit replaces the old one.
pub open spec fn nearer_of<V, T, M>(
    best: Option<HitRecord<V, T, M>>,
    found: Option<HitRecord<V, T, M>>,
) -> Option<HitRecord<V, T, M>> {
    match found {
        Some(rec) => Some(rec),
        None => best,
    }
}

/// The hit that is kept after the first `k` of the reports `found`: the last
/// of them that is a hit.
pub open spec fn kept<V, T, M>(found: Seq<Option<HitRecord<V, T, M>>>, k: int) -> Option<
    HitRecord<V, T, M>,
>
    decreases k,
{
    if k <= 0 {
        None
    } else {
        nearer_of(kept(found, k - 1), found[k - 1])
    }
}

/// Whether `found` holds what `objects` may report when they are asked in
/// turn, each one for the range cut down to the parameter of the hit that was
/// kept before it.
pub open spec fn asked_in_turn<H: Hittable>(
    objects: Seq<H>,
    ray: Ray<H::Vector>,
    t_min: H::Scalar,
    t_max: H::Scalar,
    found: Seq<Option<HitRecord<H::Vector, H::Scalar, H::Material>>>,
) -> bool {
    &&& found.len() == objects.len()
    &&& forall|k: int|
        0 <= k < objects.len() ==> #[trigger] reports(
            &objects[k],
            ray,
            t_min,
            bound_after(kept(found, k), t_max),
            found[k],
        )
}

/// Whether `r` is a hit that may be left after `objects` have been asked in
/// turn: the last hit that one of them reported.
pub open spec fn nearest_of<H: Hittable>(
    objects: Seq<H>,
    ray: Ray<H::Vector>,
    t_min: H::Scalar,
    t_max: H::Scalar,
    r: Option<HitRecord<H::Vector, H::Scalar, H::Material>>,
) -> bool {
    exists|found: Seq<Option<HitRecord<H::Vector, H::Scalar, H::Material>>>| #[trigger]
        asked_in_turn(objects, ray, t_min, t_max, found) && r == kept(found, objects.len() as int)
}

/// Whether `object` reports only parameters that are acceptable for the range
/// it was asked for, whatever the upper end of that range.
pub open spec fn respects_range<H: Hittable>(
    object: &H,
    ray: Ray<H::Vector>,
    t_min: H::Scalar,
) -> bool where H::Scalar: PartialOrd {
    forall|bound: H::Scalar, rec: HitRecord<H::Vector, H::Scalar, H::Material>|
        #[trigger] reports(object, ray, t_min, bound, Some(rec)) ==> in_range(rec.t, t_min, bound)
}

/// Whether a hit of `object` in the range from `t_min` to `t_max` is not lost
/// when the upper end comes down to a `bound` that still admits it: the object
/// then reports a hit, and one that is at least as near.
pub open spec fn keeps_nearer_hits<H: Hittable>(
    object: &H,
    ray: Ray<H::Vector>,
    t_min: H::Scalar,
    t_max: H::Scalar,
) -> bool where H::Scalar: PartialOrd {
    forall|
        far: HitRecord<H::Vector, H::Scalar, H::Material>,
        bound: H::Scalar,
        found: Option<HitRecord<H::Vector, H::Scalar, H::Material>>,
    |
        #[trigger] reports(object, ray, t_min, t_max, Some(far)) && !lt(bound, far.t) && !lt(
            t_max,
            bound,
        ) && #[trigger] reports(object, ray, t_min, bound, found) ==> found is Some && !lt(
            far.t,
            found->Some_0.t,
        )
}

/// Whether `object` cannot be hit by `ray` anywhere in the range from `t_min`
/// to `t_max`.
pub open spec fn always_missed<H: Hittable>(
    object: &H,
    ray: Ray<H::Vector>,
    t_min: H::Scalar,
    t_max: H::Scalar,
) -> bool {
    forall|found: Option<HitRecord<H::Vector, H::Scalar, H::Material>>|
        #[trigger] reports(object, ray, t_min, t_max, found) ==> found is None
}

/// What is kept after `k` reports depends on those reports alone.
proof fn lemma_kept_of_prefix<V, T, M>(
    found: Seq<Option<HitRecord<V, T, M>>>,
    longer: Seq<Option<HitRecord<V, T, M>>>,
    k: int,
)
    requires
        k <= found.len() <= longer.len(),
        forall|j: int| 0 <= j < found.len() ==> found[j] == longer[j],
    ensures
        kept(longer, k) == kept(found, k),
    decreases k,
{
    if k > 0 {
        lemma_kept_of_prefix(found, longer, k - 1);
    }
}

/// Where no hit is kept after `n` reports, none of them was a hit.
proof fn lemma_nothing_kept<V, T, M>(found: Seq<Option<HitRecord<V, T, M>>>, n: int, k: int)
    requires
        0 <= k < n <= found.len(),
        kept(found, n) is None,
    ensures
        kept(found, k) is None,
        found[k] is None,
    decreases n,
{
    if k < n - 1 {
        lemma_nothing_kept(found, n - 1, k);
    }
}

/// Where every object respects the range it is asked for, so does the hit
/// that is kept after any number of reports.
proof fn lemma_kept_in_range<H: Hittable>(
    objects: Seq<H>,
    ray: Ray<H::Vector>,
    t_min: H::Scalar,
    t_max: H::Scalar,
    found: Seq<Option<HitRecord<H::Vector, H::Scalar, H::Material>>>,
    n: int,
) where H::Scalar: PartialOrd
    requires
        ranked::<H::Scalar>(),
        forall|i: int| 0 <= i < objects.len() ==> #[trigger] respects_range(&objects[i], ray, t_min),
        asked_in_turn(objects, ray, t_min, t_max, found),
        0 <= n <= objects.len(),
    ensures
        kept(found, n) matches Some(rec) ==> in_range(rec.t, t_min, t_max),
    decreases n,
{
    if n > 0 {
        lemma_kept_in_range(objects, ray, t_min, t_max, found, n - 1);
        let bound = bound_after(kept(found, n - 1), t_max);
        assert(respects_range(&objects[n - 1], ray, t_min));
        assert(reports(&objects[n - 1], ray, t_min, bound, found[n - 1]));
    }
}

/// Where the objects respect their ranges and keep their nearer hits, the
/// hit that is kept after `n` reports is at least as near as any hit of the
/// first `n` objects in the whole range.
proof fn lemma_kept_is_nearest<H: Hittable>(
    objects: Seq<H>,
    ray: Ray<H::Vector>,
    t_min: H::Scalar,
    t_max: H::Scalar,
    found: Seq<Option<HitRecord<H::Vector, H::Scalar, H::Material>>>,
    n: int,
    i: int,
    far: HitRecord<H::Vector, H::Scalar, H::Material>,
) where H::Scalar: PartialOrd
    requires
        ranked::<H::Scalar>(),
        forall|k: int| 0 <= k < objects.len() ==> #[trigger] respects_range(&objects[k], ray, t_min),
        forall|k: int|
            0 <= k < objects.len() ==> #[trigger] keeps_nearer_hits(&objects[k], ray, t_min, t_max),
        asked_in_turn(objects, ray, t_min, t_max, found),
        0 <= i < n <= objects.len(),
        reports(&objects[i], ray, t_min, t_max, Some(far)),
    ensures
        kept(found, n) matches Some(rec) && !lt(far.t, rec.t),
    decreases n,
{
    let bound = bound_after(kept(found, n - 1), t_max);
    assert(respects_range(&objects[n - 1], ray, t_min));
    assert(keeps_nearer_hits(&objects[n - 1], ray, t_min, t_max));
    assert(reports(&objects[n - 1], ray, t_min, bound, found[n - 1]));
    lemma_kept_in_range(objects, ray, t_min, t_max, found, n - 1);
    if i < n - 1 {
        lemma_kept_is_nearest(objects, ray, t_min, t_max, found, n - 1, i, far);
    }
}

/// Where no object can be hit in the whole range, no hit is ever kept.
proof fn lemma_kept_nothing<H: Hittable>(
    objects: Seq<H>,
    ray: Ray<H::Vector>,
    t_min: H::Scalar,
    t_max: H::Scalar,
    found: Seq<Option<HitRecord<H::Vector, H::Scalar, H::Material>>>,
    n: int,
)
    requires
        forall|i: int|
            0 <= i < objects.len() ==> #[trigger] always_missed(&objects[i], ray, t_min, t_max),
        asked_in_turn(objects, ray, t_min, t_max, found),
        0 <= n <= objects.len(),
    ensures
        kept(found, n) is None,
    decreases n,
{
    if n > 0 {
        lemma_kept_nothing(objects, ray, t_min, t_max, found, n - 1);
        assert(always_missed(&objects[n - 1], ray, t_min, t_max));
        assert(reports(
            &objects[n - 1],
            ray,
            t_min,
            bound_after(kept(found, n - 1), t_max),
            found[n - 1],
        ));
    }
}

/// A list without objects is never hit.
pub proof fn lemma_empty_list_is_missed<H: Hittable>(
    ray: Ray<H::Vector>,
    t_min: H::Scalar,
    t_max: H::Scalar,
    r: Option<HitRecord<H::Vector, H::Scalar, H::Material>>,
)
    requires
        nearest_of(Seq::<H>::empty(), ray, t_min, t_max, r),
    ensures
        r is None,
{
}

/// What the list reports is what its last object reported for the range
/// that the objects before it had left, or else what those had kept.
pub proof fn lemma_nearest_of_last<H: Hittable>(
    objects: Seq<H>,
    ray: Ray<H::Vector>,
    t_min: H::Scalar,
    t_max: H::Scalar,
    r: Option<HitRecord<H::Vector, H::Scalar, H::Material>>,
)
    requires
        nearest_of(objects, ray, t_min, t_max, r),
        objects.len() > 0,
    ensures
        exists|
            before: Option<HitRecord<H::Vector, H::Scalar, H::Material>>,
            found: Option<HitRecord<H::Vector, H::Scalar, H::Material>>,
        |
            #[trigger] nearest_of(objects.drop_last(), ray, t_min, t_max, before)
                && #[trigger] reports(
                &objects.last(),
                ray,
                t_min,
                bound_after(before, t_max),
                found,
            ) && r == nearer_of(before, found),
{
    let trace = choose|found: Seq<Option<HitRecord<H::Vector, H::Scalar, H::Material>>>| #[trigger]
        asked_in_turn(objects, ray, t_min, t_max, found) && r == kept(found, objects.len() as int);
    let n = objects.len() - 1;
    let front = trace.drop_last();
    let before = kept(trace, n);
    assert forall|k: int| 0 <= k <= n implies kept(front, k) == kept(trace, k) by {
        lemma_kept_of_prefix(front, trace, k);
    }
    assert(asked_in_turn(objects.drop_last(), ray, t_min, t_max, front));
    assert(nearest_of(objects.drop_last(), ray, t_min, t_max, before));
    assert(reports(&objects.last(), ray, t_min, bound_after(before, t_max), trace[n]));
}

/// Where the list is missed, each of its objects was asked for the whole
/// range and reported no hit.
pub proof fn lemma_missed_list_has_missed_objects<H: Hittable>(
    objects: Seq<H>,
    ray: Ray<H::Vector>,
    t_min: H::Scalar,
    t_max: H::Scalar,
    i: int,
)
    requires
        nearest_of(objects, ray, t_min, t_max, None),
        0 <= i < objects.len(),
    ensures
        reports(&objects[i], ray, t_min, t_max, None),
{
    let found = choose|found: Seq<Option<HitRecord<H::Vector, H::Scalar, H::Material>>>| #[trigger]
        asked_in_turn(objects, ray, t_min, t_max, found) && kept(found, objects.len() as int)
            is None;
    lemma_nothing_kept(found, objects.len() as int, i);
    assert(reports(&objects[i], ray, t_min, bound_after(kept(found, i), t_max), found[i]));
}

/// Where no object of the list can be hit in the whole range, the list is
/// missed.
pub proof fn lemma_list_of_missed_objects_is_missed<H: Hittable>(
    objects: Seq<H>,
    ray: Ray<H::Vector>,
    t_min: H::Scalar,
    t_max: H::Scalar,
    r: Option<HitRecord<H::Vector, H::Scalar, H::Material>>,
)
    requires
        nearest_of(objects, ray, t_min, t_max, r),
        forall|i: int|
            0 <= i < objects.len() ==> #[trigger] always_missed(&objects[i], ray, t_min, t_max),
    ensures
        r is None,
{
    let found = choose|found: Seq<Option<HitRecord<H::Vector, H::Scalar, H::Material>>>| #[trigger]
        asked_in_turn(objects, ray, t_min, t_max, found) && r == kept(found, objects.len() as int);
    lemma_kept_nothing(objects, ray, t_min, t_max, found, objects.len() as int);
}

/// Where the order ranks the parameters and every object respects the range
/// it is asked for, so does the list: the parameter of the hit that it
/// reports is acceptable for the range from `t_min` to `t_max`.
pub proof fn lemma_nearest_in_range<H: Hittable>(
    objects: Seq<H>,
    ray: Ray<H::Vector>,
    t_min: H::Scalar,
    t_max: H::Scalar,
    r: Option<HitRecord<H::Vector, H::Scalar, H::Material>>,
) where H::Scalar: PartialOrd
    requires
        ranked::<H::Scalar>(),
        forall|i: int| 0 <= i < objects.len() ==> #[trigger] respects_range(&objects[i], ray, t_min),
        nearest_of(objects, ray, t_min, t_max, r),
    ensures
        r matches Some(rec) ==> in_range(rec.t, t_min, t_max),
{
    let found = choose|found: Seq<Option<HitRecord<H::Vector, H::Scalar, H::Material>>>| #[trigger]
        asked_in_turn(objects, ray, t_min, t_max, found) && r == kept(found, objects.len() as int);
    lemma_kept_in_range(objects, ray, t_min, t_max, found, objects.len() as int);
}

/// The list reports the nearest hit of the scene. Where the order ranks the
/// parameters, every object respects the range it is asked for and no object
/// loses a hit when the range is cut down to a bound that still admits it,
/// then no object has, in the range from `t_min` to `t_max`, a hit nearer than
/// the one that the list reports: if the object at `i` can be hit at `far`,
/// the list is hit, and at a parameter that is not above that of `far`.
pub proof fn lemma_nearest_is_nearest<H: Hittable>(
    objects: Seq<H>,
    ray: Ray<H::Vector>,
    t_min: H::Scalar,
    t_max: H::Scalar,
    r: Option<HitRecord<H::Vector, H::Scalar, H::Material>>,
    i: int,
    far: HitRecord<H::Vector, H::Scalar, H::Material>,
) where H::Scalar: PartialOrd
    requires
        ranked::<H::Scalar>(),
        forall|k: int| 0 <= k < objects.len() ==> #[trigger] respects_range(&objects[k], ray, t_min),
        forall|k: int|
            0 <= k < objects.len() ==> #[trigger] keeps_nearer_hits(&objects[k], ray, t_min, t_max),
        nearest_of(objects, ray, t_min, t_max, r),
        0 <= i < objects.len(),
        reports(&objects[i], ray, t_min, t_max, Some(far)),
    ensures
        r matches Some(rec) && !lt(far.t, rec.t),
{
    let found = choose|found: Seq<Option<HitRecord<H::Vector, H::Scalar, H::Material>>>| #[trigger]
        asked_in_turn(objects, ray, t_min, t_max, found) && r == kept(found, objects.len() as int);
    lemma_kept_is_nearest(objects, ray, t_min, t_max, found, objects.len() as int, i, far);
}

/// Keeps, of the hit found so far and of what the next object reported for
/// the range that was left, the nearer one.
pub fn keep_nearer<V, T, M>(
    best: Option<HitRecord<V, T, M>>,
    found: Option<HitRecord<V, T, M>>,
) -> (r: Option<HitRecord<V, T, M>>)
    ensures
        r == nearer_of(best, found),
{
    match found {
        Some(rec) => Some(rec),
        None => best,
    }
}

/// A list of hittable objects, in the order in which they were added.
pub struct HittableList<H> {
    objects: Vec<H>,
}

impl<H> View for HittableList<H> {
    type V = Seq<H>;

    closed spec fn view(&self) -> Self::V {
        self.objects@
    }
}

impl<H> HittableList<H> {
    /// Creates a list without objects.
    pub fn new() -> (r: HittableList<H>)
        ensures
            r@ == Seq::<H>::empty(),
    {
        HittableList { objects: Vec::new() }
    }

    /// Adds an object at the end of the list.
    pub fn add(&mut self, new: H)
        ensures
            final(self)@ == old(self)@.push(new),
    {
        self.objects.push(new);
    }

    /// Removes every object from the list.
    pub fn clear(&mut self)
        ensures
            final(self)@ == Seq::<H>::empty(),
    {
        self.objects.clear();
    }
}

impl<H> Default for HittableList<H> {
    /// Creates a list without objects.
    fn default() -> (r: HittableList<H>)
        ensures
            r@ == Seq::<H>::empty(),
    {
        HittableList::new()
    }
}

impl<H: Hittable> Hittable for HittableList<H> where H::Vector: Copy, H::Scalar: Copy {
    type Vector = H::Vector;

    type Scalar = H::Scalar;

    type Material = H::Material;

    /// Asks every object in turn and keeps the nearest hit: once an object
    /// has been hit, the objects after it are asked only for what is nearer.
    fn hit(&self, ray: Ray<H::Vector>, t_min: H::Scalar, t_max: H::Scalar) -> (r: Option<
        HitRecord<H::Vector, H::Scalar, H::Material>,
    >)
        ensures
            nearest_of(self@, ray, t_min, t_max, r),
    {
        let mut hit_record: Option<HitRecord<H::Vector, H::Scalar, H::Material>> = None;
        let mut closest_so_far = t_max;
        let ghost mut trace = Seq::<Option<HitRecord<H::Vector, H::Scalar, H::Material>>>::empty();
        let mut i: usize = 0;
        while i < self.objects.len()
            invariant
                i <= self.objects@.len(),
                asked_in_turn(self.objects@.take(i as int), ray, t_min, t_max, trace),
                hit_record == kept(trace, i as int),
                closest_so_far == bound_after(hit_record, t_max),
            decreases self.objects@.len() - i,
        {
            let found = self.objects[i].hit(ray, t_min, closest_so_far);
            if let Some(temp_hit_record) = &found {
                closest_so_far = temp_hit_record.t;
            }
            proof {
                let longer = trace.push(found);
                assert forall|k: int| 0 <= k <= i implies kept(longer, k) == kept(trace, k) by {
                    lemma_kept_of_prefix(trace, longer, k);
                }
                trace = longer;
            }
            hit_record = keep_nearer(hit_record, found);
            i += 1;
        }
        proof {
            assert(self.objects@.take(i as int) =~= self.objects@);
        }
        hit_record
    }
}

} // verus!
