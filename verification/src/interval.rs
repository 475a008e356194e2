//! Locating a value among sorted samples.
use crate::order::{
    gt, le, lemma_le_transitive, lt, obeys_order, says_gt, says_le, says_lt, total_order,
};
use vstd::prelude::*;

verus! {

/// Whether `values` ascend: no element is above one that comes after it.
pub open spec fn sorted<T: PartialOrd>(values: Seq<T>) -> bool {
    forall|i: int, j: int| 0 <= i <= j < values.len() ==> le(values[i], values[j])
}

/// Whether the interior elements of `values` that are at most `value` come
/// before all the interior elements that are not. The first and the last
/// element take no part.
pub open spec fn partitioned<T: PartialOrd>(values: Seq<T>, value: T) -> bool {
    forall|i: int, j: int|
        1 <= i <= j < values.len() - 1 && le(values[j], value) ==> le(values[i], value)
}

/// Whether each element of `values` is at most the one that comes after it.
pub open spec fn ascending<T: PartialOrd>(values: Seq<T>) -> bool {
    forall|i: int| 0 <= i < values.len() - 1 ==> #[trigger] le(values[i], values[i + 1])
}

/// The value that `clamp` hands back: `x`, cut off at `min` and at `max`.
pub open spec fn clamp_spec<T: PartialOrd>(x: T, min: T, max: T) -> T {
    if lt(x, min) {
        min
    } else if gt(x, max) {
        max
    } else {
        x
    }
}

/// Restricts `x` to the range from `min` to `max`.
pub fn clamp<T: PartialOrd>(x: T, min: T, max: T) -> (r: T)
    ensures
        (r == min && says_lt(x, min, true)) || (r == max && says_lt(x, min, false) && says_gt(
            x,
            max,
            true,
        )) || (r == x && says_lt(x, min, false) && says_gt(x, max, false)),
        obeys_order::<T>() ==> r == clamp_spec(x, min, max),
{
    if x < min {
        return min;
    }
    if x > max {
        return max;
    }
    x
}

/// Tells whether `values` are sorted: whether each of them is at most the
/// one that comes after it.
pub fn is_sorted<T: PartialOrd>(values: &[T]) -> (r: bool)
    ensures
        r ==> forall|k: int|
            0 <= k < values.len() - 1 ==> #[trigger] says_le(values@[k], values@[k + 1], true),
        !r ==> exists|k: int|
            0 <= k < values.len() - 1 && #[trigger] says_le(values@[k], values@[k + 1], false),
        obeys_order::<T>() ==> r == ascending(values@),
{
    let mut i: usize = 1;
    while i < values.len()
        invariant
            1 <= i,
            forall|k: int|
                0 <= k < i - 1 && k < values.len() - 1 ==> #[trigger] says_le(
                    values@[k],
                    values@[k + 1],
                    true,
                ),
            obeys_order::<T>() ==> forall|k: int|
                0 <= k < i - 1 && k < values.len() - 1 ==> #[trigger] le(values@[k], values@[k + 1]),
        decreases values.len() - i,
    {
        if !(values[i - 1] <= values[i]) {
            proof {
                assert(says_le(values@[i - 1], values@[i - 1 + 1], false));
                if obeys_order::<T>() {
                    assert(!le(values@[i - 1], values@[i - 1 + 1]));
                }
            }
            return false;
        }
        i += 1;
    }
    true
}

/// Returns the index of the last interior element of `values` that is at
/// most `value`, or zero where the first interior element is above `value`
/// already. Where `values` are sorted, `value` lies between the element at
/// that index and the next one, unless it lies outside of them all.
pub fn find_interval<T: PartialOrd>(values: &[T], value: T) -> (r: usize)
    requires
        values.len() >= 2,
    ensures
        r + 2 <= values.len(),
        r >= 1 ==> says_le(values@[r as int], value, true),
        r + 2 < values.len() ==> says_le(values@[r + 1], value, false),
        obeys_order::<T>() && partitioned(values@, value) ==> forall|i: int|
            1 <= i < values.len() - 1 ==> (#[trigger] le(values@[i], value) <==> i <= r),
{
    let sz: usize = values.len();
    let mut size: usize = sz - 2;
    let mut first: usize = 1;
    while size > 0
        invariant
            sz == values.len(),
            first >= 1,
            first + size + 1 <= sz,
            first >= 2 ==> says_le(values@[first - 1], value, true),
            first + size + 1 < sz ==> says_le(values@[first + size], value, false),
        decreases size,
    {
        let half: usize = size >> 1;
        assert(half == size / 2) by (bit_vector)
            requires
                half == size >> 1,
        ;
        let middle: usize = first + half;
        if values[middle] <= value {
            first = middle + 1;
            size -= half + 1;
        } else {
            size = half;
        }
    }
    clamp(first - 1, 0, sz - 2)
}

/// The segment of sorted `lambdas` in which `lambda` lies: none where there
/// are no `lambdas` or where `lambda` lies below the first or above the last
/// of them, else the index that `find_interval` gives.
pub fn segment<T: PartialOrd + Copy>(lambdas: &[T], lambda: T) -> (r: Option<usize>)
    requires
        lambdas.len() == 1 ==> obeys_order::<T>() && (lt(lambda, lambdas@[0]) || gt(
            lambda,
            lambdas@[0],
        )),
    ensures
        r matches Some(o) ==> o + 2 <= lambdas.len() && says_lt(lambda, lambdas@[0], false)
            && says_gt(lambda, lambdas@[lambdas.len() - 1], false) && (o >= 1 ==> says_le(
            lambdas@[o as int],
            lambda,
            true,
        )) && (o + 2 < lambdas.len() ==> says_le(lambdas@[o + 1], lambda, false)),
        r is None ==> lambdas.len() == 0 || says_lt(lambda, lambdas@[0], true) || (says_lt(
            lambda,
            lambdas@[0],
            false,
        ) && says_gt(lambda, lambdas@[lambdas.len() - 1], true)),
        obeys_order::<T>() ==> (r is None <==> lambdas.len() == 0 || lt(lambda, lambdas@[0]) || gt(
            lambda,
            lambdas@[lambdas.len() - 1],
        )),
        obeys_order::<T>() && partitioned(lambdas@, lambda) ==> (r matches Some(o) ==> forall|
            i: int,
        |
            1 <= i < lambdas.len() - 1 ==> (#[trigger] le(lambdas@[i], lambda) <==> i <= o)),
{
    if lambdas.len() == 0 || lambda < lambdas[0] || lambda > lambdas[lambdas.len() - 1] {
        return None;
    }
    Some(find_interval(lambdas, lambda))
}

/// In a total order, values of which each is at most the next one are
/// sorted.
pub proof fn lemma_ascending_is_sorted<T: PartialOrd>(values: Seq<T>)
    requires
        total_order::<T>(),
        ascending(values),
    ensures
        sorted(values),
{
    assert forall|i: int, j: int| 0 <= i <= j < values.len() implies le(values[i], values[j]) by {
        lemma_ascending_reaches(values, i, j);
    }
}

/// In a total order, an element of ascending values is at most every element
/// after it, and itself.
proof fn lemma_ascending_reaches<T: PartialOrd>(values: Seq<T>, i: int, j: int)
    requires
        total_order::<T>(),
        ascending(values),
        0 <= i <= j < values.len(),
    ensures
        le(values[i], values[j]),
    decreases j - i,
{
    if i < j {
        lemma_ascending_reaches(values, i, j - 1);
        assert(le(values[j - 1], values[j - 1 + 1]));
        lemma_le_transitive(values[i], values[j - 1], values[j]);
    }
}

/// In a total order, sorted values are partitioned by every value.
pub proof fn lemma_sorted_is_partitioned<T: PartialOrd>(values: Seq<T>, value: T)
    requires
        total_order::<T>(),
        sorted(values),
    ensures
        partitioned(values, value),
{
    assert forall|i: int, j: int|
        1 <= i <= j < values.len() - 1 && le(values[j], value) implies le(values[i], value) by {
        lemma_le_transitive(values[i], values[j], value);
    }
}

/// Where the values are sorted in a total order and `value` is neither below
/// the first of them nor above the last, the index `r` that `find_interval`
/// is bound to return is the one segment that holds `value`: the element at
/// `r` is at most `value`, and the one after it is above `value` or is the
/// last one.
pub proof fn lemma_interval_holds_value<T: PartialOrd>(values: Seq<T>, value: T, r: int)
    requires
        total_order::<T>(),
        sorted(values),
        values.len() >= 2,
        le(values[0], value),
        le(value, values[values.len() - 1]),
        0 <= r <= values.len() - 2,
        forall|i: int| 1 <= i < values.len() - 1 ==> (#[trigger] le(values[i], value) <==> i <= r),
    ensures
        le(values[r], value),
        le(value, values[r + 1]),
{
    if r + 1 < values.len() - 1 {
        assert(!le(values[r + 1], value));
    }
}

} // verus!
