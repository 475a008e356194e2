//! Spectral distributions: how much light there is at each wavelength.
use crate::order::{gt, le, lemma_le_transitive, obeys_order, says_gt, total_order};
use vstd::prelude::*;

verus! {

/// A spectral distribution.
pub trait Spectrum {
    /// Wavelengths, and the values of the distribution.
    type Value;

    /// Returns the value of the spectrum evaluated at the given wavelength.
    fn operator(&self, lambda: Self::Value) -> (r: Self::Value);

    /// Returns the maximum value the distribution attains.
    fn max_value(&self) -> (r: Self::Value);
}

/// A spectrum with a constant distribution.
pub struct ConstantSpectrum<T> {
    /// The value of the distribution at any point in its domain.
    value: T,
}

impl<T> ConstantSpectrum<T> {
    /// The value of the distribution at every wavelength.
    pub closed spec fn level(&self) -> T {
        self.value
    }

    /// Creates the spectrum that has `value` at every wavelength.
    pub fn new(value: T) -> (r: ConstantSpectrum<T>)
        ensures
            r.level() == value,
    {
        ConstantSpectrum { value }
    }
}

impl<T: Copy> Spectrum for ConstantSpectrum<T> {
    type Value = T;

    fn operator(&self, _lambda: T) -> (r: T)
        ensures
            r == self.level(),
    {
        self.value
    }

    fn max_value(&self) -> (r: T)
        ensures
            r == self.level(),
    {
        self.value
    }
}

/// The index of the element that a walk from the left keeps as the largest
/// of the first `n` of `values`: it gives way only to an element that is
/// above it, so of several largest elements the first is kept.
pub open spec fn largest_index<T: PartialOrd>(values: Seq<T>, n: int) -> int
    decreases n,
{
    if n <= 1 {
        0
    } else {
        let before = largest_index(values, n - 1);
        if gt(values[n - 1], values[before]) {
            n - 1
        } else {
            before
        }
    }
}

/// Whether `kept` holds, for each of `values`, the index of the element that
/// a walk from the left keeps once it has seen that element: it starts with
/// the first element and gives way to each element that the comparison finds
/// above the one kept so far.
pub open spec fn walked<T: PartialOrd>(values: Seq<T>, kept: Seq<int>) -> bool {
    &&& kept.len() == values.len()
    &&& values.len() > 0 ==> kept[0] == 0
    &&& forall|i: int|
        1 <= i < values.len() ==> 0 <= #[trigger] kept[i - 1] < i && if kept[i] == i {
            says_gt(values[i], values[kept[i - 1]], true)
        } else {
            kept[i] == kept[i - 1] && says_gt(values[i], values[kept[i - 1]], false)
        }
}

/// Returns the largest of `values`, or nothing where there are none. Of
/// several largest values the first is returned.
pub fn max_value<T: PartialOrd>(values: &[T]) -> (r: Option<&T>)
    ensures
        r is None <==> values.len() == 0,
        r matches Some(largest) ==> exists|kept: Seq<int>|
            #[trigger] walked(values@, kept) && 0 <= kept[values.len() - 1] < values.len()
                && *largest == values@[kept[values.len() - 1]],
        obeys_order::<T>() ==> (r matches Some(largest) ==> *largest == values@[largest_index(
            values@,
            values.len() as int,
        )]),
{
    if values.len() == 0 {
        return None;
    }
    let mut best: usize = 0;
    let mut i: usize = 1;
    let ghost mut kept: Seq<int> = seq![0int];
    while i < values.len()
        invariant
            1 <= i <= values.len(),
            best < i,
            kept.len() == i,
            kept[0] == 0,
            kept[i - 1] == best,
            forall|k: int|
                1 <= k < i ==> 0 <= #[trigger] kept[k - 1] < k && if kept[k] == k {
                    says_gt(values@[k], values@[kept[k - 1]], true)
                } else {
                    kept[k] == kept[k - 1] && says_gt(values@[k], values@[kept[k - 1]], false)
                },
            obeys_order::<T>() ==> best == largest_index(values@, i as int),
        decreases values.len() - i,
    {
        if values[i] > values[best] {
            best = i;
        }
        proof {
            kept = kept.push(best as int);
        }
        i += 1;
    }
    proof {
        assert(walked(values@, kept));
    }
    Some(&values[best])
}

/// The index that the walk keeps lies among the elements that it has seen.
pub proof fn lemma_largest_index_in_bounds<T: PartialOrd>(values: Seq<T>, n: int)
    requires
        1 <= n <= values.len(),
    ensures
        0 <= largest_index(values, n) < n,
    decreases n,
{
    if n > 1 {
        lemma_largest_index_in_bounds(values, n - 1);
    }
}

/// In a total order no element is above the one that the walk keeps.
pub proof fn lemma_largest_is_largest<T: PartialOrd>(values: Seq<T>, n: int, i: int)
    requires
        total_order::<T>(),
        0 <= i < n <= values.len(),
    ensures
        le(values[i], values[largest_index(values, n)]),
    decreases n,
{
    lemma_largest_index_in_bounds(values, n);
    if n > 1 {
        lemma_largest_index_in_bounds(values, n - 1);
        let before = largest_index(values, n - 1);
        if i < n - 1 {
            lemma_largest_is_largest(values, n - 1, i);
            if gt(values[n - 1], values[before]) {
                lemma_le_transitive(values[i], values[before], values[n - 1]);
            }
        }
    }
}

} // verus!
