//! The order on ray parameters and on samples, as the comparison operators
//! see it.
use vstd::prelude::*;
use vstd::std_specs::cmp::PartialOrdIs;
use vstd::std_specs::cmp::PartialOrdSpec;

verus! {

/// Whether the comparison operators of `T` compute what the order of `T` says.
pub open spec fn obeys_order<T: PartialOrd>() -> bool {
    T::obeys_partial_cmp_spec()
}

/// `a` is strictly below `b`.
pub open spec fn lt<T: PartialOrd>(a: T, b: T) -> bool {
    a.is_lt(&b)
}

/// `a` is below `b` or equal to it.
pub open spec fn le<T: PartialOrd>(a: T, b: T) -> bool {
    a.is_le(&b)
}

/// `a` is strictly above `b`.
pub open spec fn gt<T: PartialOrd>(a: T, b: T) -> bool {
    a.is_gt(&b)
}

/// Whether the comparison `a < b` may come out as `answer`.
pub open spec fn says_lt<T: PartialOrd>(a: T, b: T, answer: bool) -> bool {
    call_ensures(T::lt, (&a, &b), answer)
}

/// Whether the comparison `a <= b` may come out as `answer`.
pub open spec fn says_le<T: PartialOrd>(a: T, b: T, answer: bool) -> bool {
    call_ensures(T::le, (&a, &b), answer)
}

/// Whether the comparison `a > b` may come out as `answer`.
pub open spec fn says_gt<T: PartialOrd>(a: T, b: T, answer: bool) -> bool {
    call_ensures(T::gt, (&a, &b), answer)
}

/// Whether the comparisons let `t` through for the range from `t_min` to
/// `t_max`: they found it neither below the lower end nor above the upper
/// end.
pub open spec fn let_through<T: PartialOrd>(t: T, t_min: T, t_max: T) -> bool {
    says_lt(t, t_min, false) && says_lt(t_max, t, false)
}

/// Whether the comparisons turned `t` down for the range from `t_min` to
/// `t_max`: they found it below the lower end, or else above the upper end.
pub open spec fn turned_down<T: PartialOrd>(t: T, t_min: T, t_max: T) -> bool {
    says_lt(t, t_min, true) || (says_lt(t, t_min, false) && says_lt(t_max, t, true))
}

/// Whether `t` is acceptable for the range from `t_min` to `t_max`: it is
/// neither below the lower end nor above the upper end.
pub open spec fn in_range<T: PartialOrd>(t: T, t_min: T, t_max: T) -> bool {
    !lt(t, t_min) && !lt(t_max, t)
}

/// Whether the order of `T` ranks its values: of two values at most one is
/// below the other, and a value below another is below everything that the
/// other is not above. This holds of every total order.
pub open spec fn ranked<T: PartialOrd>() -> bool {
    &&& forall|a: T, b: T| #[trigger] lt(a, b) ==> !lt(b, a)
    &&& forall|a: T, b: T, c: T| #[trigger] lt(a, b) && !#[trigger] lt(c, b) ==> lt(a, c)
}

/// Whether the order of `T` is total: it ranks the values, and the three
/// comparisons agree on it.
pub open spec fn total_order<T: PartialOrd>() -> bool {
    &&& ranked::<T>()
    &&& forall|a: T, b: T| #[trigger] le(a, b) <==> !lt(b, a)
    &&& forall|a: T, b: T| #[trigger] gt(a, b) <==> lt(b, a)
}

/// Where the comparison operators of `T` compute what its order says, they
/// come out as the order says.
pub proof fn lemma_says_what_the_order_says<T: PartialOrd>(a: T, b: T, answer: bool)
    requires
        obeys_order::<T>(),
    ensures
        says_lt(a, b, answer) ==> answer == lt(a, b),
        says_le(a, b, answer) ==> answer == le(a, b),
        says_gt(a, b, answer) ==> answer == gt(a, b),
{
}

/// Where the comparison operators of `T` compute what its order says, they
/// let through what is acceptable for a range, and turn down what is not.
pub proof fn lemma_let_through_in_range<T: PartialOrd>(t: T, t_min: T, t_max: T)
    requires
        obeys_order::<T>(),
    ensures
        let_through(t, t_min, t_max) ==> in_range(t, t_min, t_max),
        turned_down(t, t_min, t_max) ==> !in_range(t, t_min, t_max),
{
}

/// In a total order, what is at most a value is at most everything above it.
pub proof fn lemma_le_transitive<T: PartialOrd>(a: T, b: T, c: T)
    requires
        total_order::<T>(),
        le(a, b),
        le(b, c),
    ensures
        le(a, c),
{
}

/// The machine integers of 32 bits are totally ordered, and compared as
/// their order says.
pub proof fn lemma_i32_total_order()
    ensures
        obeys_order::<i32>(),
        total_order::<i32>(),
{
}

} // verus!
