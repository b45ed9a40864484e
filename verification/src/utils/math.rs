//! Mathematical utility functions: mapping a value from one range to another and keeping
//! a value within a range.

use core::ops::{Add, Div, Mul, RangeInclusive, Sub};
use vstd::prelude::*;
use vstd::std_specs::cmp::{PartialOrdIs, PartialOrdSpec};
use vstd::std_specs::ops::{AddSpec, DivSpec, MulSpec, SubSpec};

verus! {

/// `RangeInclusive::start`: the lower bound of the range.
pub assume_specification<Idx>[ RangeInclusive::<Idx>::start ](range: &RangeInclusive<Idx>) -> (start:
    &Idx)
    ensures
        *start == range@.start,
;

/// `RangeInclusive::end`: the upper bound of the range.
pub assume_specification<Idx>[ RangeInclusive::<Idx>::end ](range: &RangeInclusive<Idx>) -> (end:
    &Idx)
    ensures
        *end == range@.end,
;

/// The error of a value that lies outside the range it was meant for.
#[derive(Clone, Copy, PartialEq, Eq, Structural, Debug)]
pub struct ValueOutOfRange;

/// The operators of `T` do what their specifications say.
pub open spec fn spec_arithmetic_obeys<T>() -> bool where
    T: Sub<T, Output = T> + Mul<T, Output = T> + Add<T, Output = T> + Div<T, Output = T>,
 {
    &&& <T as SubSpec>::obeys_sub_spec()
    &&& <T as MulSpec>::obeys_mul_spec()
    &&& <T as DivSpec>::obeys_div_spec()
    &&& <T as AddSpec>::obeys_add_spec()
}

/// Each operation of the mapping of `value` from `from_start..=from_end` to
/// `to_start..=to_end` is one that `T` can carry out.
pub open spec fn spec_map_defined<T>(
    value: T,
    from_start: T,
    from_end: T,
    to_start: T,
    to_end: T,
) -> bool where
    T: Sub<T, Output = T> + Mul<T, Output = T> + Add<T, Output = T> + Div<T, Output = T>,
 {
    &&& value.sub_req(from_start)
    &&& to_end.sub_req(to_start)
    &&& value.sub_spec(from_start).mul_req(to_end.sub_spec(to_start))
    &&& from_end.sub_req(from_start)
    &&& value.sub_spec(from_start).mul_spec(to_end.sub_spec(to_start)).div_req(
        from_end.sub_spec(from_start),
    )
    &&& value.sub_spec(from_start).mul_spec(to_end.sub_spec(to_start)).div_spec(
        from_end.sub_spec(from_start),
    ).add_req(to_start)
}

/// The value that stands in `to_start..=to_end` where `value` stands in
/// `from_start..=from_end`, by linear interpolation:
/// `(value - from_start) * (to_end - to_start) / (from_end - from_start) + to_start`.
pub open spec fn spec_map<T>(value: T, from_start: T, from_end: T, to_start: T, to_end: T) -> T where
    T: Sub<T, Output = T> + Mul<T, Output = T> + Add<T, Output = T> + Div<T, Output = T>,
 {
    value.sub_spec(from_start).mul_spec(to_end.sub_spec(to_start)).div_spec(
        from_end.sub_spec(from_start),
    ).add_spec(to_start)
}

/// Maps a value from one range to another.
///
/// Given a value `value` within the range `from`, this function maps it to a corresponding
/// value within the range `to` using linear interpolation.
pub fn map<T>(value: T, from: RangeInclusive<T>, to: RangeInclusive<T>) -> (mapped: T) where
    T: Clone + Copy + Sub<T, Output = T> + Mul<T, Output = T> + Add<T, Output = T> + Div<
        T,
        Output = T,
    >,

    requires
        spec_arithmetic_obeys::<T>(),
        spec_map_defined(value, from@.start, from@.end, to@.start, to@.end),
    ensures
        mapped == spec_map(value, from@.start, from@.end, to@.start, to@.end),
{
    (value - *from.start()) * (*to.end() - *to.start()) / (*from.end() - *from.start())
        + *to.start()
}

/// `value` kept within `start..=end`: the bound that it is beyond, or itself.
pub open spec fn spec_constrain<T: PartialOrd>(value: T, start: T, end: T) -> T {
    if value.is_lt(&start) {
        start
    } else if value.is_gt(&end) {
        end
    } else {
        value
    }
}

/// Returns `value` if `value` is contained in the provided `range`, `range.start()` if
/// `value` is smaller than `range.start()` and `range.end()` if `value` is greater than
/// `range.end()`.
pub fn constrain<T>(value: T, range: RangeInclusive<T>) -> (constrained: T) where
    T: Copy + PartialOrd,

    ensures
        T::obeys_partial_cmp_spec() ==> constrained == spec_constrain(
            value,
            range@.start,
            range@.end,
        ),
{
    if value < *range.start() {
        *range.start()
    } else if value > *range.end() {
        *range.end()
    } else {
        value
    }
}

} // verus!
