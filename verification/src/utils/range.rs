//! Ranges: where two of them overlap, and a range moved by an offset.

use core::cmp::Ordering;
use core::ops::{Add, Range, RangeInclusive};
use vstd::prelude::*;
use vstd::std_specs::cmp::OrdSpec;
use vstd::std_specs::ops::AddSpec;

verus! {

/// The greater of two values; the second where they are equal.
pub open spec fn spec_max<T: Ord>(first: T, second: T) -> T {
    match second.cmp_spec(&first) {
        Ordering::Less => first,
        _ => second,
    }
}

/// The lesser of two values; the first where they are equal.
pub open spec fn spec_min<T: Ord>(first: T, second: T) -> T {
    match second.cmp_spec(&first) {
        Ordering::Less => second,
        _ => first,
    }
}

/// What ranges of `T` can be asked beyond what a range says of its bounds.
pub trait RangeExt<T>: Sized {
    /// The range of the values that are in both ranges. It is empty where they do not
    /// overlap.
    fn intersection(&self, other: &Self) -> Self;

    /// Whether both bounds of the range can take the offset `by`.
    spec fn shifts(&self, by: T) -> bool;

    /// The range with both bounds moved by `by`.
    fn shift(&self, by: T) -> Self
        requires
            self.shifts(by),
    ;
}

impl<T: Ord + Clone + Copy + Add<T, Output = T>> RangeExt<T> for Range<T> {
    fn intersection(&self, other: &Self) -> (overlap: Self)
        ensures
            T::obeys_cmp_spec() ==> overlap.start == spec_max(self.start, other.start)
                && overlap.end == spec_min(self.end, other.end),
    {
        self.start.max(other.start)..self.end.min(other.end)
    }

    open spec fn shifts(&self, by: T) -> bool {
        self.start.add_req(by) && self.end.add_req(by)
    }

    fn shift(&self, by: T) -> (shifted: Self)
        ensures
            <T as AddSpec>::obeys_add_spec() ==> shifted.start == self.start.add_spec(by)
                && shifted.end == self.end.add_spec(by),
    {
        (self.start + by)..(self.end + by)
    }
}

impl<T: Ord + Clone + Copy + Add<T, Output = T>> RangeExt<T> for RangeInclusive<T> {
    fn intersection(&self, other: &Self) -> (overlap: Self)
        ensures
            T::obeys_cmp_spec() ==> overlap@.start == spec_max(self@.start, other@.start)
                && overlap@.end == spec_min(self@.end, other@.end),
            !overlap@.exhausted,
    {
        RangeInclusive::new((*self.start()).max(*other.start()), (*self.end()).min(*other.end()))
    }

    open spec fn shifts(&self, by: T) -> bool {
        self@.start.add_req(by) && self@.end.add_req(by)
    }

    fn shift(&self, by: T) -> (shifted: Self)
        ensures
            <T as AddSpec>::obeys_add_spec() ==> shifted@.start == self@.start.add_spec(by)
                && shifted@.end == self@.end.add_spec(by),
            !shifted@.exhausted,
    {
        RangeInclusive::new(*self.start() + by, *self.end() + by)
    }
}

} // verus!
