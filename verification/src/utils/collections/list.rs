//! Lists: growable sequences of items behind one interface, with or without a heap.

use vstd::prelude::*;
use vstd::slice::slice_subrange;

verus! {

/// The error of an insertion that the list has no room for.
#[derive(Clone, Copy, PartialEq, Eq, Structural, PartialOrd, Ord, Debug, Default, Hash)]
pub struct WouldOverflow;

/// What is left of a sequence when the item at `index` is taken out and the last item is
/// put in its place.
pub open spec fn spec_swap_remove<T>(items: Seq<T>, index: int) -> Seq<T> {
    items.update(index, items.last()).drop_last()
}

/// A sequence of items that can grow and shrink at its end.
pub trait List<T>: Sized {
    /// The items of the list, in order.
    spec fn items(&self) -> Seq<T>;

    /// Whether the list has room for `count` more items.
    spec fn takes(&self, count: nat) -> bool;

    /// Whether the list may be asked to remove the item at `index`. A list that tells an
    /// index it does not have from one it has may be asked for any.
    spec fn admits_removal(&self, index: nat) -> bool;

    /// What holds of the list at all times.
    spec fn is_list(&self) -> bool;

    /// The number of items in the list.
    fn length(&self) -> (length: usize)
        requires
            self.is_list(),
        ensures
            length == self.items().len(),
    ;

    /// The space the list has for items, those it holds included.
    fn capacity(&self) -> usize
        requires
            self.is_list(),
    ;

    /// Adds `items` at the end, all of them or none.
    fn extend(&mut self, items: &[T]) -> (result: Result<(), WouldOverflow>)
        requires
            old(self).is_list(),
        ensures
            final(self).is_list(),
            result is Ok <==> old(self).takes(items@.len()),
            result is Ok ==> final(self).items() == old(self).items() + items@,
            result is Err ==> final(self).items() == old(self).items(),
    ;

    /// Adds `item` at the end.
    fn push(&mut self, item: T) -> (result: Result<(), WouldOverflow>)
        requires
            old(self).is_list(),
        ensures
            final(self).is_list(),
            result is Ok <==> old(self).takes(1),
            result is Ok ==> final(self).items() == old(self).items().push(item),
            result is Err ==> final(self).items() == old(self).items(),
    ;

    /// Takes the item at `index` out and puts the last item in its place. `None`, and no
    /// change, where the list has no item at `index`.
    fn swap_remove(&mut self, index: usize) -> (removed: Option<T>)
        requires
            old(self).is_list(),
            old(self).admits_removal(index as nat),
        ensures
            final(self).is_list(),
            removed is Some <==> index < old(self).items().len(),
            removed matches Some(item) ==> item == old(self).items()[index as int]
                && final(self).items() == spec_swap_remove(old(self).items(), index as int),
            removed is None ==> final(self).items() == old(self).items(),
    ;

    /// Removes every item.
    fn clear(&mut self)
        requires
            old(self).is_list(),
        ensures
            final(self).is_list(),
            final(self).items() == Seq::<T>::empty(),
    ;

    /// The item at `index`, or `None` where the list has none.
    fn get(&self, index: usize) -> (item: Option<&T>)
        requires
            self.is_list(),
        ensures
            item is Some <==> index < self.items().len(),
            item matches Some(found) ==> *found == self.items()[index as int],
    ;

    /// The item at `index` for changing it, or `None` where the list has none.
    fn get_mut(&mut self, index: usize) -> (item: Option<&mut T>)
        requires
            old(self).is_list(),
        ensures
            item is Some <==> index < old(self).items().len(),
            item matches Some(found) ==> *found == old(self).items()[index as int]
                && final(self).items() == old(self).items().update(index as int, *final(found))
                && final(self).is_list(),
            item is None ==> *final(self) == *old(self),
    ;

    /// The places that the list keeps items in, those beyond its items included.
    spec fn places(&self) -> Seq<T>;

    /// The places of the list from `start` up to `end`, whether or not they hold items of
    /// the list.
    fn get_slice(&self, start: usize, end: usize) -> (slice: &[T])
        requires
            self.is_list(),
            start <= end <= self.places().len(),
        ensures
            slice@ == self.places().subrange(start as int, end as int),
    ;
}

/// A list in an array of `N` places, one of which always stays free.
pub struct ArrayList<const N: usize, T> {
    array: [T; N],
    length: usize,
}

impl<const N: usize, T> View for ArrayList<N, T> {
    type V = Seq<T>;

    /// The items of the list, in order.
    closed spec fn view(&self) -> Seq<T> {
        self.array@.subrange(0, self.length as int)
    }
}

impl<const N: usize, T> ArrayList<N, T> where T: Clone + Copy {
    /// The list keeps its length below the number of places.
    pub closed spec fn well_formed(&self) -> bool {
        self.length < N
    }

    /// A well-formed list holds fewer items than it has places, and its items are the
    /// first of its places.
    pub proof fn lemma_length_below_places(&self)
        requires
            self.well_formed(),
        ensures
            self@.len() < N,
            self.places().len() == N,
            self@ == self.places().subrange(0, self@.len() as int),
    {
    }

    /// An empty list whose places all hold `fill`. There must be one place at least.
    pub fn new(fill: T) -> (list: Self)
        requires
            N >= 1,
        ensures
            list.well_formed(),
            list@ == Seq::<T>::empty(),
    {
        ArrayList { array: [fill; N], length: 0 }
    }
}

impl<const N: usize, T> List<T> for ArrayList<N, T> where T: Clone + Copy {
    open spec fn items(&self) -> Seq<T> {
        self@
    }

    /// One place always stays free.
    open spec fn takes(&self, count: nat) -> bool {
        self@.len() + count < N
    }

    open spec fn admits_removal(&self, index: nat) -> bool {
        true
    }

    open spec fn is_list(&self) -> bool {
        self.well_formed()
    }

    fn capacity(&self) -> (capacity: usize)
        ensures
            capacity == N,
    {
        N
    }

    fn length(&self) -> (length: usize) {
        self.length
    }

    fn extend(&mut self, items: &[T]) -> (result: Result<(), WouldOverflow>) {
        if items.len() >= N - self.length {
            Err(WouldOverflow)
        } else {
            let ghost before = self@;
            let start = self.length;
            let mut i: usize = 0;
            while i < items.len()
                invariant
                    i <= items@.len(),
                    start + items@.len() < N,
                    self.length == start,
                    self.array@.subrange(0, start as int) == before,
                    self.array@.subrange(start as int, start + i) == items@.subrange(0, i as int),
                decreases items@.len() - i,
            {
                let ghost earlier = self.array@;
                self.array[start + i] = items[i];
                i += 1;
                proof {
                    assert(self.array@.subrange(0, start as int) =~= earlier.subrange(
                        0,
                        start as int,
                    ));
                    assert(self.array@.subrange(start as int, start + i) =~= earlier.subrange(
                        start as int,
                        start + i - 1,
                    ).push(items@[i - 1]));
                    assert(items@.subrange(0, i as int) =~= items@.subrange(0, i - 1).push(
                        items@[i - 1],
                    ));
                }
            }
            self.length = self.length + items.len();
            proof {
                assert(items@.subrange(0, i as int) =~= items@);
                assert(self@ =~= before + items@);
            }
            Ok(())
        }
    }

    fn push(&mut self, item: T) -> (result: Result<(), WouldOverflow>) {
        if self.length + 1 == N {
            Err(WouldOverflow)
        } else {
            let ghost before = self@;
            self.array[self.length] = item;
            self.length = self.length + 1;
            assert(self@ =~= before.push(item));
            Ok(())
        }
    }

    fn swap_remove(&mut self, index: usize) -> (removed: Option<T>) {
        if index < self.length {
            let ghost before = self@;
            let removed_element = self.array[index];
            if index != self.length - 1 {
                self.array[index] = self.array[self.length - 1];
            }
            self.length = self.length - 1;
            assert(self@ =~= spec_swap_remove(before, index as int));
            Some(removed_element)
        } else {
            None
        }
    }

    fn clear(&mut self) {
        self.length = 0;
        assert(self@ =~= Seq::<T>::empty());
    }

    fn get(&self, index: usize) -> (item: Option<&T>) {
        if index < self.length {
            Some(&self.array[index])
        } else {
            None
        }
    }

    fn get_mut(&mut self, index: usize) -> (item: Option<&mut T>) {
        if index < self.length {
            Some(&mut self.array[index])
        } else {
            None
        }
    }

    closed spec fn places(&self) -> Seq<T> {
        self.array@
    }

    fn get_slice(&self, start: usize, end: usize) -> (slice: &[T]) {
        slice_subrange(self.array.as_slice(), start, end)
    }
}

/// `Vec::capacity`: the number of items the vector can hold without reallocating, which is
/// its length at least.
#[verifier::external_body]
fn vec_capacity<T>(vec: &Vec<T>) -> (capacity: usize)
    ensures
        capacity >= vec@.len(),
{
    vec.capacity()
}

impl<T> List<T> for Vec<T> where T: Clone + Copy {
    open spec fn items(&self) -> Seq<T> {
        self@
    }

    /// A vector grows as it needs to.
    open spec fn takes(&self, count: nat) -> bool {
        true
    }

    /// A vector is asked only for an item it has.
    open spec fn admits_removal(&self, index: nat) -> bool {
        index < self@.len()
    }

    open spec fn is_list(&self) -> bool {
        true
    }

    fn capacity(&self) -> (capacity: usize)
        ensures
            capacity >= self@.len(),
    {
        vec_capacity(self)
    }

    fn length(&self) -> (length: usize) {
        Vec::len(self)
    }

    fn extend(&mut self, items: &[T]) -> (result: Result<(), WouldOverflow>) {
        let ghost before = self@;
        let mut i: usize = 0;
        while i < items.len()
            invariant
                i <= items@.len(),
                self@ == before + items@.subrange(0, i as int),
            decreases items@.len() - i,
        {
            Vec::push(self, items[i]);
            i += 1;
            assert(self@ =~= before + items@.subrange(0, i as int));
        }
        assert(items@.subrange(0, i as int) =~= items@);
        Ok(())
    }

    fn push(&mut self, item: T) -> (result: Result<(), WouldOverflow>) {
        Vec::push(self, item);
        Ok(())
    }

    fn swap_remove(&mut self, index: usize) -> (removed: Option<T>) {
        Some(Vec::swap_remove(self, index))
    }

    fn clear(&mut self) {
        Vec::clear(self)
    }

    fn get(&self, index: usize) -> (item: Option<&T>) {
        if index < self.len() {
            Some(&self[index])
        } else {
            None
        }
    }

    fn get_mut(&mut self, index: usize) -> (item: Option<&mut T>) {
        if index < self.len() {
            Some(&mut self[index])
        } else {
            None
        }
    }

    /// A vector keeps its items and nothing else.
    open spec fn places(&self) -> Seq<T> {
        self@
    }

    fn get_slice(&self, start: usize, end: usize) -> (slice: &[T]) {
        slice_subrange(self.as_slice(), start, end)
    }
}

} // verus!
