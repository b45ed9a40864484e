//! The bad block scanner: which block to check next, and what to report of it.
//!
//! The scanner keeps no table. It walks the blocks of the chip in order; for each, the host
//! runs [`SpiFlashMemory::contains_bad_block_mark`] and hands the answer to
//! [`BadBlockScanner::report`], which pairs it with the index of the block.
//!
//! [`SpiFlashMemory::contains_bad_block_mark`]: super::driver::SpiFlashMemory::contains_bad_block_mark

use vstd::prelude::*;

use super::chip::ChipGeometry;

verus! {

/// A walk through the blocks of a chip.
#[derive(Clone, Copy, Debug)]
pub struct BadBlockScanner {
    next: u32,
    count: u32,
}

/// Where a scan stands.
pub struct ScanView {
    /// The number of blocks that were reported on.
    pub reported: nat,
    /// The number of blocks of the chip.
    pub count: nat,
}

impl View for BadBlockScanner {
    type V = ScanView;

    closed spec fn view(&self) -> ScanView {
        ScanView { reported: self.next as nat, count: self.count as nat }
    }
}

impl BadBlockScanner {
    /// What holds of a scanner at all times.
    pub open spec fn well_formed(&self) -> bool {
        self@.reported <= self@.count <= 0x1_0000
    }

    /// A scan of the chip that has reported on no block yet.
    pub fn new(geometry: &ChipGeometry) -> (scanner: Self)
        requires
            geometry.well_formed(),
        ensures
            scanner.well_formed(),
            scanner@.reported == 0,
            scanner@.count == geometry.spec_block_count(),
    {
        BadBlockScanner { next: 0, count: geometry.block_count() }
    }

    /// The index of the block to check next, or `None` when every block was reported on.
    pub fn current(&self) -> (block_index: Option<u16>)
        requires
            self.well_formed(),
        ensures
            block_index is Some <==> self@.reported < self@.count,
            block_index matches Some(index) ==> index == self@.reported,
    {
        if self.next < self.count {
            Some(self.next as u16)
        } else {
            None
        }
    }

    /// Takes whether the block to check holds a bad block mark and hands it back with the
    /// index of the block; the scan moves on to the next block. `None`, and no move, when
    /// every block was reported on.
    pub fn report(&mut self, marked: bool) -> (entry: Option<(u16, bool)>)
        requires
            old(self).well_formed(),
        ensures
            final(self).well_formed(),
            final(self)@.count == old(self)@.count,
            entry is Some <==> old(self)@.reported < old(self)@.count,
            entry matches Some(pair) ==> pair.0 == old(self)@.reported && pair.1 == marked
                && final(self)@.reported == old(self)@.reported + 1,
            entry is None ==> final(self)@ == old(self)@,
    {
        if self.next < self.count {
            let index = self.next as u16;
            self.next = self.next + 1;
            Some((index, marked))
        } else {
            None
        }
    }

    /// Starts the scan over from the first block.
    pub fn restart(&mut self)
        ensures
            final(self)@.reported == 0,
            final(self)@.count == old(self)@.count,
    {
        self.next = 0;
    }

    /// The number of blocks that are left to report on.
    pub fn remaining(&self) -> (left: u32)
        requires
            self.well_formed(),
        ensures
            left == self@.count - self@.reported,
    {
        self.count - self.next
    }
}

} // verus!
