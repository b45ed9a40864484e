//! A mock SPI device: it answers reads from what it was given and keeps what it is sent.

use vstd::prelude::*;

use super::error::MockSpiError;

verus! {

/// One operation of a transaction on an SPI device.
pub enum SpiOperation<Word> {
    /// Read words into the buffer.
    Read(Vec<Word>),
    /// Write the words, discarding what is read meanwhile.
    Write(Vec<Word>),
    /// Read words into the first buffer while writing the words of the second.
    Transfer(Vec<Word>, Vec<Word>),
    /// Write the words of the buffer while reading words into it.
    TransferInPlace(Vec<Word>),
    /// Wait for this many nanoseconds at least.
    DelayNs(u32),
}

/// [`SpiOperation`] with its words as sequences.
pub enum SpiOperationView<Word> {
    Read(Seq<Word>),
    Write(Seq<Word>),
    Transfer(Seq<Word>, Seq<Word>),
    TransferInPlace(Seq<Word>),
    DelayNs(u32),
}

impl<Word> View for SpiOperation<Word> {
    type V = SpiOperationView<Word>;

    open spec fn view(&self) -> SpiOperationView<Word> {
        match self {
            SpiOperation::Read(buffer) => SpiOperationView::Read(buffer@),
            SpiOperation::Write(words) => SpiOperationView::Write(words@),
            SpiOperation::Transfer(read, write) => SpiOperationView::Transfer(read@, write@),
            SpiOperation::TransferInPlace(buffer) => SpiOperationView::TransferInPlace(buffer@),
            SpiOperation::DelayNs(ns) => SpiOperationView::DelayNs(*ns),
        }
    }
}

/// The operations of a transaction with their words as sequences.
pub open spec fn spec_operations<Word>(operations: Seq<SpiOperation<Word>>) -> Seq<
    SpiOperationView<Word>,
> {
    Seq::new(operations.len(), |i: int| operations[i]@)
}

/// An SPI device that works, with what it has to answer and what it has seen, or that
/// fails with a given error.
pub enum MockSpi<Word: Copy + 'static = u8> {
    /// The device works.
    Working {
        /// The answers to the reads to come; the last is given first.
        read_operations: Vec<Vec<Word>>,
        /// The words of the writes that took place, in order.
        write_operations: Vec<Vec<Word>>,
        /// The delays that took place, in order.
        delays_operations: Vec<u32>,
    },
    /// The device fails with this error.
    Failing(MockSpiError),
}

/// What a working mock SPI device holds.
pub struct SpiLog<Word> {
    /// The answers to the reads to come; the last is given first.
    pub reads: Seq<Seq<Word>>,
    /// The words of the writes that took place, in order.
    pub writes: Seq<Seq<Word>>,
    /// The delays that took place, in order.
    pub delays: Seq<u32>,
}

/// The words of each of `buffers`.
pub open spec fn spec_words<Word>(buffers: Seq<Vec<Word>>) -> Seq<Seq<Word>> {
    Seq::new(buffers.len(), |i: int| buffers[i]@)
}

impl<Word> SpiLog<Word> {
    /// Whether the device can carry out `operation`: a read needs an answer that fills its
    /// buffer, and a transfer is beyond the device.
    pub open spec fn admits(self, operation: SpiOperationView<Word>) -> bool {
        match operation {
            SpiOperationView::Read(buffer) => self.reads.len() > 0 && self.reads.last().len()
                >= buffer.len(),
            SpiOperationView::Write(_) => true,
            SpiOperationView::Transfer(_, _) => false,
            SpiOperationView::TransferInPlace(_) => false,
            SpiOperationView::DelayNs(_) => true,
        }
    }

    /// What the device holds once it has carried out `operation`: a read takes the last
    /// answer, a write and a delay are added to what the device has seen.
    pub open spec fn after(self, operation: SpiOperationView<Word>) -> SpiLog<Word> {
        match operation {
            SpiOperationView::Read(_) => SpiLog { reads: self.reads.drop_last(), ..self },
            SpiOperationView::Write(words) => SpiLog { writes: self.writes.push(words), ..self },
            SpiOperationView::DelayNs(ns) => SpiLog { delays: self.delays.push(ns), ..self },
            _ => self,
        }
    }

    /// What `operation` looks like once the device has carried it out: the buffer of a read
    /// holds the start of the last answer.
    pub open spec fn answered(self, operation: SpiOperationView<Word>) -> SpiOperationView<Word> {
        match operation {
            SpiOperationView::Read(buffer) => SpiOperationView::Read(
                self.reads.last().subrange(0, buffer.len() as int),
            ),
            _ => operation,
        }
    }

    /// What the device holds once it has carried out the first `count` of `operations`.
    pub open spec fn after_first(
        self,
        operations: Seq<SpiOperationView<Word>>,
        count: nat,
    ) -> SpiLog<Word>
        decreases count,
    {
        if count == 0 {
            self
        } else {
            self.after_first(operations, (count - 1) as nat).after(operations[count - 1])
        }
    }

    /// Whether the device can carry out all of `operations`, one after the other.
    pub open spec fn admits_all(self, operations: Seq<SpiOperationView<Word>>) -> bool {
        forall|i: int|
            0 <= i < operations.len() ==> #[trigger] self.after_first(operations, i as nat).admits(
                operations[i],
            )
    }

    /// What `operations` look like once the device has carried them out.
    pub open spec fn all_answered(self, operations: Seq<SpiOperationView<Word>>) -> Seq<
        SpiOperationView<Word>,
    > {
        Seq::new(
            operations.len(),
            |i: int| self.after_first(operations, i as nat).answered(operations[i]),
        )
    }
}

/// A copy of the first `count` words of `source`.
fn copy_prefix<Word: Copy>(source: &Vec<Word>, count: usize) -> (copy: Vec<Word>)
    requires
        count <= source@.len(),
    ensures
        copy@ == source@.subrange(0, count as int),
{
    let mut copy: Vec<Word> = Vec::new();
    let mut i: usize = 0;
    while i < count
        invariant
            i <= count <= source@.len(),
            copy@ == source@.subrange(0, i as int),
        decreases count - i,
    {
        copy.push(source[i]);
        i += 1;
        assert(copy@ =~= source@.subrange(0, i as int));
    }
    copy
}

impl<Word: Copy + 'static> MockSpi<Word> {
    /// What a working device holds.
    pub open spec fn log(&self) -> SpiLog<Word> {
        match self {
            MockSpi::Working { read_operations, write_operations, delays_operations } => SpiLog {
                reads: spec_words(read_operations@),
                writes: spec_words(write_operations@),
                delays: delays_operations@,
            },
            MockSpi::Failing(_) => SpiLog {
                reads: Seq::empty(),
                writes: Seq::empty(),
                delays: Seq::empty(),
            },
        }
    }

    /// Carries out the operations of a transaction, one after the other. A working device
    /// answers each read with the start of its last answer, which it then drops, and keeps
    /// the words of each write and the length of each delay. A failing device gives its
    /// error and does nothing. A working device must have an answer that fills the buffer
    /// of each read, and can carry out no transfer.
    pub fn transaction(&mut self, new_operations: &mut Vec<SpiOperation<Word>>) -> (result: Result<
        (),
        MockSpiError,
    >)
        requires
            *old(self) is Working ==> old(self).log().admits_all(
                spec_operations(old(new_operations)@),
            ),
        ensures
            *old(self) matches MockSpi::Failing(error) ==> result == Err::<(), MockSpiError>(error)
                && *final(self) == *old(self) && *final(new_operations) == *old(new_operations),
            *old(self) is Working ==> {
                &&& result is Ok
                &&& *final(self) is Working
                &&& final(self).log() == old(self).log().after_first(
                    spec_operations(old(new_operations)@),
                    old(new_operations)@.len(),
                )
                &&& spec_operations(final(new_operations)@) == old(self).log().all_answered(
                    spec_operations(old(new_operations)@),
                )
            },
    {
        let ghost start = self.log();
        let ghost asked = spec_operations(new_operations@);
        match self {
            MockSpi::Working { read_operations, write_operations, delays_operations } => {
                let mut done: Vec<SpiOperation<Word>> = Vec::new();
                let mut i: usize = 0;
                while i < new_operations.len()
                    invariant
                        i <= new_operations@.len(),
                        asked == spec_operations(new_operations@),
                        start.admits_all(asked),
                        done@.len() == i,
                        spec_words(read_operations@) == start.after_first(asked, i as nat).reads,
                        spec_words(write_operations@) == start.after_first(asked, i as nat).writes,
                        delays_operations@ == start.after_first(asked, i as nat).delays,
                        forall|k: int|
                            0 <= k < i ==> (#[trigger] done@[k])@ == start.after_first(
                                asked,
                                k as nat,
                            ).answered(asked[k]),
                    decreases new_operations@.len() - i,
                {
                    let ghost now = start.after_first(asked, i as nat);
                    let ghost index: int = i as int;
                    assert(start.after_first(asked, index as nat).admits(asked[index]));
                    assert(asked[i as int] == new_operations@[i as int]@);
                    let ghost reads_before = read_operations@;
                    let ghost writes_before = write_operations@;
                    match &new_operations[i] {
                        SpiOperation::Read(buffer) => {
                            assert(spec_words(reads_before).last() == reads_before.last()@);
                            let answer = read_operations.pop().unwrap();
                            let filled = copy_prefix(&answer, buffer.len());
                            done.push(SpiOperation::Read(filled));
                            assert(spec_words(read_operations@) =~= now.reads.drop_last());
                        },
                        SpiOperation::Write(words) => {
                            let copy = copy_prefix(words, words.len());
                            assert(copy@ =~= words@);
                            write_operations.push(copy);
                            let kept = copy_prefix(words, words.len());
                            assert(kept@ =~= words@);
                            done.push(SpiOperation::Write(kept));
                            assert(spec_words(write_operations@) =~= now.writes.push(words@));
                        },
                        SpiOperation::Transfer(_, _) => {
                            assert(false);
                        },
                        SpiOperation::TransferInPlace(_) => {
                            assert(false);
                        },
                        SpiOperation::DelayNs(ns) => {
                            delays_operations.push(*ns);
                            done.push(SpiOperation::DelayNs(*ns));
                        },
                    }
                    i += 1;
                }
                *new_operations = done;
                proof {
                    assert(spec_operations(new_operations@) =~= start.all_answered(asked));
                }
                Ok(())
            },
            MockSpi::Failing(error) => Err(*error),
        }
    }
}

} // verus!
