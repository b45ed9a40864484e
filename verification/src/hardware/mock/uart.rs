//! A mock UART.

use vstd::prelude::*;

use crate::utils::physical_quantities::duration::SmallDuration;

verus! {

/// A UART that hands out the bytes it was given and keeps the bytes it is sent.
pub struct MockUart {
    read_buffer: Vec<u8>,
    write_buffer: Vec<u8>,
}

/// What a mock UART holds.
pub struct MockUartView {
    /// The bytes that are waiting to be read.
    pub waiting: Seq<u8>,
    /// The bytes that were written, in order.
    pub written: Seq<u8>,
}

impl View for MockUart {
    type V = MockUartView;

    closed spec fn view(&self) -> MockUartView {
        MockUartView { waiting: self.read_buffer@, written: self.write_buffer@ }
    }
}

/// The buffer after a read of the bytes `waiting`: the bytes the buffer has room for
/// replace its first bytes, the rest of the buffer stays.
pub open spec fn spec_read_into(buffer: Seq<u8>, waiting: Seq<u8>) -> Seq<u8> {
    Seq::new(
        buffer.len(),
        |i: int|
            if i < waiting.len() {
                waiting[i]
            } else {
                buffer[i]
            },
    )
}

impl MockUart {
    /// A UART with `read_buffer` waiting to be read and nothing written.
    pub fn new(read_buffer: Vec<u8>) -> (uart: Self)
        ensures
            uart@.waiting == read_buffer@,
            uart@.written == Seq::<u8>::empty(),
    {
        MockUart { read_buffer, write_buffer: Vec::new() }
    }

    /// The bytes that were written, in order.
    pub fn written(&self) -> (written: &Vec<u8>)
        ensures
            written@ == self@.written,
    {
        &self.write_buffer
    }

    /// Reads the bytes that are waiting into the start of `buf`, as far as `buf` has room,
    /// and returns how many were waiting. No byte is waiting afterwards, whether or not
    /// `buf` had room for it. The timeout plays no part.
    pub fn read(&mut self, buf: &mut [u8], timeout: SmallDuration) -> (count: Result<usize, ()>)
        ensures
            count == Ok::<usize, ()>(old(self)@.waiting.len() as usize),
            final(buf)@ == spec_read_into(old(buf)@, old(self)@.waiting),
            final(self)@.waiting == Seq::<u8>::empty(),
            final(self)@.written == old(self)@.written,
    {
        let read_bytes_count = self.read_buffer.len();
        let ghost before = buf@;
        let mut i: usize = 0;
        while i < buf.len() && i < read_bytes_count
            invariant
                read_bytes_count == self.read_buffer@.len(),
                i <= buf@.len(),
                i <= read_bytes_count,
                buf@.len() == before.len(),
                forall|k: int| 0 <= k < i ==> #[trigger] buf@[k] == self.read_buffer@[k],
                forall|k: int| i <= k < buf@.len() ==> #[trigger] buf@[k] == before[k],
            decreases buf@.len() - i,
        {
            buf[i] = self.read_buffer[i];
            i += 1;
        }
        assert(buf@ =~= spec_read_into(before, self.read_buffer@));
        self.read_buffer.clear();
        Ok(read_bytes_count)
    }

    /// Writes `buf`: the bytes are added to those that were written, and all of them
    /// count as sent.
    pub fn write(&mut self, buf: &[u8]) -> (count: Result<usize, ()>)
        ensures
            count == Ok::<usize, ()>(buf@.len() as usize),
            final(self)@.written == old(self)@.written + buf@,
            final(self)@.waiting == old(self)@.waiting,
    {
        let ghost before = self.write_buffer@;
        let mut i: usize = 0;
        while i < buf.len()
            invariant
                i <= buf@.len(),
                self.write_buffer@ == before + buf@.subrange(0, i as int),
                self.read_buffer@ == old(self).read_buffer@,
            decreases buf@.len() - i,
        {
            self.write_buffer.push(buf[i]);
            i += 1;
            assert(self.write_buffer@ =~= before + buf@.subrange(0, i as int));
        }
        assert(buf@.subrange(0, i as int) =~= buf@);
        Ok(buf.len())
    }

    /// Drops the bytes that are waiting to be read.
    pub fn flush_read(&mut self) -> (result: Result<(), ()>)
        ensures
            result is Ok,
            final(self)@.waiting == Seq::<u8>::empty(),
            final(self)@.written == old(self)@.written,
    {
        self.read_buffer.clear();
        Ok(())
    }
}

} // verus!
