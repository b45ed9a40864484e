//! The command driver: the one component that decides what goes on the bus.
//!
//! The driver never touches the bus itself. Each operation answers with the first
//! [`Action`]; the host performs the exchange that the action asks for and hands the
//! [`Event`] to [`SpiFlashMemory::advance`], until an action says that the operation is
//! over.

use core::marker::PhantomData;
use vstd::prelude::*;

use super::address::RowAddress;
use super::chip::{geometry_of, ChipGeometry, DeviceIdentity, FlashMemoryChip, FlashMemoryChipExt};
use super::command::Command;
use super::error::FlashError;
use super::feature::{FeatureRegister, Status};
use super::protocol::{
    spec_is_bad_block_mark,
    Action,
    Check,
    Event,
    EventView,
    FlashModel,
    Output,
    PageReadResult,
    Step,
    Yield,
};

verus! {

/// Tells whether a byte of the spare area marks its block as bad.
pub fn is_bad_block_mark(byte: u8) -> (bad: bool)
    ensures
        bad == spec_is_bad_block_mark(byte),
{
    byte != 0
}

/// The driver of one flash memory chip of model `Chip`.
pub struct SpiFlashMemory<Chip: FlashMemoryChip> {
    chip: PhantomData<Chip>,
    geometry: ChipGeometry,
    poll_limit: u32,
    ready: bool,
    cache: Option<bool>,
    steps: Vec<Step>,
    cursor: usize,
    payload: Vec<u8>,
    polls_left: u32,
    produces: Yield,
    marks_ready: bool,
}

impl<Chip: FlashMemoryChip> View for SpiFlashMemory<Chip> {
    type V = FlashModel;

    closed spec fn view(&self) -> FlashModel {
        FlashModel {
            geometry: self.geometry,
            poll_limit: self.poll_limit as nat,
            ready: self.ready,
            cache: self.cache,
            pending: self.steps@.skip(self.cursor as int),
            payload: self.payload@,
            polls_left: self.polls_left as nat,
            produces: self.produces,
            marks_ready: self.marks_ready,
        }
    }
}

impl<Chip: FlashMemoryChip> SpiFlashMemory<Chip> {
    /// The driver keeps its place in the steps of the operation in flight.
    pub closed spec fn consistent(&self) -> bool {
        self.cursor <= self.steps.len()
    }

    /// What holds of the driver between calls.
    pub open spec fn well_formed(&self) -> bool {
        &&& self@.well_formed()
        &&& self@.geometry == geometry_of::<Chip>()
        &&& self.consistent()
    }

    /// A driver for a chip on which bring-up has not taken place, which gives every wait
    /// `poll_limit` status reads. `None` when the constants of the chip are not a
    /// well-formed geometry or `poll_limit` is zero.
    pub fn new(poll_limit: u32) -> (flash: Option<Self>)
        ensures
            flash is Some <==> geometry_of::<Chip>().well_formed() && poll_limit >= 1,
            flash matches Some(f) ==> f.well_formed() && f@ == FlashModel::fresh(
                geometry_of::<Chip>(),
                poll_limit as nat,
            ),
    {
        let geometry = Chip::geometry();
        if !geometry.is_well_formed() || poll_limit == 0 {
            return None;
        }
        let flash = SpiFlashMemory {
            chip: PhantomData,
            geometry,
            poll_limit,
            ready: false,
            cache: None,
            steps: Vec::new(),
            cursor: 0,
            payload: Vec::new(),
            polls_left: 0,
            produces: Yield::Nothing,
            marks_ready: false,
        };
        assert(flash@.pending =~= Seq::empty());
        assert(flash@.payload =~= Seq::empty());
        Some(flash)
    }

    /// The geometry of the chip.
    pub fn geometry(&self) -> (geometry: ChipGeometry)
        ensures
            geometry == self@.geometry,
    {
        self.geometry
    }

    /// Tells whether bring-up has taken place.
    pub fn is_ready(&self) -> (ready: bool)
        ensures
            ready == self@.ready,
    {
        self.ready
    }

    /// Tells whether no operation is in flight.
    pub fn is_idle(&self) -> (idle: bool)
        requires
            self.well_formed(),
        ensures
            idle == self@.idle(),
    {
        self.cursor >= self.steps.len()
    }

    /// Tells whether the cache holds a page that was loaded.
    pub fn is_cache_loaded(&self) -> (loaded: bool)
        ensures
            loaded == (self@.cache is Some),
    {
        self.cache.is_some()
    }

    /// The number of bytes that the exchange in flight is to read, or `None` when no
    /// operation is in flight.
    pub fn awaited_length(&self) -> (length: Option<usize>)
        requires
            self.well_formed(),
        ensures
            length is Some <==> !self@.idle(),
            length matches Some(n) ==> n == self@.awaited_length(),
    {
        if self.cursor >= self.steps.len() {
            None
        } else {
            match self.steps[self.cursor] {
                Step::Issue(command) => Some(command.response_length()),
                Step::AwaitReady(_) => Some(1),
            }
        }
    }

    /// The exchange that the current step asks for.
    fn arm<E>(&self) -> (action: Action<E>)
        requires
            self.well_formed(),
            !self@.idle(),
        ensures
            action@ == self@.exchange::<E>(),
    {
        let command = match self.steps[self.cursor] {
            Step::Issue(command) => command,
            Step::AwaitReady(_) => Command::GetFeatures(FeatureRegister::Status),
        };
        assert(self@.pending[0] == self.steps@[self.cursor as int]);
        let write = command.encode(&self.geometry, &self.payload);
        Action::Exchange { write, read_length: command.response_length() }
    }

    /// Forgets the operation in flight after it failed.
    fn abandon(&mut self)
        requires
            old(self).well_formed(),
        ensures
            final(self).well_formed(),
            final(self)@ == old(self)@.abandoned(),
    {
        self.ready = self.ready && !self.marks_ready;
        self.cache = None;
        self.steps = Vec::new();
        self.cursor = 0;
        self.payload = Vec::new();
        self.polls_left = 0;
        self.produces = Yield::Nothing;
        self.marks_ready = false;
        assert(self@.pending =~= Seq::empty());
        assert(self@.payload =~= Seq::empty());
    }

    /// What the operation hands back, made from the answer to its last command.
    fn make_output(&self, answer: Vec<u8>) -> (output: Output)
        requires
            answer.len() >= self@.produces.spec_needs(),
        ensures
            output@ == self@.output(answer@),
    {
        match self.produces {
            Yield::Nothing => Output::Done,
            Yield::Byte => Output::Byte(answer[0]),
            Yield::Status => Output::Status(Status::from_bits(answer[0])),
            Yield::Identity => Output::Identity(
                DeviceIdentity { manufacturer_id: answer[0], device_id: answer[1] },
            ),
            Yield::Page => {
                let valid = match self.cache {
                    Some(valid) => valid,
                    None => false,
                };
                Output::Page(PageReadResult { data: answer, valid })
            },
            Yield::BadBlockMark => Output::BadBlock(is_bad_block_mark(answer[0])),
        }
    }

    /// Completes the current step and says what follows.
    fn move_on<E>(&mut self, answer: Vec<u8>) -> (action: Action<E>)
        requires
            old(self).well_formed(),
            !old(self)@.idle(),
            answer.len() == old(self)@.awaited_length(),
        ensures
            final(self).well_formed(),
            (final(self)@, action@) == old(self)@.moved_on::<E>(answer@),
    {
        proof {
            let pending = self@.pending;
            assert(pending.skip(1) =~= self.steps@.skip(self.cursor as int + 1));
            assert(pending[0] == self.steps@[self.cursor as int]);
            assert forall|i: int| 0 <= i < pending.skip(1).len() implies (
            #[trigger] pending.skip(1)[i] matches Step::Issue(command) ==> command.spec_fits(
                self@.geometry,
            )) by {
                assert(pending.skip(1)[i] == pending[i + 1]);
            }
            if pending.len() > 1 {
                assert(pending.skip(1).last() == pending.last());
            }
        }
        if self.cursor + 1 >= self.steps.len() {
            let output = self.make_output(answer);
            self.ready = self.ready || self.marks_ready;
            self.steps = Vec::new();
            self.cursor = 0;
            self.payload = Vec::new();
            self.polls_left = 0;
            self.produces = Yield::Nothing;
            self.marks_ready = false;
            assert(self@.pending =~= Seq::empty());
            assert(self@.payload =~= Seq::empty());
            Action::Finish(Ok(output))
        } else {
            self.cursor = self.cursor + 1;
            self.polls_left = match self.steps[self.cursor] {
                Step::AwaitReady(_) => self.poll_limit,
                Step::Issue(_) => 0,
            };
            assert(self@.pending[0] == self.steps@[self.cursor as int]);
            self.arm()
        }
    }

    /// Starts an operation on an idle driver.
    fn launch<E>(
        &mut self,
        steps: Vec<Step>,
        payload: Vec<u8>,
        produces: Yield,
        marks_ready: bool,
    ) -> (action: Action<E>)
        requires
            old(self).well_formed(),
            old(self)@.idle(),
            steps.len() > 0,
            FlashModel::steps_fit(old(self)@.geometry, steps@),
            FlashModel::steps_answer(steps@, produces),
        ensures
            final(self).well_formed(),
            (final(self)@, action@) == old(self)@.launched::<E>(
                steps@,
                payload@,
                produces,
                marks_ready,
            ),
    {
        self.polls_left = match steps[0] {
            Step::AwaitReady(_) => self.poll_limit,
            Step::Issue(_) => 0,
        };
        self.steps = steps;
        self.cursor = 0;
        self.payload = payload;
        self.produces = produces;
        self.marks_ready = marks_ready;
        assert(self@.pending =~= self.steps@);
        self.arm()
    }

    /// Refuses an operation: nothing changes and nothing is sent.
    fn refuse<E>(&self, error: FlashError<E>) -> (action: Action<E>)
        ensures
            (self@, action@) == self@.refused(error),
    {
        Action::Finish(Err(error))
    }

    /// The steps that load the page at `row` into the cache.
    fn load_steps(row: RowAddress) -> (steps: Vec<Step>)
        ensures
            steps@ == FlashModel::load_script(row),
    {
        let mut steps: Vec<Step> = Vec::new();
        steps.push(Step::Issue(Command::PageRead(row)));
        steps.push(Step::AwaitReady(Check::Read));
        assert(steps@ =~= FlashModel::load_script(row));
        steps
    }

    /// The steps that read `length` bytes from the start of the spare area of the page at
    /// `row`.
    fn spare_steps(&self, row: RowAddress, length: u16) -> (steps: Vec<Step>)
        requires
            self.well_formed(),
        ensures
            steps@ == FlashModel::spare_script(self@.geometry, row, length),
    {
        let mut steps = Self::load_steps(row);
        steps.push(
            Step::Issue(Command::ReadFromCache { column: self.geometry.page_size as u16, length }),
        );
        assert(steps@ =~= FlashModel::spare_script(self@.geometry, row, length));
        steps
    }

    /// Issues the reset command and waits until the chip reports that it is ready.
    pub fn reset<E>(&mut self) -> (action: Action<E>)
        requires
            old(self).well_formed(),
        ensures
            final(self).well_formed(),
            (final(self)@, action@) == old(self)@.reset_started::<E>(),
    {
        if !self.is_idle() {
            return self.refuse(FlashError::Usage);
        }
        let mut steps: Vec<Step> = Vec::new();
        steps.push(Step::Issue(Command::Reset));
        steps.push(Step::AwaitReady(Check::Nothing));
        assert(steps@ =~= FlashModel::reset_script());
        self.launch(steps, Vec::new(), Yield::Nothing, false)
    }

    /// Brings the chip up: a reset, then the block lock register is set to the value that
    /// the chip model names. The chip is ready for data operations once this has succeeded,
    /// and not before.
    pub fn initialize<E>(&mut self) -> (action: Action<E>)
        requires
            old(self).well_formed(),
        ensures
            final(self).well_formed(),
            (final(self)@, action@) == old(self)@.initialize_started::<E>(
                Chip::BLOCK_LOCK_AT_BRING_UP,
            ),
    {
        if !self.is_idle() {
            return self.refuse(FlashError::Usage);
        }
        let mut steps: Vec<Step> = Vec::new();
        steps.push(Step::Issue(Command::Reset));
        steps.push(Step::AwaitReady(Check::Nothing));
        steps.push(
            Step::Issue(Command::SetFeatures(FeatureRegister::BlockLock, Chip::BLOCK_LOCK_AT_BRING_UP)),
        );
        assert(steps@ =~= FlashModel::bring_up_script(Chip::BLOCK_LOCK_AT_BRING_UP));
        self.launch(steps, Vec::new(), Yield::Nothing, true)
    }

    /// Asks the chip for the value of a feature register.
    pub fn get_features<E>(&mut self, register: FeatureRegister) -> (action: Action<E>)
        requires
            old(self).well_formed(),
        ensures
            final(self).well_formed(),
            (final(self)@, action@) == old(self)@.get_features_started::<E>(register),
    {
        if !self.is_idle() {
            return self.refuse(FlashError::Usage);
        }
        let mut steps: Vec<Step> = Vec::new();
        steps.push(Step::Issue(Command::GetFeatures(register)));
        assert(steps@ =~= seq![Step::Issue(Command::GetFeatures(register))]);
        self.launch(steps, Vec::new(), Yield::Byte, false)
    }

    /// Sets a feature register of the chip to `value`.
    pub fn set_features<E>(&mut self, register: FeatureRegister, value: u8) -> (action: Action<E>)
        requires
            old(self).well_formed(),
        ensures
            final(self).well_formed(),
            (final(self)@, action@) == old(self)@.set_features_started::<E>(register, value),
    {
        if !self.is_idle() {
            return self.refuse(FlashError::Usage);
        }
        let mut steps: Vec<Step> = Vec::new();
        steps.push(Step::Issue(Command::SetFeatures(register, value)));
        assert(steps@ =~= seq![Step::Issue(Command::SetFeatures(register, value))]);
        self.launch(steps, Vec::new(), Yield::Nothing, false)
    }

    /// Asks the chip for the bits of its status register.
    pub fn read_status<E>(&mut self) -> (action: Action<E>)
        requires
            old(self).well_formed(),
        ensures
            final(self).well_formed(),
            (final(self)@, action@) == old(self)@.read_status_started::<E>(),
    {
        if !self.is_idle() {
            return self.refuse(FlashError::Usage);
        }
        let mut steps: Vec<Step> = Vec::new();
        steps.push(Step::Issue(Command::GetFeatures(FeatureRegister::Status)));
        assert(steps@ =~= seq![Step::Issue(FlashModel::status_read())]);
        self.launch(steps, Vec::new(), Yield::Status, false)
    }

    /// Asks the chip for its identity.
    pub fn read_id<E>(&mut self) -> (action: Action<E>)
        requires
            old(self).well_formed(),
        ensures
            final(self).well_formed(),
            (final(self)@, action@) == old(self)@.read_id_started::<E>(),
    {
        if !self.is_idle() {
            return self.refuse(FlashError::Usage);
        }
        let mut steps: Vec<Step> = Vec::new();
        steps.push(Step::Issue(Command::ReadId));
        assert(steps@ =~= seq![Step::Issue(Command::ReadId)]);
        self.launch(steps, Vec::new(), Yield::Identity, false)
    }

    /// Loads the page at `row`, data and spare area, from the array into the cache of the
    /// chip, and waits for the chip.
    pub fn read_page_to_cache<E>(&mut self, row: RowAddress) -> (action: Action<E>)
        requires
            old(self).well_formed(),
        ensures
            final(self).well_formed(),
            (final(self)@, action@) == old(self)@.read_page_to_cache_started::<E>(row),
    {
        if !self.is_idle() || !self.ready {
            return self.refuse(FlashError::Usage);
        }
        if !row.is_valid(&self.geometry) {
            return self.refuse(FlashError::Addressing);
        }
        let steps = Self::load_steps(row);
        self.launch(steps, Vec::new(), Yield::Nothing, false)
    }

    /// Reads `length` bytes of the cache of the chip, starting at `column`.
    pub fn read_from_cache<E>(&mut self, column: u16, length: u16) -> (action: Action<E>)
        requires
            old(self).well_formed(),
        ensures
            final(self).well_formed(),
            (final(self)@, action@) == old(self)@.read_from_cache_started::<E>(column, length),
    {
        if !self.is_idle() || !self.ready || self.cache.is_none() {
            return self.refuse(FlashError::Usage);
        }
        if column as u32 + length as u32 > self.geometry.page_span() {
            return self.refuse(FlashError::Addressing);
        }
        let mut steps: Vec<Step> = Vec::new();
        steps.push(Step::Issue(Command::ReadFromCache { column, length }));
        assert(steps@ =~= FlashModel::fetch_script(column, length));
        self.launch(steps, Vec::new(), Yield::Page, false)
    }

    /// Loads the page at `row` into the cache and reads the first `length` bytes of its
    /// spare area, where the bad block mark is.
    pub fn read_ecc<E>(&mut self, row: RowAddress, length: u16) -> (action: Action<E>)
        requires
            old(self).well_formed(),
        ensures
            final(self).well_formed(),
            (final(self)@, action@) == old(self)@.read_ecc_started::<E>(row, length),
    {
        if !self.is_idle() || !self.ready {
            return self.refuse(FlashError::Usage);
        }
        if !row.is_valid(&self.geometry) || length as u32 > self.geometry.page_ecc_size {
            return self.refuse(FlashError::Addressing);
        }
        let steps = self.spare_steps(row, length);
        self.launch(steps, Vec::new(), Yield::Page, false)
    }

    /// Fills the cache of the chip with `data`, writes the cache to the page at `row` and
    /// waits for the chip. The chip wants the pages of a block programmed in order, once per
    /// erase: that is left to the caller.
    pub fn program_page<E>(&mut self, row: RowAddress, data: Vec<u8>) -> (action: Action<E>)
        requires
            old(self).well_formed(),
        ensures
            final(self).well_formed(),
            (final(self)@, action@) == old(self)@.program_page_started::<E>(row, data@),
    {
        if !self.is_idle() || !self.ready {
            return self.refuse(FlashError::Usage);
        }
        if !row.is_valid(&self.geometry) || data.len() > self.geometry.page_span() as usize {
            return self.refuse(FlashError::Addressing);
        }
        let mut steps: Vec<Step> = Vec::new();
        steps.push(Step::Issue(Command::WriteEnable));
        steps.push(Step::Issue(Command::ProgramLoad { column: 0 }));
        steps.push(Step::Issue(Command::ProgramExecute(row)));
        steps.push(Step::AwaitReady(Check::Program));
        assert(steps@ =~= FlashModel::program_script(row));
        self.launch(steps, data, Yield::Nothing, false)
    }

    /// Erases the block that holds the page at `row` and waits for the chip.
    pub fn erase_block<E>(&mut self, row: RowAddress) -> (action: Action<E>)
        requires
            old(self).well_formed(),
        ensures
            final(self).well_formed(),
            (final(self)@, action@) == old(self)@.erase_block_started::<E>(row),
    {
        if !self.is_idle() || !self.ready {
            return self.refuse(FlashError::Usage);
        }
        if !row.is_valid(&self.geometry) {
            return self.refuse(FlashError::Addressing);
        }
        let mut steps: Vec<Step> = Vec::new();
        steps.push(Step::Issue(Command::WriteEnable));
        steps.push(Step::Issue(Command::BlockErase(row)));
        steps.push(Step::AwaitReady(Check::Erase));
        assert(steps@ =~= FlashModel::erase_script(row));
        self.launch(steps, Vec::new(), Yield::Nothing, false)
    }

    /// Checks whether the block at `block_index` holds a bad block mark: the first byte of
    /// the spare area of its first page is read, and any value but zero is a mark.
    pub fn contains_bad_block_mark<E>(&mut self, block_index: u16) -> (action: Action<E>)
        requires
            old(self).well_formed(),
        ensures
            final(self).well_formed(),
            (final(self)@, action@) == old(self)@.contains_bad_block_mark_started::<E>(
                block_index,
            ),
    {
        if !self.is_idle() || !self.ready {
            return self.refuse(FlashError::Usage);
        }
        if self.geometry.page_ecc_size == 0 {
            return self.refuse(FlashError::Addressing);
        }
        match RowAddress::of_block(&self.geometry, block_index) {
            None => self.refuse(FlashError::Addressing),
            Some(row) => {
                let steps = self.spare_steps(row, 1);
                self.launch(steps, Vec::new(), Yield::BadBlockMark, false)
            },
        }
    }

    /// Takes the event of the exchange that the last action asked for, and says what the
    /// host does next. A transport failure ends the operation with that failure. A wait
    /// ends the operation with [`FlashError::DeviceNotReady`] once the chip has said that it
    /// is busy as many times as the driver allows. With no operation in flight the answer
    /// is [`FlashError::Usage`].
    pub fn advance<E>(&mut self, event: Event<E>) -> (action: Action<E>)
        requires
            old(self).well_formed(),
            event@ matches EventView::Completed(answer) ==> old(self)@.idle() || answer.len()
                == old(self)@.awaited_length(),
        ensures
            final(self).well_formed(),
            (final(self)@, action@) == old(self)@.advanced(event@),
    {
        if self.cursor >= self.steps.len() {
            return Action::Finish(Err(FlashError::Usage));
        }
        assert(self@.pending[0] == self.steps@[self.cursor as int]);
        match event {
            Event::Failed(error) => {
                self.abandon();
                Action::Finish(Err(FlashError::Transport(error)))
            },
            Event::Completed(answer) => {
                match self.steps[self.cursor] {
                    Step::Issue(command) => {
                        match command {
                            Command::PageRead(_) | Command::ProgramLoad { .. } | Command::Reset => {
                                self.cache = None;
                            },
                            _ => {},
                        }
                        self.move_on(answer)
                    },
                    Step::AwaitReady(check) => {
                        let status = Status::from_bits(answer[0]);
                        if status.is_busy() {
                            if self.polls_left > 1 {
                                self.polls_left = self.polls_left - 1;
                                self.arm()
                            } else {
                                self.abandon();
                                Action::Finish(Err(FlashError::DeviceNotReady))
                            }
                        } else if matches!(check, Check::Program) && status.has_program_failed() {
                            self.abandon();
                            Action::Finish(Err(FlashError::ProgramFailed))
                        } else if matches!(check, Check::Erase) && status.has_erase_failed() {
                            self.abandon();
                            Action::Finish(Err(FlashError::EraseFailed))
                        } else {
                            if matches!(check, Check::Read) {
                                self.cache = Some(!status.is_uncorrectable());
                            }
                            self.move_on(answer)
                        }
                    },
                }
            },
        }
    }
}

} // verus!
