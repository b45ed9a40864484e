//! The rules of the conversation between the driver and the chip, as a state machine.
//!
//! An operation is a script: a short sequence of steps, each of which sends one command or
//! waits for the chip to become ready. The host performs one bus exchange at a time and
//! reports how it went; the rules here say what follows. They are stated on a model of the
//! driver, [`FlashModel`], which the driver itself is held to.

use vstd::prelude::*;

use super::address::RowAddress;
use super::chip::{ChipGeometry, DeviceIdentity};
use super::command::Command;
use super::error::FlashError;
use super::feature::{FeatureRegister, Status};

verus! {

/// What a wait for the chip looks at once the chip is ready.
#[derive(Clone, Copy, Debug, PartialEq, Eq, Structural)]
pub enum Check {
    /// Nothing but readiness.
    Nothing,
    /// Whether the page that was loaded has errors beyond correction.
    Read,
    /// Whether the program failed.
    Program,
    /// Whether the erase failed.
    Erase,
}

/// One step of an operation.
#[derive(Clone, Copy, Debug, PartialEq, Eq, Structural)]
pub enum Step {
    /// Send a command, and take its answer if it has one.
    Issue(Command),
    /// Read the status register until the chip is no longer busy.
    AwaitReady(Check),
}

/// What an operation hands back when it succeeds, made from the answer to its last command.
#[derive(Clone, Copy, Debug, PartialEq, Eq, Structural)]
pub enum Yield {
    /// Nothing.
    Nothing,
    /// The byte of the answer.
    Byte,
    /// The byte of the answer, as the bits of the status register.
    Status,
    /// The two bytes of the answer, as the identity of the chip.
    Identity,
    /// The bytes of the answer, with the validity of the page in the cache.
    Page,
    /// Whether the byte of the answer is a bad block mark.
    BadBlockMark,
}

/// Bytes read from a page, and whether the page they came from was read without errors
/// beyond correction.
#[derive(Debug)]
pub struct PageReadResult {
    pub data: Vec<u8>,
    pub valid: bool,
}

/// What an operation hands back when it succeeds.
#[derive(Debug)]
pub enum Output {
    /// The operation is done; there is nothing to hand back.
    Done,
    /// The value of a feature register.
    Byte(u8),
    /// The bits of the status register.
    Status(Status),
    /// The identity that the chip reports.
    Identity(DeviceIdentity),
    /// Bytes of the cache.
    Page(PageReadResult),
    /// Whether the block holds a bad block mark.
    BadBlock(bool),
}

/// [`Output`] with its bytes as a sequence.
pub enum OutputView {
    Done,
    Byte(u8),
    Status(Status),
    Identity(DeviceIdentity),
    Page { data: Seq<u8>, valid: bool },
    BadBlock(bool),
}

impl View for Output {
    type V = OutputView;

    open spec fn view(&self) -> OutputView {
        match self {
            Output::Done => OutputView::Done,
            Output::Byte(byte) => OutputView::Byte(*byte),
            Output::Status(status) => OutputView::Status(*status),
            Output::Identity(identity) => OutputView::Identity(*identity),
            Output::Page(page) => OutputView::Page { data: page.data@, valid: page.valid },
            Output::BadBlock(bad) => OutputView::BadBlock(*bad),
        }
    }
}

/// What the host does next.
#[derive(Debug)]
pub enum Action<E> {
    /// Write `write` to the chip, then read `read_length` bytes from it, in one exchange.
    Exchange { write: Vec<u8>, read_length: usize },
    /// The operation is over, and this is how it ended.
    Finish(Result<Output, FlashError<E>>),
}

/// [`Action`] with its bytes as a sequence.
pub enum ActionView<E> {
    Exchange { write: Seq<u8>, read_length: nat },
    Finish(Result<OutputView, FlashError<E>>),
}

impl<E> View for Action<E> {
    type V = ActionView<E>;

    open spec fn view(&self) -> ActionView<E> {
        match self {
            Action::Exchange { write, read_length } => ActionView::Exchange {
                write: write@,
                read_length: *read_length as nat,
            },
            Action::Finish(Ok(output)) => ActionView::Finish(Ok(output@)),
            Action::Finish(Err(error)) => ActionView::Finish(Err(*error)),
        }
    }
}

/// How the exchange that the host was asked for went.
#[derive(Debug)]
pub enum Event<E> {
    /// The exchange took place, and these are the bytes that were read.
    Completed(Vec<u8>),
    /// The transport failed.
    Failed(E),
}

/// [`Event`] with its bytes as a sequence.
pub enum EventView<E> {
    Completed(Seq<u8>),
    Failed(E),
}

impl<E> View for Event<E> {
    type V = EventView<E>;

    open spec fn view(&self) -> EventView<E> {
        match self {
            Event::Completed(bytes) => EventView::Completed(bytes@),
            Event::Failed(error) => EventView::Failed(*error),
        }
    }
}

impl Yield {
    /// The number of bytes of the answer that the output is made from.
    pub open spec fn spec_needs(&self) -> nat {
        match self {
            Yield::Nothing => 0,
            Yield::Byte => 1,
            Yield::Status => 1,
            Yield::Identity => 2,
            Yield::Page => 0,
            Yield::BadBlockMark => 1,
        }
    }
}

/// A byte of the spare area marks its block as bad when it is not zero.
pub open spec fn spec_is_bad_block_mark(byte: u8) -> bool {
    byte != 0
}

/// The model of the driver: what it knows of the chip and of the operation in flight.
pub struct FlashModel {
    /// The chip.
    pub geometry: ChipGeometry,
    /// The number of status reads a wait may take.
    pub poll_limit: nat,
    /// Bring-up has taken place.
    pub ready: bool,
    /// Whether the cache holds a page that was loaded, and if so whether it was read
    /// without errors beyond correction.
    pub cache: Option<bool>,
    /// The steps of the operation in flight that are not completed, the current one
    /// first. Empty when no operation is in flight.
    pub pending: Seq<Step>,
    /// The bytes to program.
    pub payload: Seq<u8>,
    /// The number of status reads the current wait may still take, the one in flight
    /// included.
    pub polls_left: nat,
    /// What the operation in flight hands back.
    pub produces: Yield,
    /// The operation in flight is the bring-up.
    pub marks_ready: bool,
}

impl FlashModel {
    /// Every command of `steps` fits the chip.
    pub open spec fn steps_fit(geometry: ChipGeometry, steps: Seq<Step>) -> bool {
        forall|i: int|
            0 <= i < steps.len() ==> (#[trigger] steps[i] matches Step::Issue(command)
                ==> command.spec_fits(geometry))
    }

    /// The last command of `steps` is answered with what `produces` is made from.
    pub open spec fn steps_answer(steps: Seq<Step>, produces: Yield) -> bool {
        produces != Yield::Nothing ==> steps.len() > 0 && (steps.last() matches Step::Issue(
            command,
        ) && command.spec_response_length() >= produces.spec_needs())
    }

    /// What holds of the model at all times.
    pub open spec fn well_formed(&self) -> bool {
        &&& self.geometry.well_formed()
        &&& 1 <= self.poll_limit <= u32::MAX
        &&& Self::steps_fit(self.geometry, self.pending)
        &&& Self::steps_answer(self.pending, self.produces)
        &&& (self.pending.len() > 0 && self.pending[0] is AwaitReady) ==> 1 <= self.polls_left
            <= self.poll_limit
    }

    /// The driver of a chip before bring-up, with no operation in flight.
    pub open spec fn fresh(geometry: ChipGeometry, poll_limit: nat) -> FlashModel {
        FlashModel {
            geometry,
            poll_limit,
            ready: false,
            cache: None,
            pending: Seq::empty(),
            payload: Seq::empty(),
            polls_left: 0,
            produces: Yield::Nothing,
            marks_ready: false,
        }
    }

    /// No operation is in flight.
    pub open spec fn idle(&self) -> bool {
        self.pending.len() == 0
    }

    /// The command that reads the status register.
    pub open spec fn status_read() -> Command {
        Command::GetFeatures(FeatureRegister::Status)
    }

    /// The command that the current step puts on the bus.
    pub open spec fn current_command(&self) -> Command {
        match self.pending[0] {
            Step::Issue(command) => command,
            Step::AwaitReady(_) => Self::status_read(),
        }
    }

    /// The number of bytes that the exchange in flight reads.
    pub open spec fn awaited_length(&self) -> nat {
        self.current_command().spec_response_length()
    }

    /// The exchange that the current step asks for.
    pub open spec fn exchange<E>(&self) -> ActionView<E> {
        ActionView::Exchange {
            write: self.current_command().spec_encode(self.geometry, self.payload),
            read_length: self.awaited_length(),
        }
    }

    /// What the operation hands back, made from the answer to its last command.
    pub open spec fn output(&self, answer: Seq<u8>) -> OutputView {
        match self.produces {
            Yield::Nothing => OutputView::Done,
            Yield::Byte => OutputView::Byte(answer[0]),
            Yield::Status => OutputView::Status(Status { bits: answer[0] }),
            Yield::Identity => OutputView::Identity(
                DeviceIdentity { manufacturer_id: answer[0], device_id: answer[1] },
            ),
            Yield::Page => OutputView::Page { data: answer, valid: self.cache == Some(true) },
            Yield::BadBlockMark => OutputView::BadBlock(spec_is_bad_block_mark(answer[0])),
        }
    }

    /// The model once the operation in flight has succeeded.
    pub open spec fn settled(self) -> FlashModel {
        FlashModel {
            ready: self.ready || self.marks_ready,
            pending: Seq::empty(),
            payload: Seq::empty(),
            polls_left: 0,
            produces: Yield::Nothing,
            marks_ready: false,
            ..self
        }
    }

    /// The model once the operation in flight has failed: nothing is known of the cache any
    /// more, and a bring-up that failed leaves the chip as it was before any bring-up.
    pub open spec fn abandoned(self) -> FlashModel {
        FlashModel {
            ready: self.ready && !self.marks_ready,
            cache: None,
            pending: Seq::empty(),
            payload: Seq::empty(),
            polls_left: 0,
            produces: Yield::Nothing,
            marks_ready: false,
            ..self
        }
    }

    /// What the completion of a command does to the cache: a page read, a program load and
    /// a reset leave it without a page that can be relied on.
    pub open spec fn cache_after(cache: Option<bool>, command: Command) -> Option<bool> {
        if command is PageRead || command is ProgramLoad || command is Reset {
            None
        } else {
            cache
        }
    }

    /// The model and the next action once the current step is completed, `answer` being the
    /// bytes that the last exchange read.
    pub open spec fn moved_on<E>(self, answer: Seq<u8>) -> (FlashModel, ActionView<E>) {
        let rest = self.pending.skip(1);
        if rest.len() == 0 {
            (self.settled(), ActionView::Finish(Ok(self.output(answer))))
        } else {
            let next = FlashModel {
                pending: rest,
                polls_left: if rest[0] is AwaitReady {
                    self.poll_limit
                } else {
                    0
                },
                ..self
            };
            (next, next.exchange())
        }
    }

    /// The model and the next action once the chip has answered a status read with
    /// `status` while the driver waits for it.
    pub open spec fn polled<E>(self, check: Check, status: Status, answer: Seq<u8>) -> (
        FlashModel,
        ActionView<E>,
    ) {
        if status.spec_is_busy() {
            if self.polls_left > 1 {
                let next = FlashModel { polls_left: (self.polls_left - 1) as nat, ..self };
                (next, next.exchange())
            } else {
                (self.abandoned(), ActionView::Finish(Err(FlashError::DeviceNotReady)))
            }
        } else if check == Check::Program && status.spec_has_program_failed() {
            (self.abandoned(), ActionView::Finish(Err(FlashError::ProgramFailed)))
        } else if check == Check::Erase && status.spec_has_erase_failed() {
            (self.abandoned(), ActionView::Finish(Err(FlashError::EraseFailed)))
        } else {
            let loaded = FlashModel {
                cache: if check == Check::Read {
                    Some(!status.spec_is_uncorrectable())
                } else {
                    self.cache
                },
                ..self
            };
            loaded.moved_on(answer)
        }
    }

    /// The model and the next action once the host has reported `event`.
    pub open spec fn advanced<E>(self, event: EventView<E>) -> (FlashModel, ActionView<E>) {
        if self.idle() {
            (self, ActionView::Finish(Err(FlashError::Usage)))
        } else {
            match event {
                EventView::Failed(error) => (
                    self.abandoned(),
                    ActionView::Finish(Err(FlashError::Transport(error))),
                ),
                EventView::Completed(answer) => match self.pending[0] {
                    Step::Issue(command) => FlashModel {
                        cache: Self::cache_after(self.cache, command),
                        ..self
                    }.moved_on(answer),
                    Step::AwaitReady(check) => self.polled(
                        check,
                        Status { bits: answer[0] },
                        answer,
                    ),
                },
            }
        }
    }

    /// The model and the first action once an operation is started on an idle driver.
    pub open spec fn launched<E>(
        self,
        steps: Seq<Step>,
        payload: Seq<u8>,
        produces: Yield,
        marks_ready: bool,
    ) -> (FlashModel, ActionView<E>) {
        let next = FlashModel {
            pending: steps,
            payload,
            polls_left: if steps[0] is AwaitReady {
                self.poll_limit
            } else {
                0
            },
            produces,
            marks_ready,
            ..self
        };
        (next, next.exchange())
    }

    /// The steps of a reset: the command, then a wait for the chip.
    pub open spec fn reset_script() -> Seq<Step> {
        seq![Step::Issue(Command::Reset), Step::AwaitReady(Check::Nothing)]
    }

    /// The steps that load a page into the cache: the command, then a wait that records
    /// whether the page was read without errors beyond correction.
    pub open spec fn load_script(row: RowAddress) -> Seq<Step> {
        seq![Step::Issue(Command::PageRead(row)), Step::AwaitReady(Check::Read)]
    }

    /// The step that reads bytes of the cache.
    pub open spec fn fetch_script(column: u16, length: u16) -> Seq<Step> {
        seq![Step::Issue(Command::ReadFromCache { column, length })]
    }

    /// The steps that read the start of the spare area of a page: the page is loaded, then
    /// the cache is read from the first column after the data area.
    pub open spec fn spare_script(geometry: ChipGeometry, row: RowAddress, length: u16) -> Seq<
        Step,
    > {
        Self::load_script(row) + Self::fetch_script(geometry.page_size as u16, length)
    }

    /// The steps that program a page: the write enable latch is set, the cache is filled
    /// from its first column, the cache is written to the page, and the chip is waited for.
    pub open spec fn program_script(row: RowAddress) -> Seq<Step> {
        seq![
            Step::Issue(Command::WriteEnable),
            Step::Issue(Command::ProgramLoad { column: 0 }),
            Step::Issue(Command::ProgramExecute(row)),
            Step::AwaitReady(Check::Program),
        ]
    }

    /// The steps that erase a block: the write enable latch is set, the block is erased,
    /// and the chip is waited for.
    pub open spec fn erase_script(row: RowAddress) -> Seq<Step> {
        seq![
            Step::Issue(Command::WriteEnable),
            Step::Issue(Command::BlockErase(row)),
            Step::AwaitReady(Check::Erase),
        ]
    }

    /// The steps of a bring-up: a reset, then the block lock register is set to
    /// `block_lock`.
    pub open spec fn bring_up_script(block_lock: u8) -> Seq<Step> {
        Self::reset_script().push(
            Step::Issue(Command::SetFeatures(FeatureRegister::BlockLock, block_lock)),
        )
    }

    /// A data operation is refused unless bring-up has taken place and no operation is in
    /// flight.
    pub open spec fn takes_data_operations(&self) -> bool {
        self.idle() && self.ready
    }

    /// `reset`: refused while an operation is in flight.
    pub open spec fn reset_started<E>(self) -> (FlashModel, ActionView<E>) {
        if !self.idle() {
            self.refused(FlashError::Usage)
        } else {
            self.launched(Self::reset_script(), Seq::empty(), Yield::Nothing, false)
        }
    }

    /// `initialize`: refused while an operation is in flight.
    pub open spec fn initialize_started<E>(self, block_lock: u8) -> (FlashModel, ActionView<E>) {
        if !self.idle() {
            self.refused(FlashError::Usage)
        } else {
            self.launched(Self::bring_up_script(block_lock), Seq::empty(), Yield::Nothing, true)
        }
    }

    /// `get_features`: refused while an operation is in flight.
    pub open spec fn get_features_started<E>(self, register: FeatureRegister) -> (
        FlashModel,
        ActionView<E>,
    ) {
        if !self.idle() {
            self.refused(FlashError::Usage)
        } else {
            self.launched(
                seq![Step::Issue(Command::GetFeatures(register))],
                Seq::empty(),
                Yield::Byte,
                false,
            )
        }
    }

    /// `set_features`: refused while an operation is in flight.
    pub open spec fn set_features_started<E>(self, register: FeatureRegister, value: u8) -> (
        FlashModel,
        ActionView<E>,
    ) {
        if !self.idle() {
            self.refused(FlashError::Usage)
        } else {
            self.launched(
                seq![Step::Issue(Command::SetFeatures(register, value))],
                Seq::empty(),
                Yield::Nothing,
                false,
            )
        }
    }

    /// `read_status`: refused while an operation is in flight.
    pub open spec fn read_status_started<E>(self) -> (FlashModel, ActionView<E>) {
        if !self.idle() {
            self.refused(FlashError::Usage)
        } else {
            self.launched(
                seq![Step::Issue(Self::status_read())],
                Seq::empty(),
                Yield::Status,
                false,
            )
        }
    }

    /// `read_id`: refused while an operation is in flight.
    pub open spec fn read_id_started<E>(self) -> (FlashModel, ActionView<E>) {
        if !self.idle() {
            self.refused(FlashError::Usage)
        } else {
            self.launched(
                seq![Step::Issue(Command::ReadId)],
                Seq::empty(),
                Yield::Identity,
                false,
            )
        }
    }

    /// `read_page_to_cache`: a data operation on a page that the chip must have.
    pub open spec fn read_page_to_cache_started<E>(self, row: RowAddress) -> (
        FlashModel,
        ActionView<E>,
    ) {
        if !self.takes_data_operations() {
            self.refused(FlashError::Usage)
        } else if !row.spec_is_valid(self.geometry) {
            self.refused(FlashError::Addressing)
        } else {
            self.launched(Self::load_script(row), Seq::empty(), Yield::Nothing, false)
        }
    }

    /// `read_from_cache`: a data operation that needs a page in the cache, on columns that
    /// a page with its spare area must have.
    pub open spec fn read_from_cache_started<E>(self, column: u16, length: u16) -> (
        FlashModel,
        ActionView<E>,
    ) {
        if !self.takes_data_operations() || self.cache is None {
            self.refused(FlashError::Usage)
        } else if column + length > self.geometry.spec_page_span() {
            self.refused(FlashError::Addressing)
        } else {
            self.launched(Self::fetch_script(column, length), Seq::empty(), Yield::Page, false)
        }
    }

    /// `read_ecc`: a data operation on a page that the chip must have, for bytes that the
    /// spare area must have.
    pub open spec fn read_ecc_started<E>(self, row: RowAddress, length: u16) -> (
        FlashModel,
        ActionView<E>,
    ) {
        if !self.takes_data_operations() {
            self.refused(FlashError::Usage)
        } else if !row.spec_is_valid(self.geometry) || length > self.geometry.page_ecc_size {
            self.refused(FlashError::Addressing)
        } else {
            self.launched(
                Self::spare_script(self.geometry, row, length),
                Seq::empty(),
                Yield::Page,
                false,
            )
        }
    }

    /// `program_page`: a data operation on a page that the chip must have, with no more
    /// bytes than a page with its spare area holds.
    pub open spec fn program_page_started<E>(self, row: RowAddress, data: Seq<u8>) -> (
        FlashModel,
        ActionView<E>,
    ) {
        if !self.takes_data_operations() {
            self.refused(FlashError::Usage)
        } else if !row.spec_is_valid(self.geometry) || data.len()
            > self.geometry.spec_page_span() {
            self.refused(FlashError::Addressing)
        } else {
            self.launched(Self::program_script(row), data, Yield::Nothing, false)
        }
    }

    /// `erase_block`: a data operation on a page that the chip must have.
    pub open spec fn erase_block_started<E>(self, row: RowAddress) -> (
        FlashModel,
        ActionView<E>,
    ) {
        if !self.takes_data_operations() {
            self.refused(FlashError::Usage)
        } else if !row.spec_is_valid(self.geometry) {
            self.refused(FlashError::Addressing)
        } else {
            self.launched(Self::erase_script(row), Seq::empty(), Yield::Nothing, false)
        }
    }

    /// `contains_bad_block_mark`: a data operation on a block that the chip must have, whose
    /// pages must have a spare area. It reads the first byte of the spare area of the first
    /// page of the block.
    pub open spec fn contains_bad_block_mark_started<E>(self, block_index: u16) -> (
        FlashModel,
        ActionView<E>,
    ) {
        if !self.takes_data_operations() {
            self.refused(FlashError::Usage)
        } else if block_index >= self.geometry.spec_block_count() || self.geometry.page_ecc_size
            == 0 {
            self.refused(FlashError::Addressing)
        } else {
            self.launched(
                Self::spare_script(
                    self.geometry,
                    RowAddress::spec_from_memory_address(
                        self.geometry,
                        self.geometry.spec_address_of_block_index(block_index as int),
                    ),
                    1,
                ),
                Seq::empty(),
                Yield::BadBlockMark,
                false,
            )
        }
    }

    /// The model and the action when an operation is refused: nothing changes and nothing
    /// is sent.
    pub open spec fn refused<E>(self, error: FlashError<E>) -> (FlashModel, ActionView<E>) {
        (self, ActionView::Finish(Err(error)))
    }
}

} // verus!
