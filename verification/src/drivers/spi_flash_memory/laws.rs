//! What holds of every conversation between the driver and a chip.

use vstd::prelude::*;

use super::address::RowAddress;
use super::chip::{geometry_of, lemma_mt29f2g01abagdwb_geometry, FlashMemoryChip, MT29F2G01ABAGDWB};
use super::command::Command;
use super::error::FlashError;
use super::feature::{FeatureRegister, Status};
use super::protocol::{
    ActionView,
    Check,
    EventView,
    FlashModel,
    OutputView,
    Step,
};

verus! {

impl FlashModel {
    /// The model and the last action once the host has reported `events` in order, `last`
    /// being the action before the first of them.
    pub open spec fn run<E>(self, last: ActionView<E>, events: Seq<EventView<E>>) -> (
        FlashModel,
        ActionView<E>,
    )
        decreases events.len(),
    {
        if events.len() == 0 {
            (self, last)
        } else {
            let (next, action) = self.advanced(events[0]);
            next.run(action, events.skip(1))
        }
    }

    /// The event of an exchange that read `answer`.
    pub open spec fn completed<E>(answer: Seq<u8>) -> EventView<E> {
        EventView::Completed(answer)
    }

    /// `count` times the event of a status read that found the byte `status`.
    pub open spec fn status_reads<E>(status: u8, count: nat) -> Seq<EventView<E>> {
        Seq::new(count, |i: int| Self::completed(seq![status]))
    }
}

/// Reporting events one after the other is reporting the first, then the rest.
pub proof fn lemma_run_split<E>(
    model: FlashModel,
    last: ActionView<E>,
    first: Seq<EventView<E>>,
    rest: Seq<EventView<E>>,
)
    ensures
        model.run(last, first + rest) == model.run(last, first).0.run(
            model.run(last, first).1,
            rest,
        ),
    decreases first.len(),
{
    if first.len() == 0 {
        assert(first + rest =~= rest);
    } else {
        let (next, action) = model.advanced(first[0]);
        assert((first + rest)[0] == first[0]);
        assert((first + rest).skip(1) =~= first.skip(1) + rest);
        lemma_run_split(next, action, first.skip(1), rest);
    }
}

/// Every step keeps the model well formed, provided the host hands back as many bytes as
/// the exchange was to read.
pub proof fn lemma_advanced_well_formed<E>(model: FlashModel, event: EventView<E>)
    requires
        model.well_formed(),
        event matches EventView::Completed(answer) ==> model.idle() || answer.len()
            == model.awaited_length(),
    ensures
        model.advanced(event).0.well_formed(),
        model.advanced(event).0.geometry == model.geometry,
        model.advanced(event).0.poll_limit == model.poll_limit,
{
    if !model.idle() {
        let rest = model.pending.skip(1);
        assert forall|i: int| 0 <= i < rest.len() implies (#[trigger] rest[i] matches Step::Issue(
            command,
        ) ==> command.spec_fits(model.geometry)) by {
            assert(rest[i] == model.pending[i + 1]);
        }
        if rest.len() > 0 {
            assert(rest.last() == model.pending.last());
        }
    }
}

/// A transport failure ends the operation in flight with that failure, whatever the
/// operation and wherever it stands, and the error is the one that the transport gave.
pub proof fn lemma_transport_failure_surfaces<E>(model: FlashModel, error: E)
    requires
        !model.idle(),
    ensures
        model.advanced(EventView::Failed(error)).1 == ActionView::<E>::Finish(
            Err(FlashError::Transport(error)),
        ),
        model.advanced(EventView::Failed(error)).0 == model.abandoned(),
        model.advanced(EventView::Failed(error)).0.idle(),
{
}

/// A chip that says it is busy at every status read of a wait ends the operation with
/// "device not ready", at the last status read that the driver allows and not before.
pub proof fn lemma_wait_times_out<E>(model: FlashModel, status: u8)
    requires
        model.well_formed(),
        !model.idle(),
        model.pending[0] is AwaitReady,
        (Status { bits: status }).spec_is_busy(),
    ensures
        model.run(model.exchange::<E>(), FlashModel::status_reads(status, model.polls_left)) == (
            model.abandoned(),
            ActionView::<E>::Finish(Err(FlashError::DeviceNotReady)),
        ),
        forall|count: nat|
            count < model.polls_left ==> #[trigger] model.run(
                model.exchange::<E>(),
                FlashModel::status_reads(status, count),
            ).1 == model.exchange::<E>(),
    decreases model.polls_left,
{
    let events = FlashModel::status_reads::<E>(status, model.polls_left);
    assert(events[0] == FlashModel::completed::<E>(seq![status]));
    assert(seq![status][0] == status);
    let (next, action) = model.advanced(events[0]);
    if model.polls_left > 1 {
        assert(events.skip(1) =~= FlashModel::status_reads::<E>(status, next.polls_left));
        assert(next.abandoned() == model.abandoned());
        assert(next.exchange::<E>() == model.exchange::<E>());
        lemma_wait_times_out::<E>(next, status);
    } else {
        assert(events.skip(1) =~= Seq::<EventView<E>>::empty());
        assert(next.run(action, events.skip(1)) == (next, action));
    }
    assert forall|count: nat| count < model.polls_left implies #[trigger] model.run(
        model.exchange::<E>(),
        FlashModel::status_reads(status, count),
    ).1 == model.exchange::<E>() by {
        let prefix = FlashModel::status_reads::<E>(status, count);
        if count > 0 {
            let fewer = (count - 1) as nat;
            assert(prefix[0] == events[0]);
            assert(prefix.skip(1) =~= FlashModel::status_reads::<E>(status, fewer));
            assert(action == next.exchange::<E>());
            assert(next.run(next.exchange::<E>(), FlashModel::status_reads(status, fewer)).1
                == next.exchange::<E>());
        }
    }
}

/// When every command of a program goes through and the chip then says it is busy at
/// every status read, the program ends with "device not ready": not with a transport
/// error, which only a failed exchange gives.
pub proof fn lemma_program_page_times_out<E>(
    model: FlashModel,
    row: RowAddress,
    data: Seq<u8>,
    status: u8,
)
    requires
        model.well_formed(),
        model.takes_data_operations(),
        row.spec_is_valid(model.geometry),
        data.len() <= model.geometry.spec_page_span(),
        (Status { bits: status }).spec_is_busy(),
    ensures
        ({
            let (started, first) = model.program_page_started::<E>(row, data);
            let commands = seq![
                FlashModel::completed::<E>(Seq::empty()),
                FlashModel::completed::<E>(Seq::empty()),
                FlashModel::completed::<E>(Seq::empty()),
            ];
            let polls = FlashModel::status_reads::<E>(status, model.poll_limit);
            &&& first is Exchange
            &&& started.run(first, commands).1 is Exchange
            &&& started.run(first, commands + polls).1 == ActionView::<E>::Finish(
                Err(FlashError::DeviceNotReady),
            )
            &&& !(FlashError::<E>::DeviceNotReady).spec_is_transport()
            &&& started.run(first, commands + polls).0.idle()
        }),
{
    let (started, first) = model.program_page_started::<E>(row, data);
    let quiet = FlashModel::completed::<E>(Seq::empty());
    let commands = seq![quiet, quiet, quiet];
    let polls = FlashModel::status_reads::<E>(status, model.poll_limit);
    let script = FlashModel::program_script(row);
    assert(started.pending == script);
    assert(script.len() == 4);
    lemma_advanced_well_formed(started, quiet);
    let (second, action2) = started.advanced(quiet);
    assert(second.pending =~= script.skip(1));
    lemma_advanced_well_formed(second, quiet);
    let (third, action3) = second.advanced(quiet);
    assert(third.pending =~= script.skip(2));
    lemma_advanced_well_formed(third, quiet);
    let (waiting, action4) = third.advanced(quiet);
    assert(waiting.pending =~= script.skip(3));
    assert(waiting.pending[0] == Step::AwaitReady(Check::Program));
    assert(waiting.polls_left == model.poll_limit);
    assert(action4 == waiting.exchange::<E>());
    assert(commands.skip(1) =~= seq![quiet, quiet]);
    assert(commands.skip(1).skip(1) =~= seq![quiet]);
    assert(commands.skip(1).skip(1).skip(1) =~= Seq::<EventView<E>>::empty());
    assert(started.run(first, commands) == (waiting, action4)) by {
        reveal_with_fuel(FlashModel::run, 5);
    }
    lemma_run_split(started, first, commands, polls);
    lemma_wait_times_out::<E>(waiting, status);
}

/// A scan of a block reports it as bad exactly when the first byte of the spare area of
/// its first page is not zero: the page is loaded, the chip is waited for, the byte is
/// read.
pub proof fn lemma_bad_block_mark_is_reported<E>(
    model: FlashModel,
    block_index: u16,
    status: u8,
    mark: u8,
)
    requires
        model.well_formed(),
        model.takes_data_operations(),
        block_index < model.geometry.spec_block_count(),
        model.geometry.page_ecc_size > 0,
        !(Status { bits: status }).spec_is_busy(),
    ensures
        ({
            let (started, first) = model.contains_bad_block_mark_started::<E>(block_index);
            let events = seq![
                FlashModel::completed::<E>(Seq::empty()),
                FlashModel::completed::<E>(seq![status]),
                FlashModel::completed::<E>(seq![mark]),
            ];
            &&& started.run(first, events).1 == ActionView::<E>::Finish(
                Ok(OutputView::BadBlock(mark != 0)),
            )
            &&& started.run(first, events).0.idle()
        }),
{
    let (started, first) = model.contains_bad_block_mark_started::<E>(block_index);
    let loaded = FlashModel::completed::<E>(Seq::empty());
    let polled = FlashModel::completed::<E>(seq![status]);
    let fetched = FlashModel::completed::<E>(seq![mark]);
    let events = seq![loaded, polled, fetched];
    let script = started.pending;
    assert(script.len() == 3);
    let (second, action2) = started.advanced(loaded);
    assert(second.pending =~= script.skip(1));
    assert(seq![status][0] == status);
    let (third, action3) = second.advanced(polled);
    assert(third.pending =~= script.skip(2));
    assert(third.pending.skip(1) =~= Seq::<Step>::empty());
    assert(seq![mark][0] == mark);
    let (last, action4) = third.advanced(fetched);
    assert(events.skip(1) =~= seq![polled, fetched]);
    assert(events.skip(1).skip(1) =~= seq![fetched]);
    assert(events.skip(1).skip(1).skip(1) =~= Seq::<EventView<E>>::empty());
    assert(started.run(first, events) == (last, action4)) by {
        reveal_with_fuel(FlashModel::run, 5);
    }
}

/// A scan never takes a failed read for a good block: a transport failure at any of its
/// exchanges ends it with that failure.
pub proof fn lemma_bad_block_scan_surfaces_failure<E>(
    model: FlashModel,
    block_index: u16,
    status: u8,
    error: E,
)
    requires
        model.well_formed(),
        model.takes_data_operations(),
        block_index < model.geometry.spec_block_count(),
        model.geometry.page_ecc_size > 0,
        !(Status { bits: status }).spec_is_busy(),
    ensures
        ({
            let (started, first) = model.contains_bad_block_mark_started::<E>(block_index);
            let failure = ActionView::<E>::Finish(Err(FlashError::Transport(error)));
            let loaded = FlashModel::completed::<E>(Seq::empty());
            let polled = FlashModel::completed::<E>(seq![status]);
            let failed = EventView::Failed(error);
            &&& started.run(first, seq![failed]).1 == failure
            &&& started.run(first, seq![loaded, failed]).1 == failure
            &&& started.run(first, seq![loaded, polled, failed]).1 == failure
        }),
{
    let (started, first) = model.contains_bad_block_mark_started::<E>(block_index);
    let loaded = FlashModel::completed::<E>(Seq::empty());
    let polled = FlashModel::completed::<E>(seq![status]);
    let failed = EventView::Failed(error);
    let script = started.pending;
    assert(script.len() == 3);
    let (second, action2) = started.advanced(loaded);
    assert(second.pending =~= script.skip(1));
    assert(seq![status][0] == status);
    let (third, action3) = second.advanced(polled);
    assert(third.pending =~= script.skip(2));
    assert(seq![failed].skip(1) =~= Seq::<EventView<E>>::empty());
    assert(seq![loaded, failed].skip(1) =~= seq![failed]);
    assert(seq![loaded, polled, failed].skip(1) =~= seq![polled, failed]);
    assert(seq![polled, failed].skip(1) =~= seq![failed]);
    reveal_with_fuel(FlashModel::run, 5);
}

/// Bring-up of the 2Gbit chip sends a reset, waits for the chip, and writes zero to the
/// block lock register; the driver then takes data operations.
pub proof fn lemma_bring_up_unlocks_mt29f2g01abagdwb<E>(poll_limit: nat, status: u8)
    requires
        1 <= poll_limit <= u32::MAX,
        !(Status { bits: status }).spec_is_busy(),
    ensures
        ({
            let model = FlashModel::fresh(geometry_of::<MT29F2G01ABAGDWB>(), poll_limit);
            let (started, first) = model.initialize_started::<E>(
                MT29F2G01ABAGDWB::BLOCK_LOCK_AT_BRING_UP,
            );
            let quiet = FlashModel::completed::<E>(Seq::empty());
            let polled = FlashModel::completed::<E>(seq![status]);
            &&& first == ActionView::<E>::Exchange { write: seq![0xFFu8], read_length: 0 }
            &&& started.run(first, seq![quiet]).1 == ActionView::<E>::Exchange {
                write: seq![0x0Fu8, 0xC0u8],
                read_length: 1,
            }
            &&& started.run(first, seq![quiet, polled]).1 == ActionView::<E>::Exchange {
                write: seq![0x1Fu8, 0xA0u8, 0x00u8],
                read_length: 0,
            }
            &&& started.run(first, seq![quiet, polled, quiet]).1 == ActionView::<E>::Finish(
                Ok(OutputView::Done),
            )
            &&& started.run(first, seq![quiet, polled, quiet]).0.takes_data_operations()
            &&& !model.takes_data_operations()
        }),
{
    lemma_mt29f2g01abagdwb_geometry();
    let geometry = geometry_of::<MT29F2G01ABAGDWB>();
    let model = FlashModel::fresh(geometry, poll_limit);
    let block_lock = MT29F2G01ABAGDWB::BLOCK_LOCK_AT_BRING_UP;
    let (started, first) = model.initialize_started::<E>(block_lock);
    let quiet = FlashModel::completed::<E>(Seq::empty());
    let polled = FlashModel::completed::<E>(seq![status]);
    let script = FlashModel::bring_up_script(block_lock);
    assert(block_lock == 0x00);
    assert(FlashModel::reset_script().len() == 2);
    assert(script.len() == 3);
    assert(script[0] == FlashModel::reset_script()[0]);
    assert(script[1] == FlashModel::reset_script()[1]);
    assert(script =~= seq![
        Step::Issue(Command::Reset),
        Step::AwaitReady(Check::Nothing),
        Step::Issue(Command::SetFeatures(FeatureRegister::BlockLock, 0x00)),
    ]);
    assert(started.pending == script);
    assert(first.arrow_Exchange_write() =~= seq![0xFFu8]);
    let (second, action2) = started.advanced(quiet);
    assert(second.pending =~= script.skip(1));
    assert(action2.arrow_Exchange_write() =~= seq![0x0Fu8, 0xC0u8]);
    assert(seq![status][0] == status);
    let (third, action3) = second.advanced(polled);
    assert(third.pending =~= script.skip(2));
    assert(action3.arrow_Exchange_write() =~= seq![0x1Fu8, 0xA0u8, 0x00u8]);
    assert(third.pending.skip(1) =~= Seq::<Step>::empty());
    let (last, action4) = third.advanced(quiet);
    assert(seq![quiet].skip(1) =~= Seq::<EventView<E>>::empty());
    assert(seq![quiet, polled].skip(1) =~= seq![polled]);
    assert(seq![polled].skip(1) =~= Seq::<EventView<E>>::empty());
    assert(seq![quiet, polled, quiet].skip(1) =~= seq![polled, quiet]);
    assert(seq![polled, quiet].skip(1) =~= seq![quiet]);
    reveal_with_fuel(FlashModel::run, 5);
}

} // verus!
