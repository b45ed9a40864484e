//! The driver of the flash memory against the mock chip: what the two make of one
//! another, exchange by exchange.

use vstd::prelude::*;

use super::nand::{spec_fitted, spec_status_bits, MockNand, NandModel};
use crate::drivers::spi_flash_memory::address::RowAddress;
use crate::drivers::spi_flash_memory::chip::FlashMemoryChip;
use crate::drivers::spi_flash_memory::command::Command;
use crate::drivers::spi_flash_memory::driver::SpiFlashMemory;
use crate::drivers::spi_flash_memory::error::FlashError;
use crate::drivers::spi_flash_memory::feature::{FeatureRegister, Status};
use crate::drivers::spi_flash_memory::laws::lemma_advanced_well_formed;
use crate::drivers::spi_flash_memory::protocol::{
    Action,
    ActionView,
    Check,
    Event,
    EventView,
    FlashModel,
    Output,
    OutputView,
    Step,
};

verus! {

/// The driver, the chip and the last action once the host has carried out `count`
/// exchanges between them, or fewer where the operation was over before. `action` is the
/// action that the driver gave last.
pub open spec fn conversed<E>(
    flash: FlashModel,
    chip: NandModel,
    action: ActionView<E>,
    count: nat,
) -> (FlashModel, NandModel, ActionView<E>)
    decreases count,
{
    if count == 0 {
        (flash, chip, action)
    } else {
        match action {
            ActionView::Finish(_) => (flash, chip, action),
            ActionView::Exchange { write, read_length } => {
                let (answering, answer) = chip.responded(write, read_length);
                let (next, following) = flash.advanced(EventView::Completed(answer));
                conversed(next, answering, following, (count - 1) as nat)
            },
        }
    }
}

/// The status byte of the mock shows each of its four flags where the driver looks for it,
/// and never shows a page beyond correction.
pub proof fn lemma_status_shows_flags(
    busy: bool,
    write_enabled: bool,
    erase_failed: bool,
    program_failed: bool,
)
    ensures
        ({
            let status = Status {
                bits: spec_status_bits(busy, write_enabled, erase_failed, program_failed),
            };
            &&& status.spec_is_busy() == busy
            &&& status.spec_is_write_enabled() == write_enabled
            &&& status.spec_has_erase_failed() == erase_failed
            &&& status.spec_has_program_failed() == program_failed
            &&& !status.spec_is_uncorrectable()
        }),
{
    let a: u8 = if busy {
        0x01
    } else {
        0
    };
    let b: u8 = if write_enabled {
        0x02
    } else {
        0
    };
    let c: u8 = if erase_failed {
        0x04
    } else {
        0
    };
    let d: u8 = if program_failed {
        0x08
    } else {
        0
    };
    assert(((a | b | c | d) & 0x01 != 0) == (a != 0) && ((a | b | c | d) & 0x02 != 0) == (b != 0)
        && ((a | b | c | d) & 0x04 != 0) == (c != 0) && ((a | b | c | d) & 0x08 != 0) == (d != 0)
        && (a | b | c | d) & 0x70 != 0x20) by (bit_vector)
        requires
            a == 0 || a == 0x01,
            b == 0 || b == 0x02,
            c == 0 || c == 0x04,
            d == 0 || d == 0x08,
    ;
}

/// An operation that is over stays over, however many exchanges the host is asked for.
pub proof fn lemma_conversed_finished<E>(
    flash: FlashModel,
    chip: NandModel,
    action: ActionView<E>,
    count: nat,
)
    requires
        action is Finish,
    ensures
        conversed(flash, chip, action, count) == (flash, chip, action),
{
}

/// Carrying out exchanges one after the other is carrying out the first of them, then the
/// rest.
pub proof fn lemma_conversed_split<E>(
    flash: FlashModel,
    chip: NandModel,
    action: ActionView<E>,
    first: nat,
    rest: nat,
)
    ensures
        conversed(flash, chip, action, first + rest) == conversed(
            conversed(flash, chip, action, first).0,
            conversed(flash, chip, action, first).1,
            conversed(flash, chip, action, first).2,
            rest,
        ),
    decreases first,
{
    if first == 0 {
    } else {
        match action {
            ActionView::Finish(_) => {
                lemma_conversed_finished(flash, chip, action, rest);
            },
            ActionView::Exchange { write, read_length } => {
                let (answering, answer) = chip.responded(write, read_length);
                let (next, following) = flash.advanced(EventView::<E>::Completed(answer));
                lemma_conversed_split(next, answering, following, (first - 1) as nat, rest);
            },
        }
    }
}

/// One exchange for a command of the driver: the chip takes the command that the driver
/// means, and the driver takes as many bytes as it awaits.
pub proof fn lemma_command_is_understood(flash: FlashModel, chip: NandModel)
    requires
        flash.well_formed(),
        chip.well_formed(),
        chip.geometry == flash.geometry,
        !flash.idle(),
    ensures
        ({
            let command = flash.current_command();
            let write = command.spec_encode(flash.geometry, flash.payload);
            let (answering, answer) = chip.responded(write, flash.awaited_length());
            &&& answering == chip.after(command, flash.payload)
            &&& answer == spec_fitted(chip.says(command), flash.awaited_length())
            &&& answer.len() == flash.awaited_length()
            &&& answering.well_formed()
            &&& answering.geometry == chip.geometry
        }),
{
    let command = flash.current_command();
    assert(command.spec_fits(flash.geometry)) by {
        assert(flash.pending[0] matches Step::Issue(issued) ==> issued.spec_fits(flash.geometry));
    }
    command.lemma_decode_inverts_encode(flash.geometry, flash.payload);
    lemma_after_well_formed(chip, command, flash.payload);
}

/// Whatever command the chip takes, it stays well formed.
pub proof fn lemma_after_well_formed(chip: NandModel, command: Command, payload: Seq<u8>)
    requires
        chip.well_formed(),
        command.spec_fits(chip.geometry),
    ensures
        chip.after(command, payload).well_formed(),
        chip.after(command, payload).geometry == chip.geometry,
        chip.after(command, payload).busy_reads == chip.busy_reads,
        chip.after(command, payload).stuck == chip.stuck,
{
    match command {
        Command::PageRead(row) => {
            row.lemma_valid_bounds(chip.geometry);
        },
        Command::ProgramExecute(row) => {
            row.lemma_valid_bounds(chip.geometry);
        },
        Command::BlockErase(row) => {
            row.lemma_valid_bounds(chip.geometry);
        },
        _ => {},
    }
}

/// A wait of the driver for a chip that gets ready in time: after as many exchanges as
/// the chip is busy for, and one more, the chip is ready and the driver has moved on, with
/// the status of the ready chip before it.
pub proof fn lemma_wait_ends<E>(flash: FlashModel, chip: NandModel)
    requires
        flash.well_formed(),
        chip.well_formed(),
        chip.geometry == flash.geometry,
        !flash.idle(),
        flash.pending[0] is AwaitReady,
        !chip.stuck,
        chip.busy_left < flash.polls_left,
    ensures
        ({
            let check = flash.pending[0]->AwaitReady_0;
            let ready = NandModel { busy_left: 0, ..chip };
            let status = Status { bits: ready.status() };
            let (next, following) = flash.polled::<E>(check, status, seq![status.bits]);
            &&& !status.spec_is_busy()
            &&& conversed(flash, chip, flash.exchange::<E>(), chip.busy_left + 1) == (
                next,
                ready,
                following,
            )
        }),
    decreases chip.busy_left,
{
    let check = flash.pending[0]->AwaitReady_0;
    let ready = NandModel { busy_left: 0, ..chip };
    lemma_command_is_understood(flash, chip);
    lemma_status_shows_flags(
        chip.busy(),
        chip.write_enabled,
        chip.erase_failed,
        chip.program_failed,
    );
    lemma_status_shows_flags(
        ready.busy(),
        ready.write_enabled,
        ready.erase_failed,
        ready.program_failed,
    );
    let command = FlashModel::status_read();
    let write = command.spec_encode(flash.geometry, flash.payload);
    let (answering, answer) = chip.responded(write, 1);
    assert(answer =~= seq![chip.status()]);
    assert(seq![chip.status()][0] == chip.status());
    let (next, following) = flash.advanced::<E>(EventView::Completed(answer));
    if chip.busy_left > 0 {
        assert(answering == NandModel { busy_left: (chip.busy_left - 1) as nat, ..chip });
        assert(following == next.exchange::<E>());
        lemma_advanced_well_formed(flash, EventView::<E>::Completed(answer));
        lemma_wait_ends::<E>(next, answering);
        assert(NandModel { busy_left: 0, ..answering } == ready);
        let status = Status { bits: ready.status() };
        assert(next.polled::<E>(check, status, seq![status.bits]) == flash.polled::<E>(
            check,
            status,
            seq![status.bits],
        ));
    } else {
        assert(answering == ready);
        assert(chip == ready);
        assert(conversed(next, answering, following, 0) == (next, answering, following));
    }
}

/// One exchange for the command that the driver issues: the chip has taken the command,
/// and the driver has taken what the chip said.
pub proof fn lemma_issue_step<E>(flash: FlashModel, chip: NandModel)
    requires
        flash.well_formed(),
        chip.well_formed(),
        chip.geometry == flash.geometry,
        !flash.idle(),
        flash.pending[0] is Issue,
    ensures
        ({
            let command = flash.pending[0]->Issue_0;
            let answer = spec_fitted(chip.says(command), command.spec_response_length());
            let (next, following) = flash.advanced::<E>(EventView::Completed(answer));
            &&& conversed(flash, chip, flash.exchange::<E>(), 1) == (
                next,
                chip.after(command, flash.payload),
                following,
            )
            &&& next.well_formed()
            &&& next.geometry == flash.geometry
            &&& next.poll_limit == flash.poll_limit
            &&& chip.after(command, flash.payload).well_formed()
            &&& chip.after(command, flash.payload).geometry == chip.geometry
        }),
{
    let command = flash.pending[0]->Issue_0;
    lemma_command_is_understood(flash, chip);
    let answer = spec_fitted(chip.says(command), command.spec_response_length());
    lemma_advanced_well_formed(flash, EventView::<E>::Completed(answer));
    let (next, following) = flash.advanced::<E>(EventView::Completed(answer));
    assert(conversed(next, chip.after(command, flash.payload), following, 0) == (
        next,
        chip.after(command, flash.payload),
        following,
    ));
}

/// Two operations of the driver can follow one another: what an operation leaves behind
/// when it succeeds takes data operations if the driver did before.
pub open spec fn rested(flash: FlashModel, before: FlashModel) -> bool {
    &&& flash.well_formed()
    &&& flash.idle()
    &&& flash.ready == before.ready
    &&& flash.geometry == before.geometry
    &&& flash.poll_limit == before.poll_limit
}

/// An erase of a block on a chip that is unlocked and gets ready in time succeeds, and
/// leaves every page of the block erased and every other page as it was.
pub proof fn lemma_erase_block_succeeds<E>(flash: FlashModel, chip: NandModel, row: RowAddress)
    requires
        flash.well_formed(),
        chip.well_formed(),
        chip.geometry == flash.geometry,
        flash.takes_data_operations(),
        chip.unlocked(),
        !chip.stuck,
        chip.busy_reads < flash.poll_limit,
        row.spec_is_valid(flash.geometry),
    ensures
        ({
            let (started, first) = flash.erase_block_started::<E>(row);
            let (rest, erased, last) = conversed(started, chip, first, chip.busy_reads + 3);
            &&& last == ActionView::<E>::Finish(Ok(OutputView::Done))
            &&& rested(rest, flash)
            &&& rest.cache == flash.cache
            &&& erased == (NandModel {
                memory: chip.erased_memory(row.spec_block_index(chip.geometry)),
                write_enabled: false,
                erase_failed: false,
                busy_left: 0,
                ..chip
            })
            &&& erased.well_formed()
        }),
{
    let (started, first) = flash.erase_block_started::<E>(row);
    let script = FlashModel::erase_script(row);
    assert(started.pending == script);
    assert(script.len() == 3);
    lemma_issue_step::<E>(started, chip);
    let (second, enabled, action2) = conversed(started, chip, first, 1);
    assert(second.pending =~= script.skip(1));
    lemma_issue_step::<E>(second, enabled);
    let (third, erasing, action3) = conversed(second, enabled, action2, 1);
    assert(third.pending =~= script.skip(2));
    assert(third.pending.skip(1) =~= Seq::<Step>::empty());
    lemma_wait_ends::<E>(third, erasing);
    lemma_conversed_split(started, chip, first, 1, 1);
    lemma_conversed_split(started, chip, first, 2, erasing.busy_left + 1);
    let ready = NandModel { busy_left: 0, ..erasing };
    lemma_status_shows_flags(
        ready.busy(),
        ready.write_enabled,
        ready.erase_failed,
        ready.program_failed,
    );
}

/// A load of a page into the cache on a chip that gets ready in time succeeds, and
/// leaves the page in the cache.
pub proof fn lemma_read_page_to_cache_succeeds<E>(
    flash: FlashModel,
    chip: NandModel,
    row: RowAddress,
)
    requires
        flash.well_formed(),
        chip.well_formed(),
        chip.geometry == flash.geometry,
        flash.takes_data_operations(),
        !chip.stuck,
        chip.busy_reads < flash.poll_limit,
        row.spec_is_valid(flash.geometry),
    ensures
        ({
            let (started, first) = flash.read_page_to_cache_started::<E>(row);
            let (rest, loaded, last) = conversed(started, chip, first, chip.busy_reads + 2);
            &&& last == ActionView::<E>::Finish(Ok(OutputView::Done))
            &&& rested(rest, flash)
            &&& rest.cache == Some(true)
            &&& loaded == (NandModel {
                cache: chip.page(row.spec_raw(chip.geometry)),
                busy_left: 0,
                ..chip
            })
            &&& loaded.well_formed()
        }),
{
    let (started, first) = flash.read_page_to_cache_started::<E>(row);
    let script = FlashModel::load_script(row);
    assert(started.pending == script);
    assert(script.len() == 2);
    lemma_issue_step::<E>(started, chip);
    let (second, loading, action2) = conversed(started, chip, first, 1);
    assert(second.pending =~= script.skip(1));
    assert(second.pending.skip(1) =~= Seq::<Step>::empty());
    lemma_wait_ends::<E>(second, loading);
    lemma_conversed_split(started, chip, first, 1, loading.busy_left + 1);
    let ready = NandModel { busy_left: 0, ..loading };
    lemma_status_shows_flags(
        ready.busy(),
        ready.write_enabled,
        ready.erase_failed,
        ready.program_failed,
    );
}

/// A read of the cache hands back the bytes of the cache of the chip, with the validity
/// that the driver recorded when the page was loaded.
pub proof fn lemma_read_from_cache_succeeds<E>(
    flash: FlashModel,
    chip: NandModel,
    column: u16,
    length: u16,
)
    requires
        flash.well_formed(),
        chip.well_formed(),
        chip.geometry == flash.geometry,
        flash.takes_data_operations(),
        flash.cache is Some,
        column + length <= flash.geometry.spec_page_span(),
    ensures
        ({
            let (started, first) = flash.read_from_cache_started::<E>(column, length);
            let (rest, after, last) = conversed(started, chip, first, 1);
            &&& last == ActionView::<E>::Finish(
                Ok(
                    OutputView::Page {
                        data: chip.cache_bytes(column, length),
                        valid: flash.cache == Some(true),
                    },
                ),
            )
            &&& rested(rest, flash)
            &&& rest.cache == flash.cache
            &&& after == chip
        }),
{
    let (started, first) = flash.read_from_cache_started::<E>(column, length);
    let script = FlashModel::fetch_script(column, length);
    assert(started.pending == script);
    assert(script.skip(1) =~= Seq::<Step>::empty());
    lemma_issue_step::<E>(started, chip);
    assert(spec_fitted(chip.cache_bytes(column, length), length as nat) =~= chip.cache_bytes(
        column,
        length,
    ));
}

/// A program of a page on a chip that is unlocked and gets ready in time succeeds, and
/// leaves the page holding the bytes that were programmed, with the rest of it erased.
pub proof fn lemma_program_page_succeeds<E>(
    flash: FlashModel,
    chip: NandModel,
    row: RowAddress,
    data: Seq<u8>,
)
    requires
        flash.well_formed(),
        chip.well_formed(),
        chip.geometry == flash.geometry,
        flash.takes_data_operations(),
        chip.unlocked(),
        !chip.stuck,
        chip.busy_reads < flash.poll_limit,
        row.spec_is_valid(flash.geometry),
        data.len() <= flash.geometry.spec_page_span(),
    ensures
        ({
            let (started, first) = flash.program_page_started::<E>(row, data);
            let (rest, programmed, last) = conversed(started, chip, first, chip.busy_reads + 4);
            &&& last == ActionView::<E>::Finish(Ok(OutputView::Done))
            &&& rested(rest, flash)
            &&& programmed == (NandModel {
                memory: chip.memory.update(
                    row.spec_raw(chip.geometry),
                    Some(chip.loaded_cache(0, data)),
                ),
                cache: chip.loaded_cache(0, data),
                write_enabled: false,
                program_failed: false,
                busy_left: 0,
                ..chip
            })
            &&& programmed.well_formed()
        }),
{
    let (started, first) = flash.program_page_started::<E>(row, data);
    let script = FlashModel::program_script(row);
    assert(started.pending == script);
    assert(script.len() == 4);
    lemma_issue_step::<E>(started, chip);
    let (second, enabled, action2) = conversed(started, chip, first, 1);
    assert(second.pending =~= script.skip(1));
    lemma_issue_step::<E>(second, enabled);
    let (third, filled, action3) = conversed(second, enabled, action2, 1);
    assert(third.pending =~= script.skip(2));
    lemma_issue_step::<E>(third, filled);
    let (fourth, writing, action4) = conversed(third, filled, action3, 1);
    assert(fourth.pending =~= script.skip(3));
    assert(fourth.pending.skip(1) =~= Seq::<Step>::empty());
    lemma_wait_ends::<E>(fourth, writing);
    lemma_conversed_split(started, chip, first, 1, 1);
    lemma_conversed_split(started, chip, first, 2, 1);
    lemma_conversed_split(started, chip, first, 3, writing.busy_left + 1);
    let ready = NandModel { busy_left: 0, ..writing };
    lemma_status_shows_flags(
        ready.busy(),
        ready.write_enabled,
        ready.erase_failed,
        ready.program_failed,
    );
    assert(filled.cache == chip.loaded_cache(0, data));
}

/// A scan of a block reports it as bad exactly when the byte that the chip holds first in
/// the spare area of the first page of the block is not zero.
pub proof fn lemma_scan_reports_mark_of_chip<E>(
    flash: FlashModel,
    chip: NandModel,
    block_index: u16,
)
    requires
        flash.well_formed(),
        chip.well_formed(),
        chip.geometry == flash.geometry,
        flash.takes_data_operations(),
        !chip.stuck,
        chip.busy_reads < flash.poll_limit,
        block_index < flash.geometry.spec_block_count(),
        flash.geometry.page_ecc_size > 0,
    ensures
        ({
            let (started, first) = flash.contains_bad_block_mark_started::<E>(block_index);
            let mark = chip.page(block_index * chip.geometry.pages_per_block)[chip.geometry.page_size as int];
            let (rest, after, last) = conversed(started, chip, first, chip.busy_reads + 3);
            &&& last == ActionView::<E>::Finish(Ok(OutputView::BadBlock(mark != 0)))
            &&& rested(rest, flash)
            &&& after.memory == chip.memory
        }),
{
    let geometry = flash.geometry;
    RowAddress::lemma_first_page_of_block(geometry, block_index as int);
    let row = RowAddress::spec_from_memory_address(
        geometry,
        geometry.spec_address_of_block_index(block_index as int),
    );
    row.lemma_valid_bounds(geometry);
    let (started, first) = flash.contains_bad_block_mark_started::<E>(block_index);
    let script = FlashModel::spare_script(geometry, row, 1);
    assert(started.pending == script);
    assert(script.len() == 3);
    assert(script[0] == Step::Issue(Command::PageRead(row)));
    assert(script[1] == Step::AwaitReady(Check::Read));
    assert(script[2] == Step::Issue(
        Command::ReadFromCache { column: geometry.page_size as u16, length: 1 },
    ));
    lemma_issue_step::<E>(started, chip);
    let (second, loading, action2) = conversed(started, chip, first, 1);
    assert(second.pending =~= script.skip(1));
    lemma_wait_ends::<E>(second, loading);
    let ready = NandModel { busy_left: 0, ..loading };
    lemma_status_shows_flags(
        ready.busy(),
        ready.write_enabled,
        ready.erase_failed,
        ready.program_failed,
    );
    let (third, loaded, action3) = conversed(second, loading, action2, loading.busy_left + 1);
    assert(third.pending =~= script.skip(2));
    assert(third.pending.skip(1) =~= Seq::<Step>::empty());
    lemma_advanced_well_formed(
        second,
        EventView::<E>::Completed(seq![(Status { bits: ready.status() }).bits]),
    );
    lemma_issue_step::<E>(third, loaded);
    lemma_conversed_split(started, chip, first, 1, loading.busy_left + 1);
    lemma_conversed_split(started, chip, first, loading.busy_left + 2, 1);
    let said = loaded.cache_bytes(geometry.page_size as u16, 1);
    assert(spec_fitted(said, 1) =~= said);
    assert(said[0] == loaded.cache[geometry.page_size as int]);
}

/// Bring-up on a chip that gets ready in time succeeds: the block lock register holds the
/// value that bring-up wrote, and the driver takes data operations.
pub proof fn lemma_bring_up_succeeds<E>(flash: FlashModel, chip: NandModel, block_lock: u8)
    requires
        flash.well_formed(),
        chip.well_formed(),
        chip.geometry == flash.geometry,
        flash.idle(),
        !chip.stuck,
        chip.busy_reads < flash.poll_limit,
    ensures
        ({
            let (started, first) = flash.initialize_started::<E>(block_lock);
            let (rest, after, last) = conversed(started, chip, first, chip.busy_reads + 3);
            &&& last == ActionView::<E>::Finish(Ok(OutputView::Done))
            &&& rest.takes_data_operations()
            &&& rest.well_formed()
            &&& rest.geometry == flash.geometry
            &&& rest.poll_limit == flash.poll_limit
            &&& after.block_lock == block_lock
            &&& after.memory == chip.memory
            &&& after.well_formed()
            &&& !after.stuck
            &&& after.busy_reads == chip.busy_reads
            &&& block_lock == 0 ==> after.unlocked()
        }),
{
    let (started, first) = flash.initialize_started::<E>(block_lock);
    let script = FlashModel::bring_up_script(block_lock);
    assert(started.pending == script);
    assert(FlashModel::reset_script().len() == 2);
    assert(script.len() == 3);
    assert(script[0] == Step::Issue(Command::Reset));
    assert(script[1] == Step::AwaitReady(Check::Nothing));
    assert(script[2] == Step::Issue(Command::SetFeatures(FeatureRegister::BlockLock, block_lock)));
    lemma_issue_step::<E>(started, chip);
    let (second, resetting, action2) = conversed(started, chip, first, 1);
    assert(second.pending =~= script.skip(1));
    lemma_wait_ends::<E>(second, resetting);
    let ready = NandModel { busy_left: 0, ..resetting };
    lemma_status_shows_flags(
        ready.busy(),
        ready.write_enabled,
        ready.erase_failed,
        ready.program_failed,
    );
    let (third, reset, action3) = conversed(second, resetting, action2, resetting.busy_left + 1);
    assert(third.pending =~= script.skip(2));
    assert(third.pending.skip(1) =~= Seq::<Step>::empty());
    lemma_advanced_well_formed(
        second,
        EventView::<E>::Completed(seq![(Status { bits: ready.status() }).bits]),
    );
    lemma_issue_step::<E>(third, reset);
    lemma_conversed_split(started, chip, first, 1, resetting.busy_left + 1);
    lemma_conversed_split(started, chip, first, resetting.busy_left + 2, 1);
}

/// A wait of the driver for a chip that stays busy for good, or for as many status reads
/// as the driver allows, ends with "device not ready" at the last of these status reads.
pub proof fn lemma_busy_chip_wears_wait_out<E>(flash: FlashModel, chip: NandModel)
    requires
        flash.well_formed(),
        chip.well_formed(),
        chip.geometry == flash.geometry,
        !flash.idle(),
        flash.pending[0] is AwaitReady,
        chip.stuck || chip.busy_left >= flash.polls_left,
    ensures
        conversed(flash, chip, flash.exchange::<E>(), flash.polls_left).2 == ActionView::<
            E,
        >::Finish(Err(FlashError::DeviceNotReady)),
        conversed(flash, chip, flash.exchange::<E>(), flash.polls_left).0 == flash.abandoned(),
    decreases flash.polls_left,
{
    lemma_command_is_understood(flash, chip);
    lemma_status_shows_flags(
        chip.busy(),
        chip.write_enabled,
        chip.erase_failed,
        chip.program_failed,
    );
    let command = FlashModel::status_read();
    let write = command.spec_encode(flash.geometry, flash.payload);
    let (answering, answer) = chip.responded(write, 1);
    assert(answer =~= seq![chip.status()]);
    assert(seq![chip.status()][0] == chip.status());
    let (next, following) = flash.advanced::<E>(EventView::Completed(answer));
    if flash.polls_left > 1 {
        lemma_advanced_well_formed(flash, EventView::<E>::Completed(answer));
        assert(following == next.exchange::<E>());
        lemma_busy_chip_wears_wait_out::<E>(next, answering);
        assert(next.abandoned() == flash.abandoned());
    } else {
        assert(conversed(next, answering, following, 0) == (next, answering, following));
    }
}

/// An operation that is over stays as it ended, however many more exchanges the host is
/// asked for.
pub proof fn lemma_conversed_stays_finished<E>(
    flash: FlashModel,
    chip: NandModel,
    action: ActionView<E>,
    first: nat,
    later: nat,
)
    requires
        conversed(flash, chip, action, first).2 is Finish,
        first <= later,
    ensures
        conversed(flash, chip, action, later) == conversed(flash, chip, action, first),
{
    lemma_conversed_split(flash, chip, action, first, (later - first) as nat);
    let (rest, after, last) = conversed(flash, chip, action, first);
    lemma_conversed_finished(rest, after, last, (later - first) as nat);
}

/// An operation ends in one way only: whatever number of exchanges sees it over sees the
/// same end.
pub proof fn lemma_conversed_ends_once<E>(
    flash: FlashModel,
    chip: NandModel,
    action: ActionView<E>,
    one: nat,
    other: nat,
)
    requires
        conversed(flash, chip, action, one).2 is Finish,
        conversed(flash, chip, action, other).2 is Finish,
    ensures
        conversed(flash, chip, action, one) == conversed(flash, chip, action, other),
{
    if one <= other {
        lemma_conversed_stays_finished(flash, chip, action, one, other);
    } else {
        lemma_conversed_stays_finished(flash, chip, action, other, one);
    }
}

/// A program on a chip that stays busy for good ends with "device not ready": every
/// exchange took place, so the transport had nothing to report.
pub proof fn lemma_program_page_on_stuck_chip<E>(
    flash: FlashModel,
    chip: NandModel,
    row: RowAddress,
    data: Seq<u8>,
)
    requires
        flash.well_formed(),
        chip.well_formed(),
        chip.geometry == flash.geometry,
        flash.takes_data_operations(),
        chip.stuck,
        row.spec_is_valid(flash.geometry),
        data.len() <= flash.geometry.spec_page_span(),
    ensures
        ({
            let (started, first) = flash.program_page_started::<E>(row, data);
            let (rest, after, last) = conversed(started, chip, first, flash.poll_limit + 3);
            &&& last == ActionView::<E>::Finish(Err(FlashError::DeviceNotReady))
            &&& rest.idle()
        }),
{
    let (started, first) = flash.program_page_started::<E>(row, data);
    let script = FlashModel::program_script(row);
    assert(started.pending == script);
    assert(script.len() == 4);
    lemma_issue_step::<E>(started, chip);
    let (second, enabled, action2) = conversed(started, chip, first, 1);
    assert(second.pending =~= script.skip(1));
    lemma_issue_step::<E>(second, enabled);
    let (third, filled, action3) = conversed(second, enabled, action2, 1);
    assert(third.pending =~= script.skip(2));
    lemma_issue_step::<E>(third, filled);
    let (fourth, writing, action4) = conversed(third, filled, action3, 1);
    assert(fourth.pending =~= script.skip(3));
    lemma_after_well_formed(chip, Command::WriteEnable, data);
    lemma_after_well_formed(enabled, Command::ProgramLoad { column: 0 }, data);
    lemma_after_well_formed(filled, Command::ProgramExecute(row), data);
    lemma_busy_chip_wears_wait_out::<E>(fourth, writing);
    lemma_conversed_split(started, chip, first, 1, 1);
    lemma_conversed_split(started, chip, first, 2, 1);
    lemma_conversed_split(started, chip, first, 3, fourth.polls_left);
}

/// How an operation ended, as the last action of the driver says it.
pub open spec fn spec_finished<E>(outcome: Result<Output, FlashError<E>>) -> ActionView<E> {
    match outcome {
        Ok(output) => ActionView::Finish(Ok(output@)),
        Err(error) => ActionView::Finish(Err(error)),
    }
}

/// Every step of the driver either ends the operation or asks for the exchange of the
/// step that is then current, and brings the end of the operation nearer.
pub proof fn lemma_advanced_nears_end<E>(flash: FlashModel, event: EventView<E>)
    requires
        flash.well_formed(),
        !flash.idle(),
    ensures
        ({
            let (next, following) = flash.advanced(event);
            ||| following is Finish
            ||| {
                &&& !next.idle()
                &&& following == next.exchange::<E>()
                &&& (next.pending.len() < flash.pending.len() || (next.pending.len()
                    == flash.pending.len() && next.polls_left < flash.polls_left))
            }
        }),
{
}

/// Runs one operation of the driver against the mock chip: each exchange that the driver
/// asks for is carried out on the chip, until the driver says that the operation is over.
/// `first` is the action that the driver gave when the operation was started.
pub fn converse<Chip: FlashMemoryChip, E>(
    flash: &mut SpiFlashMemory<Chip>,
    chip: &mut MockNand,
    first: Action<E>,
) -> (outcome: Result<Output, FlashError<E>>)
    requires
        old(flash).well_formed(),
        old(chip).well_formed(),
        old(chip)@.geometry == old(flash)@.geometry,
        first@ is Exchange ==> !old(flash)@.idle() && first@ == old(flash)@.exchange::<E>(),
    ensures
        final(flash).well_formed(),
        final(chip).well_formed(),
        final(chip)@.geometry == final(flash)@.geometry,
        exists|count: nat|
            conversed(old(flash)@, old(chip)@, first@, count) == (
                final(flash)@,
                final(chip)@,
                spec_finished(outcome),
            ),
{
    let ghost flash_before = flash@;
    let ghost chip_before = chip@;
    let ghost first_action = first@;
    let ghost count: nat = 0;
    let mut action = first;
    loop
        invariant
            flash_before == old(flash)@,
            chip_before == old(chip)@,
            first_action == first@,
            flash.well_formed(),
            chip.well_formed(),
            chip@.geometry == flash@.geometry,
            action@ is Exchange ==> !flash@.idle() && action@ == flash@.exchange::<E>(),
            conversed(flash_before, chip_before, first_action, count) == (
                flash@,
                chip@,
                action@,
            ),
        decreases
                (if action@ is Exchange {
                    flash@.pending.len() + 1
                } else {
                    0
                }),
                flash@.polls_left,
    {
        let ghost shown = action@;
        match action {
            Action::Finish(outcome) => {
                proof {
                    assert(spec_finished(outcome) == shown);
                    assert(conversed(flash_before, chip_before, first_action, count) == (
                        flash@,
                        chip@,
                        spec_finished(outcome),
                    ));
                }
                return outcome;
            },
            Action::Exchange { write, read_length } => {
                let ghost flash_now = flash@;
                let ghost chip_now = chip@;
                let ghost asked = shown;
                proof {
                    lemma_command_is_understood(flash_now, chip_now);
                }
                let answer = chip.exchange(&write, read_length);
                let ghost event = EventView::<E>::Completed(answer@);
                proof {
                    lemma_advanced_nears_end(flash_now, event);
                    lemma_conversed_split(flash_before, chip_before, first_action, count, 1);
                    let (next, following) = flash_now.advanced(event);
                    assert(conversed(next, chip@, following, 0) == (next, chip@, following));
                    assert(conversed(flash_now, chip_now, asked, 1) == (next, chip@, following));
                    count = count + 1;
                }
                action = flash.advance(Event::Completed(answer));
            },
        }
    }
}

} // verus!
