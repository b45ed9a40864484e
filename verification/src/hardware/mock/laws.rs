//! What holds of the driver of the flash memory on the mock chip, whatever state the two
//! are in: what was erased reads as erased, what was programmed reads back, and a block is
//! reported by its mark.

use vstd::prelude::*;

use super::conversation::{
    conversed,
    lemma_busy_chip_wears_wait_out,
    lemma_conversed_ends_once,
    lemma_conversed_split,
    lemma_erase_block_succeeds,
    lemma_issue_step,
    lemma_program_page_succeeds,
    lemma_read_from_cache_succeeds,
    lemma_read_page_to_cache_succeeds,
    lemma_scan_reports_mark_of_chip,
    lemma_status_shows_flags,
    lemma_wait_ends,
};
use super::nand::{spec_erased, NandModel};
use crate::drivers::spi_flash_memory::address::RowAddress;
use crate::drivers::spi_flash_memory::command::Command;
use crate::drivers::spi_flash_memory::protocol::{ActionView, FlashModel, OutputView, Step};

verus! {

/// The operation is over and has succeeded.
pub open spec fn succeeded<E>(action: ActionView<E>) -> bool {
    action matches ActionView::Finish(Ok(_))
}

/// The operation is over and has failed.
pub open spec fn failed<E>(action: ActionView<E>) -> bool {
    action matches ActionView::Finish(Err(_))
}

/// The chip gets ready within the status reads that the driver allows a wait.
pub open spec fn keeps_pace(flash: FlashModel, chip: NandModel) -> bool {
    !chip.stuck && chip.busy_reads < flash.poll_limit
}

/// A wait at which the chip does not keep pace with the driver fails.
proof fn lemma_wait_fails<E>(flash: FlashModel, chip: NandModel) -> (count: nat)
    requires
        flash.well_formed(),
        chip.well_formed(),
        chip.geometry == flash.geometry,
        !flash.idle(),
        flash.pending[0] is AwaitReady,
        flash.polls_left == flash.poll_limit,
        chip.busy_left == chip.busy_reads,
        !keeps_pace(flash, chip),
    ensures
        failed(conversed(flash, chip, flash.exchange::<E>(), count).2),
{
    lemma_busy_chip_wears_wait_out::<E>(flash, chip);
    flash.polls_left
}

/// An erase fails unless the driver takes it, the chip has the block, the chip is
/// unlocked, and the chip keeps pace with the driver.
pub proof fn lemma_erase_block_fails<E>(flash: FlashModel, chip: NandModel, row: RowAddress) -> (count:
    nat)
    requires
        flash.well_formed(),
        chip.well_formed(),
        chip.geometry == flash.geometry,
        !(flash.takes_data_operations() && row.spec_is_valid(flash.geometry) && chip.unlocked()
            && keeps_pace(flash, chip)),
    ensures
        failed(
            conversed(
                flash.erase_block_started::<E>(row).0,
                chip,
                flash.erase_block_started::<E>(row).1,
                count,
            ).2,
        ),
{
    let (started, first) = flash.erase_block_started::<E>(row);
    if !(flash.takes_data_operations() && row.spec_is_valid(flash.geometry)) {
        0
    } else {
        let script = FlashModel::erase_script(row);
        assert(started.pending == script);
        assert(script.len() == 3);
        lemma_issue_step::<E>(started, chip);
        let (second, enabled, action2) = conversed(started, chip, first, 1);
        assert(second.pending =~= script.skip(1));
        lemma_issue_step::<E>(second, enabled);
        let (third, erasing, action3) = conversed(second, enabled, action2, 1);
        assert(third.pending =~= script.skip(2));
        assert(third.pending.skip(1) =~= Seq::<Step>::empty());
        lemma_conversed_split(started, chip, first, 1, 1);
        if keeps_pace(flash, chip) {
            lemma_wait_ends::<E>(third, erasing);
            let ready = NandModel { busy_left: 0, ..erasing };
            lemma_status_shows_flags(
                ready.busy(),
                ready.write_enabled,
                ready.erase_failed,
                ready.program_failed,
            );
            lemma_conversed_split(started, chip, first, 2, erasing.busy_left + 1);
            erasing.busy_left + 3
        } else {
            let waited = lemma_wait_fails::<E>(third, erasing);
            lemma_conversed_split(started, chip, first, 2, waited);
            waited + 2
        }
    }
}

/// A program fails unless the driver takes it, the chip has the page and room for the
/// bytes, the chip is unlocked, and the chip keeps pace with the driver.
pub proof fn lemma_program_page_fails<E>(
    flash: FlashModel,
    chip: NandModel,
    row: RowAddress,
    data: Seq<u8>,
) -> (count: nat)
    requires
        flash.well_formed(),
        chip.well_formed(),
        chip.geometry == flash.geometry,
        !(flash.takes_data_operations() && row.spec_is_valid(flash.geometry) && data.len()
            <= flash.geometry.spec_page_span() && chip.unlocked() && keeps_pace(flash, chip)),
    ensures
        failed(
            conversed(
                flash.program_page_started::<E>(row, data).0,
                chip,
                flash.program_page_started::<E>(row, data).1,
                count,
            ).2,
        ),
{
    let (started, first) = flash.program_page_started::<E>(row, data);
    if !(flash.takes_data_operations() && row.spec_is_valid(flash.geometry) && data.len()
        <= flash.geometry.spec_page_span()) {
        0
    } else {
        let script = FlashModel::program_script(row);
        assert(started.pending == script);
        assert(script.len() == 4);
        lemma_issue_step::<E>(started, chip);
        let (second, enabled, action2) = conversed(started, chip, first, 1);
        assert(second.pending =~= script.skip(1));
        lemma_issue_step::<E>(second, enabled);
        let (third, filled, action3) = conversed(second, enabled, action2, 1);
        assert(third.pending =~= script.skip(2));
        lemma_issue_step::<E>(third, filled);
        let (fourth, writing, action4) = conversed(third, filled, action3, 1);
        assert(fourth.pending =~= script.skip(3));
        assert(fourth.pending.skip(1) =~= Seq::<Step>::empty());
        lemma_conversed_split(started, chip, first, 1, 1);
        lemma_conversed_split(started, chip, first, 2, 1);
        if keeps_pace(flash, chip) {
            lemma_wait_ends::<E>(fourth, writing);
            let ready = NandModel { busy_left: 0, ..writing };
            lemma_status_shows_flags(
                ready.busy(),
                ready.write_enabled,
                ready.erase_failed,
                ready.program_failed,
            );
            lemma_conversed_split(started, chip, first, 3, writing.busy_left + 1);
            writing.busy_left + 4
        } else {
            let waited = lemma_wait_fails::<E>(fourth, writing);
            lemma_conversed_split(started, chip, first, 3, waited);
            waited + 3
        }
    }
}

/// A load of a page into the cache fails unless the driver takes it, the chip has the
/// page, and the chip keeps pace with the driver.
pub proof fn lemma_read_page_to_cache_fails<E>(
    flash: FlashModel,
    chip: NandModel,
    row: RowAddress,
) -> (count: nat)
    requires
        flash.well_formed(),
        chip.well_formed(),
        chip.geometry == flash.geometry,
        !(flash.takes_data_operations() && row.spec_is_valid(flash.geometry) && keeps_pace(
            flash,
            chip,
        )),
    ensures
        failed(
            conversed(
                flash.read_page_to_cache_started::<E>(row).0,
                chip,
                flash.read_page_to_cache_started::<E>(row).1,
                count,
            ).2,
        ),
{
    let (started, first) = flash.read_page_to_cache_started::<E>(row);
    if !(flash.takes_data_operations() && row.spec_is_valid(flash.geometry)) {
        0
    } else {
        let script = FlashModel::load_script(row);
        assert(started.pending == script);
        assert(script.len() == 2);
        lemma_issue_step::<E>(started, chip);
        let (second, loading, action2) = conversed(started, chip, first, 1);
        assert(second.pending =~= script.skip(1));
        let waited = lemma_wait_fails::<E>(second, loading);
        lemma_conversed_split(started, chip, first, 1, waited);
        waited + 1
    }
}

/// A scan of a block fails unless the driver takes it, the chip has the block and a spare
/// area, and the chip keeps pace with the driver.
pub proof fn lemma_scan_fails<E>(flash: FlashModel, chip: NandModel, block_index: u16) -> (count:
    nat)
    requires
        flash.well_formed(),
        chip.well_formed(),
        chip.geometry == flash.geometry,
        !(flash.takes_data_operations() && block_index < flash.geometry.spec_block_count()
            && flash.geometry.page_ecc_size > 0 && keeps_pace(flash, chip)),
    ensures
        failed(
            conversed(
                flash.contains_bad_block_mark_started::<E>(block_index).0,
                chip,
                flash.contains_bad_block_mark_started::<E>(block_index).1,
                count,
            ).2,
        ),
{
    let (started, first) = flash.contains_bad_block_mark_started::<E>(block_index);
    if !(flash.takes_data_operations() && block_index < flash.geometry.spec_block_count()
        && flash.geometry.page_ecc_size > 0) {
        0
    } else {
        let geometry = flash.geometry;
        RowAddress::lemma_first_page_of_block(geometry, block_index as int);
        let row = RowAddress::spec_from_memory_address(
            geometry,
            geometry.spec_address_of_block_index(block_index as int),
        );
        let script = FlashModel::spare_script(geometry, row, 1);
        assert(started.pending == script);
        assert(script.len() == 3);
        assert(script[0] == Step::Issue(Command::PageRead(row)));
        assert(script[1] is AwaitReady);
        lemma_issue_step::<E>(started, chip);
        let (second, loading, action2) = conversed(started, chip, first, 1);
        assert(second.pending =~= script.skip(1));
        let waited = lemma_wait_fails::<E>(second, loading);
        lemma_conversed_split(started, chip, first, 1, waited);
        waited + 1
    }
}

/// Erasing a block and then reading any page within it yields the erased pattern: where
/// the erase has succeeded and the page was loaded, whatever is read from the cache is
/// all ones.
pub proof fn lemma_erased_block_reads_as_ones<E>(
    flash: FlashModel,
    chip: NandModel,
    row: RowAddress,
    page: RowAddress,
    column: u16,
    length: u16,
    erasing: nat,
    loading: nat,
    reading: nat,
)
    requires
        flash.well_formed(),
        chip.well_formed(),
        chip.geometry == flash.geometry,
        page.spec_block_index(flash.geometry) == row.spec_block_index(flash.geometry),
    ensures
        ({
            let (starting, first) = flash.erase_block_started::<E>(row);
            let (rest, erased, done) = conversed(starting, chip, first, erasing);
            let (fetching, second) = rest.read_page_to_cache_started::<E>(page);
            let (held, loaded, found) = conversed(fetching, erased, second, loading);
            let (asking, third) = held.read_from_cache_started::<E>(column, length);
            let (after, read, handed) = conversed(asking, loaded, third, reading);
            succeeded(done) && succeeded(found) && succeeded(handed) ==> handed == ActionView::<
                E,
            >::Finish(Ok(OutputView::Page { data: spec_erased(length as nat), valid: true }))
        }),
{
    let (starting, first) = flash.erase_block_started::<E>(row);
    let (rest, erased, done) = conversed(starting, chip, first, erasing);
    let (fetching, second) = rest.read_page_to_cache_started::<E>(page);
    let (held, loaded, found) = conversed(fetching, erased, second, loading);
    let (asking, third) = held.read_from_cache_started::<E>(column, length);
    let (after, read, handed) = conversed(asking, loaded, third, reading);
    if succeeded(done) && succeeded(found) && succeeded(handed) {
        if !(flash.takes_data_operations() && row.spec_is_valid(flash.geometry) && chip.unlocked()
            && keeps_pace(flash, chip)) {
            let count = lemma_erase_block_fails::<E>(flash, chip, row);
            lemma_conversed_ends_once(starting, chip, first, erasing, count);
        }
        lemma_erase_block_succeeds::<E>(flash, chip, row);
        lemma_conversed_ends_once(starting, chip, first, erasing, chip.busy_reads + 3);
        if !(rest.takes_data_operations() && page.spec_is_valid(rest.geometry) && keeps_pace(
            rest,
            erased,
        )) {
            let count = lemma_read_page_to_cache_fails::<E>(rest, erased, page);
            lemma_conversed_ends_once(fetching, erased, second, loading, count);
        }
        lemma_read_page_to_cache_succeeds::<E>(rest, erased, page);
        lemma_conversed_ends_once(fetching, erased, second, loading, erased.busy_reads + 2);
        if !(column + length <= held.geometry.spec_page_span()) {
            lemma_conversed_ends_once(asking, loaded, third, reading, 0);
        }
        lemma_read_from_cache_succeeds::<E>(held, loaded, column, length);
        lemma_conversed_ends_once(asking, loaded, third, reading, 1);
        page.lemma_valid_bounds(chip.geometry);
        let raw = page.spec_raw(chip.geometry);
        vstd::arithmetic::div_mod::lemma_fundamental_div_mod_converse(
            raw,
            chip.geometry.pages_per_block as int,
            page.spec_block_index(chip.geometry),
            page.page as int,
        );
        assert(erased.memory[raw] is None);
        assert(loaded.cache_bytes(column, length) =~= spec_erased(length as nat));
    }
}

/// Programming a page and then reading it back, with no erase between, returns exactly
/// the bytes that were programmed: where the program has succeeded and the page was
/// loaded, what is read from the start of the cache is what was programmed.
pub proof fn lemma_programmed_page_reads_back<E>(
    flash: FlashModel,
    chip: NandModel,
    row: RowAddress,
    data: Seq<u8>,
    programming: nat,
    loading: nat,
    reading: nat,
)
    requires
        flash.well_formed(),
        chip.well_formed(),
        chip.geometry == flash.geometry,
    ensures
        ({
            let (starting, first) = flash.program_page_started::<E>(row, data);
            let (rest, programmed, done) = conversed(starting, chip, first, programming);
            let (fetching, second) = rest.read_page_to_cache_started::<E>(row);
            let (held, loaded, found) = conversed(fetching, programmed, second, loading);
            let (asking, third) = held.read_from_cache_started::<E>(0, data.len() as u16);
            let (after, read, handed) = conversed(asking, loaded, third, reading);
            succeeded(done) && succeeded(found) && succeeded(handed) ==> handed == ActionView::<
                E,
            >::Finish(Ok(OutputView::Page { data, valid: true }))
        }),
{
    let (starting, first) = flash.program_page_started::<E>(row, data);
    let (rest, programmed, done) = conversed(starting, chip, first, programming);
    let (fetching, second) = rest.read_page_to_cache_started::<E>(row);
    let (held, loaded, found) = conversed(fetching, programmed, second, loading);
    let (asking, third) = held.read_from_cache_started::<E>(0, data.len() as u16);
    let (after, read, handed) = conversed(asking, loaded, third, reading);
    if succeeded(done) && succeeded(found) && succeeded(handed) {
        if !(flash.takes_data_operations() && row.spec_is_valid(flash.geometry) && data.len()
            <= flash.geometry.spec_page_span() && chip.unlocked() && keeps_pace(flash, chip)) {
            let count = lemma_program_page_fails::<E>(flash, chip, row, data);
            lemma_conversed_ends_once(starting, chip, first, programming, count);
        }
        lemma_program_page_succeeds::<E>(flash, chip, row, data);
        lemma_conversed_ends_once(starting, chip, first, programming, chip.busy_reads + 4);
        lemma_read_page_to_cache_succeeds::<E>(rest, programmed, row);
        lemma_conversed_ends_once(fetching, programmed, second, loading, chip.busy_reads + 2);
        lemma_read_from_cache_succeeds::<E>(held, loaded, 0, data.len() as u16);
        lemma_conversed_ends_once(asking, loaded, third, reading, 1);
        row.lemma_valid_bounds(chip.geometry);
        assert(loaded.cache == chip.loaded_cache(0, data));
        assert(loaded.cache_bytes(0, data.len() as u16) =~= data);
    }
}

/// A block whose mark byte, the first byte of the spare area of its first page, is not
/// zero is reported as bad by a scan, and a block whose mark byte is zero as good:
/// whenever the scan of a block succeeds, that is what it reports.
pub proof fn lemma_scan_reports_by_mark<E>(
    flash: FlashModel,
    chip: NandModel,
    block_index: u16,
    count: nat,
)
    requires
        flash.well_formed(),
        chip.well_formed(),
        chip.geometry == flash.geometry,
    ensures
        ({
            let (started, first) = flash.contains_bad_block_mark_started::<E>(block_index);
            let mark = chip.page(block_index * chip.geometry.pages_per_block)[chip.geometry.page_size as int];
            let (rest, after, last) = conversed(started, chip, first, count);
            succeeded(last) ==> last == ActionView::<E>::Finish(Ok(OutputView::BadBlock(mark != 0)))
        }),
{
    let (started, first) = flash.contains_bad_block_mark_started::<E>(block_index);
    let (rest, after, last) = conversed(started, chip, first, count);
    if succeeded(last) {
        if !(flash.takes_data_operations() && block_index < flash.geometry.spec_block_count()
            && flash.geometry.page_ecc_size > 0 && keeps_pace(flash, chip)) {
            let failing = lemma_scan_fails::<E>(flash, chip, block_index);
            lemma_conversed_ends_once(started, chip, first, count, failing);
        }
        lemma_scan_reports_mark_of_chip::<E>(flash, chip, block_index);
        lemma_conversed_ends_once(started, chip, first, count, chip.busy_reads + 3);
    }
}

} // verus!
