//! A mock NAND flash chip: it takes the bytes of commands as a chip on an SPI bus does, and
//! keeps pages in memory.
//!
//! The mock is a test double, not a model of the physics of a chip: a page holds what was
//! programmed last, the block lock register locks all blocks or none, and an operation on
//! the array keeps the chip busy for a set number of status reads.

use vstd::prelude::*;

use crate::drivers::spi_flash_memory::address::RowAddress;
use crate::drivers::spi_flash_memory::chip::ChipGeometry;
use crate::drivers::spi_flash_memory::command::Command;
use crate::drivers::spi_flash_memory::feature::{
    FeatureRegister,
    STATUS_BUSY,
    STATUS_ERASE_FAILED,
    STATUS_PROGRAM_FAILED,
    STATUS_WRITE_ENABLED,
};

verus! {

/// The byte of an erased place.
pub const ERASED_BYTE: u8 = 0xFF;

/// The byte that the chip answers with where it has nothing to say.
pub const IDLE_BYTE: u8 = 0x00;

/// The value of the block lock register at power-on: every block is locked.
pub const BLOCK_LOCK_AT_POWER_ON: u8 = 0x7C;

/// `count` erased bytes.
pub open spec fn spec_erased(count: nat) -> Seq<u8> {
    Seq::new(count, |i: int| ERASED_BYTE)
}

/// The mask `mask` where `flag` holds, and no bit where it does not.
pub open spec fn spec_flag(flag: bool, mask: u8) -> u8 {
    if flag {
        mask
    } else {
        0
    }
}

/// The byte of the status register that shows the four flags.
pub open spec fn spec_status_bits(
    busy: bool,
    write_enabled: bool,
    erase_failed: bool,
    program_failed: bool,
) -> u8 {
    spec_flag(busy, STATUS_BUSY) | spec_flag(write_enabled, STATUS_WRITE_ENABLED) | spec_flag(
        erase_failed,
        STATUS_ERASE_FAILED,
    ) | spec_flag(program_failed, STATUS_PROGRAM_FAILED)
}

/// `answer` cut or filled up to `length` bytes.
pub open spec fn spec_fitted(answer: Seq<u8>, length: nat) -> Seq<u8> {
    Seq::new(
        length,
        |i: int|
            if i < answer.len() {
                answer[i]
            } else {
                IDLE_BYTE
            },
    )
}

/// What a mock chip holds.
pub struct NandModel {
    /// The chip.
    pub geometry: ChipGeometry,
    /// What each page holds, data and spare area, by the number that commands carry for
    /// the page. `None` is an erased page.
    pub memory: Seq<Option<Seq<u8>>>,
    /// The cache: one page with its spare area.
    pub cache: Seq<u8>,
    /// The block lock register. Any bit locks every block.
    pub block_lock: u8,
    /// The configuration register.
    pub configuration: u8,
    /// The write enable latch.
    pub write_enabled: bool,
    /// The last program failed.
    pub program_failed: bool,
    /// The last erase failed.
    pub erase_failed: bool,
    /// The number of status reads to come that find the chip busy.
    pub busy_left: nat,
    /// The number of status reads that find the chip busy after an operation on the array.
    pub busy_reads: nat,
    /// The chip never gets ready.
    pub stuck: bool,
}

impl NandModel {
    /// What holds of a mock chip at all times.
    pub open spec fn well_formed(&self) -> bool {
        &&& self.geometry.well_formed()
        &&& self.memory.len() == self.geometry.spec_page_count()
        &&& self.cache.len() == self.geometry.spec_page_span()
        &&& forall|raw: int|
            0 <= raw < self.memory.len() ==> (#[trigger] self.memory[raw] matches Some(content)
                ==> content.len() == self.geometry.spec_page_span())
        &&& self.busy_left <= self.busy_reads <= u32::MAX
    }

    /// A chip at power-on: every page is erased and every block is locked.
    pub open spec fn fresh(geometry: ChipGeometry, busy_reads: nat) -> NandModel {
        NandModel {
            geometry,
            memory: Seq::new(geometry.spec_page_count() as nat, |raw: int| None),
            cache: spec_erased(geometry.spec_page_span() as nat),
            block_lock: BLOCK_LOCK_AT_POWER_ON,
            configuration: 0,
            write_enabled: false,
            program_failed: false,
            erase_failed: false,
            busy_left: 0,
            busy_reads,
            stuck: false,
        }
    }

    /// What the page with the number `raw` holds.
    pub open spec fn page(&self, raw: int) -> Seq<u8> {
        match self.memory[raw] {
            Some(content) => content,
            None => spec_erased(self.geometry.spec_page_span() as nat),
        }
    }

    /// The blocks are open to program and erase.
    pub open spec fn unlocked(&self) -> bool {
        self.block_lock == 0
    }

    /// The chip is busy.
    pub open spec fn busy(&self) -> bool {
        self.stuck || self.busy_left > 0
    }

    /// The byte of the status register.
    pub open spec fn status(&self) -> u8 {
        spec_status_bits(self.busy(), self.write_enabled, self.erase_failed, self.program_failed)
    }

    /// The chip once an operation on the array has started.
    pub open spec fn occupied(self) -> NandModel {
        NandModel { busy_left: self.busy_reads, ..self }
    }

    /// The value of a feature register.
    pub open spec fn feature(&self, register: FeatureRegister) -> u8 {
        match register {
            FeatureRegister::BlockLock => self.block_lock,
            FeatureRegister::Configuration => self.configuration,
            FeatureRegister::Status => self.status(),
            FeatureRegister::DieSelect => 0,
        }
    }

    /// The chip once a feature register was read: a read of the status register uses up
    /// one of the status reads that find the chip busy.
    pub open spec fn after_get_features(self, register: FeatureRegister) -> NandModel {
        if register == FeatureRegister::Status && self.busy_left > 0 {
            NandModel { busy_left: (self.busy_left - 1) as nat, ..self }
        } else {
            self
        }
    }

    /// The chip once a feature register was set. The status register takes no value.
    pub open spec fn after_set_features(self, register: FeatureRegister, value: u8) -> NandModel {
        match register {
            FeatureRegister::BlockLock => NandModel { block_lock: value, ..self },
            FeatureRegister::Configuration => NandModel { configuration: value, ..self },
            _ => self,
        }
    }

    /// The chip once it was reset: the cache and the flags are cleared; the registers and
    /// the pages stay.
    pub open spec fn after_reset(self) -> NandModel {
        NandModel {
            cache: spec_erased(self.geometry.spec_page_span() as nat),
            write_enabled: false,
            program_failed: false,
            erase_failed: false,
            ..self
        }.occupied()
    }

    /// The chip once the page at `row` was loaded into the cache.
    pub open spec fn after_page_read(self, row: RowAddress) -> NandModel {
        NandModel { cache: self.page(row.spec_raw(self.geometry)), ..self }.occupied()
    }

    /// The cache once it was filled from `column` on with `payload`: the places before and
    /// behind the payload are erased, and what does not fit the cache is dropped.
    pub open spec fn loaded_cache(&self, column: u16, payload: Seq<u8>) -> Seq<u8> {
        Seq::new(
            self.cache.len(),
            |i: int|
                if column <= i < column + payload.len() {
                    payload[i - column]
                } else {
                    ERASED_BYTE
                },
        )
    }

    /// The bytes of the cache from `column` on; beyond the cache the chip has nothing to
    /// say.
    pub open spec fn cache_bytes(&self, column: u16, length: u16) -> Seq<u8> {
        Seq::new(
            length as nat,
            |i: int|
                if column + i < self.cache.len() {
                    self.cache[column + i]
                } else {
                    IDLE_BYTE
                },
        )
    }

    /// The chip takes a program or an erase: the write enable latch is set and the blocks
    /// are unlocked.
    pub open spec fn takes_writes(&self) -> bool {
        self.write_enabled && self.unlocked()
    }

    /// The chip once it was told to write the cache to the page at `row`. A chip that does
    /// not take writes flags a failed program and keeps the page.
    pub open spec fn after_program_execute(self, row: RowAddress) -> NandModel {
        if self.takes_writes() {
            NandModel {
                memory: self.memory.update(row.spec_raw(self.geometry), Some(self.cache)),
                program_failed: false,
                write_enabled: false,
                ..self
            }.occupied()
        } else {
            NandModel { program_failed: true, write_enabled: false, ..self }.occupied()
        }
    }

    /// The memory once the block at `block_index` was erased.
    pub open spec fn erased_memory(&self, block_index: int) -> Seq<Option<Seq<u8>>> {
        Seq::new(
            self.memory.len(),
            |raw: int|
                if raw / (self.geometry.pages_per_block as int) == block_index {
                    None
                } else {
                    self.memory[raw]
                },
        )
    }

    /// The chip once it was told to erase the block of the page at `row`. A chip that does
    /// not take writes flags a failed erase and keeps the block.
    pub open spec fn after_block_erase(self, row: RowAddress) -> NandModel {
        if self.takes_writes() {
            NandModel {
                memory: self.erased_memory(row.spec_block_index(self.geometry)),
                erase_failed: false,
                write_enabled: false,
                ..self
            }.occupied()
        } else {
            NandModel { erase_failed: true, write_enabled: false, ..self }.occupied()
        }
    }

    /// The chip once it has taken `command`, with `payload` behind a "program load".
    pub open spec fn after(self, command: Command, payload: Seq<u8>) -> NandModel {
        match command {
            Command::Reset => self.after_reset(),
            Command::ReadId => self,
            Command::GetFeatures(register) => self.after_get_features(register),
            Command::SetFeatures(register, value) => self.after_set_features(register, value),
            Command::WriteEnable => NandModel { write_enabled: true, ..self },
            Command::PageRead(row) => self.after_page_read(row),
            Command::ReadFromCache { column, length } => self,
            Command::ProgramLoad { column } => NandModel {
                cache: self.loaded_cache(column, payload),
                ..self
            },
            Command::ProgramExecute(row) => self.after_program_execute(row),
            Command::BlockErase(row) => self.after_block_erase(row),
        }
    }

    /// What the chip says in answer to `command`, before it is cut or filled up to what
    /// the host reads.
    pub open spec fn says(&self, command: Command) -> Seq<u8> {
        match command {
            Command::ReadId => seq![
                self.geometry.identity.manufacturer_id,
                self.geometry.identity.device_id,
            ],
            Command::GetFeatures(register) => seq![self.feature(register)],
            Command::ReadFromCache { column, length } => self.cache_bytes(column, length),
            _ => Seq::empty(),
        }
    }

    /// The chip and its answer once the host has written `bytes` and read `read_length`
    /// bytes in one exchange. Bytes that are no command leave the chip as it is.
    pub open spec fn responded(self, bytes: Seq<u8>, read_length: nat) -> (NandModel, Seq<u8>) {
        match Command::spec_decode(self.geometry, bytes, read_length) {
            Some(command) => (
                self.after(command, Command::spec_payload_of(bytes)),
                spec_fitted(self.says(command), read_length),
            ),
            None => (self, spec_fitted(Seq::empty(), read_length)),
        }
    }
}

/// `count` erased bytes.
fn erased_bytes(count: usize) -> (bytes: Vec<u8>)
    ensures
        bytes@ == spec_erased(count as nat),
{
    let mut bytes: Vec<u8> = Vec::new();
    let mut i: usize = 0;
    while i < count
        invariant
            i <= count,
            bytes@ == spec_erased(i as nat),
        decreases count - i,
    {
        bytes.push(ERASED_BYTE);
        i += 1;
        assert(bytes@ =~= spec_erased(i as nat));
    }
    bytes
}

/// A copy of `source`.
fn copy_bytes(source: &Vec<u8>) -> (copy: Vec<u8>)
    ensures
        copy@ == source@,
{
    let mut copy: Vec<u8> = Vec::new();
    let mut i: usize = 0;
    while i < source.len()
        invariant
            i <= source@.len(),
            copy@ == source@.subrange(0, i as int),
        decreases source@.len() - i,
    {
        copy.push(source[i]);
        i += 1;
        assert(copy@ =~= source@.subrange(0, i as int));
    }
    assert(source@.subrange(0, i as int) =~= source@);
    copy
}

/// `answer` cut or filled up to `length` bytes.
fn fitted(answer: &Vec<u8>, length: usize) -> (bytes: Vec<u8>)
    ensures
        bytes@ == spec_fitted(answer@, length as nat),
{
    let mut bytes: Vec<u8> = Vec::new();
    let mut i: usize = 0;
    while i < length
        invariant
            i <= length,
            bytes@ == spec_fitted(answer@, i as nat),
        decreases length - i,
    {
        if i < answer.len() {
            bytes.push(answer[i]);
        } else {
            bytes.push(IDLE_BYTE);
        }
        i += 1;
        assert(bytes@ =~= spec_fitted(answer@, i as nat));
    }
    bytes
}

/// The mask `mask` where `flag` holds, and no bit where it does not.
fn flag_bits(flag: bool, mask: u8) -> (bits: u8)
    ensures
        bits == spec_flag(flag, mask),
{
    if flag {
        mask
    } else {
        0
    }
}

/// A mock NAND flash chip.
pub struct MockNand {
    geometry: ChipGeometry,
    pages: Vec<Option<Vec<u8>>>,
    cache: Vec<u8>,
    block_lock: u8,
    configuration: u8,
    write_enabled: bool,
    program_failed: bool,
    erase_failed: bool,
    busy_left: u32,
    busy_reads: u32,
    stuck: bool,
}

/// What a page of the mock holds, as a sequence.
pub open spec fn spec_content(page: Option<Vec<u8>>) -> Option<Seq<u8>> {
    match page {
        Some(content) => Some(content@),
        None => None,
    }
}

impl View for MockNand {
    type V = NandModel;

    closed spec fn view(&self) -> NandModel {
        NandModel {
            geometry: self.geometry,
            memory: Seq::new(self.pages@.len(), |raw: int| spec_content(self.pages@[raw])),
            cache: self.cache@,
            block_lock: self.block_lock,
            configuration: self.configuration,
            write_enabled: self.write_enabled,
            program_failed: self.program_failed,
            erase_failed: self.erase_failed,
            busy_left: self.busy_left as nat,
            busy_reads: self.busy_reads as nat,
            stuck: self.stuck,
        }
    }
}

impl MockNand {
    /// What holds of the mock between calls.
    pub open spec fn well_formed(&self) -> bool {
        self@.well_formed()
    }

    /// A chip at power-on, which an operation on the array keeps busy for `busy_reads`
    /// status reads. `None` when `geometry` is not well formed.
    pub fn new(geometry: ChipGeometry, busy_reads: u32) -> (chip: Option<Self>)
        ensures
            chip is Some <==> geometry.well_formed(),
            chip matches Some(mock) ==> mock.well_formed() && mock@ == NandModel::fresh(
                geometry,
                busy_reads as nat,
            ),
    {
        if !geometry.is_well_formed() {
            return None;
        }
        let count = geometry.page_count();
        let mut pages: Vec<Option<Vec<u8>>> = Vec::new();
        let mut i: u32 = 0;
        while i < count
            invariant
                i <= count,
                pages@.len() == i,
                forall|raw: int| 0 <= raw < i ==> #[trigger] pages@[raw] is None,
            decreases count - i,
        {
            pages.push(None);
            i += 1;
        }
        let cache = erased_bytes(geometry.page_span() as usize);
        let mock = MockNand {
            geometry,
            pages,
            cache,
            block_lock: BLOCK_LOCK_AT_POWER_ON,
            configuration: 0,
            write_enabled: false,
            program_failed: false,
            erase_failed: false,
            busy_left: 0,
            busy_reads,
            stuck: false,
        };
        assert(mock@.memory =~= NandModel::fresh(geometry, busy_reads as nat).memory);
        Some(mock)
    }

    /// Makes the chip stay busy for good, or lets it get ready again.
    pub fn set_stuck(&mut self, stuck: bool)
        ensures
            final(self)@ == (NandModel { stuck, ..old(self)@ }),
    {
        self.stuck = stuck;
    }

    /// Puts `content` into the page at `row` as if it had been there from the factory:
    /// the start of the page holds `content`, as far as the page with its spare area has
    /// room, and the rest of it is erased. `false`, and no change, when the chip has no
    /// such page.
    pub fn set_page(&mut self, row: RowAddress, content: &Vec<u8>) -> (done: bool)
        requires
            old(self).well_formed(),
        ensures
            final(self).well_formed(),
            done == row.spec_is_valid(old(self)@.geometry),
            done ==> final(self)@ == (NandModel {
                memory: old(self)@.memory.update(
                    row.spec_raw(old(self)@.geometry),
                    Some(old(self)@.loaded_cache(0, content@)),
                ),
                ..old(self)@
            }),
            !done ==> final(self)@ == old(self)@,
    {
        if !row.is_valid(&self.geometry) {
            return false;
        }
        let raw = row.raw(&self.geometry) as usize;
        let page = self.filled_page(0, content, 0);
        assert(content@.skip(0) =~= content@);
        let ghost before = self@;
        self.pages.set(raw, Some(page));
        assert(self@.memory =~= before.memory.update(raw as int, Some(page@)));
        true
    }

    /// What the page at `row` holds, data and spare area, or `None` when the chip has no
    /// such page.
    pub fn page(&self, row: RowAddress) -> (content: Option<Vec<u8>>)
        requires
            self.well_formed(),
        ensures
            content is Some <==> row.spec_is_valid(self@.geometry),
            content matches Some(bytes) ==> bytes@ == self@.page(row.spec_raw(self@.geometry)),
    {
        if !row.is_valid(&self.geometry) {
            return None;
        }
        let raw = row.raw(&self.geometry) as usize;
        Some(self.content_of(raw))
    }

    /// Tells whether the blocks are open to program and erase.
    pub fn is_unlocked(&self) -> (unlocked: bool)
        ensures
            unlocked == self@.unlocked(),
    {
        self.block_lock == 0
    }

    /// A copy of what the page with the number `raw` holds.
    fn content_of(&self, raw: usize) -> (content: Vec<u8>)
        requires
            self.well_formed(),
            raw < self@.memory.len(),
        ensures
            content@ == self@.page(raw as int),
    {
        assert(self@.memory[raw as int] == spec_content(self.pages@[raw as int]));
        match &self.pages[raw] {
            Some(content) => copy_bytes(content),
            None => erased_bytes(self.geometry.page_span() as usize),
        }
    }

    /// A page with its spare area that holds, from `column` on, the bytes of `source` from
    /// the place `skip` on, and is erased elsewhere.
    fn filled_page(&self, column: u16, source: &Vec<u8>, skip: usize) -> (page: Vec<u8>)
        requires
            self.well_formed(),
            skip <= source@.len(),
        ensures
            page@ == self@.loaded_cache(column, source@.skip(skip as int)),
            page@.len() == self@.geometry.spec_page_span(),
    {
        let span = self.geometry.page_span() as usize;
        let length = source.len() - skip;
        let ghost payload = source@.skip(skip as int);
        let mut page: Vec<u8> = Vec::new();
        let mut i: usize = 0;
        while i < span
            invariant
                i <= span,
                span == self@.cache.len(),
                span <= 0xFFFF,
                skip <= source@.len(),
                length == source@.len() - skip,
                skip + length <= usize::MAX,
                payload == source@.skip(skip as int),
                page@.len() == i,
                forall|k: int|
                    0 <= k < i ==> #[trigger] page@[k] == self@.loaded_cache(column, payload)[k],
            decreases span - i,
        {
            if i >= column as usize && i - (column as usize) < length {
                page.push(source[skip + (i - column as usize)]);
            } else {
                page.push(ERASED_BYTE);
            }
            i += 1;
        }
        assert(page@ =~= self@.loaded_cache(column, payload));
        page
    }

    /// The byte of the status register.
    fn status(&self) -> (bits: u8)
        ensures
            bits == self@.status(),
    {
        let busy = self.stuck || self.busy_left > 0;
        flag_bits(busy, STATUS_BUSY) | flag_bits(self.write_enabled, STATUS_WRITE_ENABLED)
            | flag_bits(self.erase_failed, STATUS_ERASE_FAILED) | flag_bits(
            self.program_failed,
            STATUS_PROGRAM_FAILED,
        )
    }

    /// The bytes of the cache from `column` on.
    fn cache_bytes(&self, column: u16, length: u16) -> (bytes: Vec<u8>)
        ensures
            bytes@ == self@.cache_bytes(column, length),
    {
        let mut bytes: Vec<u8> = Vec::new();
        let mut i: usize = 0;
        while i < length as usize
            invariant
                i <= length,
                bytes@.len() == i,
                forall|k: int|
                    0 <= k < i ==> #[trigger] bytes@[k] == self@.cache_bytes(column, length)[k],
            decreases length - i,
        {
            if column as usize + i < self.cache.len() {
                bytes.push(self.cache[column as usize + i]);
            } else {
                bytes.push(IDLE_BYTE);
            }
            i += 1;
        }
        assert(bytes@ =~= self@.cache_bytes(column, length));
        bytes
    }

    /// Erases the block at `block_index`.
    fn erase(&mut self, block_index: u16)
        requires
            old(self).well_formed(),
            block_index < old(self)@.geometry.spec_block_count(),
        ensures
            final(self).well_formed(),
            final(self)@ == (NandModel {
                memory: old(self)@.erased_memory(block_index as int),
                ..old(self)@
            }),
    {
        let ghost before = self@;
        let per_block = self.geometry.pages_per_block;
        proof {
            self.geometry.lemma_sizes_bounded();
            let index = block_index as int;
            let pages = per_block as int;
            let blocks = self.geometry.spec_block_count();
            assert(0 <= index * pages && index * pages + pages <= blocks * pages)
                by (nonlinear_arith)
                requires
                    0 <= index < blocks,
                    pages > 0,
            ;
        }
        let first: u32 = block_index as u32 * per_block;
        let mut k: u32 = 0;
        while k < per_block
            invariant
                k <= per_block,
                per_block == before.geometry.pages_per_block,
                per_block > 0,
                first == block_index * per_block,
                first + per_block <= before.memory.len(),
                before.memory.len() <= 0x100_0000,
                self.pages@.len() == before.memory.len(),
                self@ == (NandModel { memory: self@.memory, ..before }),
                forall|raw: int|
                    first <= raw < first + k ==> #[trigger] self@.memory[raw] is None,
                forall|raw: int|
                    0 <= raw < before.memory.len() && !(first <= raw < first + k)
                        ==> #[trigger] self@.memory[raw] == before.memory[raw],
            decreases per_block - k,
        {
            let ghost earlier = self@.memory;
            self.pages.set((first + k) as usize, None);
            assert(self@.memory =~= earlier.update(first + k, None));
            k += 1;
        }
        proof {
            let pages = per_block as int;
            let index = block_index as int;
            let erased = before.erased_memory(index);
            assert forall|raw: int| 0 <= raw < before.memory.len() implies #[trigger] self@.memory[raw]
                == erased[raw] by {
                vstd::arithmetic::div_mod::lemma_fundamental_div_mod(raw, pages);
                vstd::arithmetic::div_mod::lemma_mod_bound(raw, pages);
                let quotient = raw / pages;
                assert(pages * quotient == quotient * pages) by (nonlinear_arith);
                if quotient < index {
                    assert(quotient * pages + pages <= index * pages) by (nonlinear_arith)
                        requires
                            quotient < index,
                            pages > 0,
                    ;
                }
                if quotient > index {
                    assert(quotient * pages >= index * pages + pages) by (nonlinear_arith)
                        requires
                            quotient > index,
                            pages > 0,
                    ;
                }
            }
            assert(self@.memory =~= erased);
        }
    }

    /// Takes the bytes that the host writes in one exchange, and answers with the
    /// `read_length` bytes that the host reads in it.
    pub fn exchange(&mut self, write: &Vec<u8>, read_length: usize) -> (answer: Vec<u8>)
        requires
            old(self).well_formed(),
        ensures
            final(self).well_formed(),
            (final(self)@, answer@) == old(self)@.responded(write@, read_length as nat),
    {
        let ghost before = self@;
        let said: Vec<u8> = match Command::decode(&self.geometry, write, read_length) {
            None => Vec::new(),
            Some(command) => {
                let mut said: Vec<u8> = Vec::new();
                match command {
                    Command::Reset => {
                        self.cache = erased_bytes(self.geometry.page_span() as usize);
                        self.write_enabled = false;
                        self.program_failed = false;
                        self.erase_failed = false;
                        self.busy_left = self.busy_reads;
                    },
                    Command::ReadId => {
                        said.push(self.geometry.identity.manufacturer_id);
                        said.push(self.geometry.identity.device_id);
                    },
                    Command::GetFeatures(register) => {
                        match register {
                            FeatureRegister::BlockLock => {
                                said.push(self.block_lock);
                            },
                            FeatureRegister::Configuration => {
                                said.push(self.configuration);
                            },
                            FeatureRegister::Status => {
                                said.push(self.status());
                                if self.busy_left > 0 {
                                    self.busy_left = self.busy_left - 1;
                                }
                            },
                            FeatureRegister::DieSelect => {
                                said.push(0);
                            },
                        }
                    },
                    Command::SetFeatures(register, value) => {
                        match register {
                            FeatureRegister::BlockLock => {
                                self.block_lock = value;
                            },
                            FeatureRegister::Configuration => {
                                self.configuration = value;
                            },
                            _ => {},
                        }
                    },
                    Command::WriteEnable => {
                        self.write_enabled = true;
                    },
                    Command::PageRead(row) => {
                        proof {
                            row.lemma_valid_bounds(self@.geometry);
                        }
                        let raw = row.raw(&self.geometry) as usize;
                        self.cache = self.content_of(raw);
                        self.busy_left = self.busy_reads;
                    },
                    Command::ReadFromCache { column, length } => {
                        said = self.cache_bytes(column, length);
                    },
                    Command::ProgramLoad { column } => {
                        self.cache = self.filled_page(column, write, 3);
                    },
                    Command::ProgramExecute(row) => {
                        if self.write_enabled && self.block_lock == 0 {
                            proof {
                                row.lemma_valid_bounds(self@.geometry);
                            }
                            let raw = row.raw(&self.geometry) as usize;
                            let content = copy_bytes(&self.cache);
                            let ghost earlier = self@.memory;
                            self.pages.set(raw, Some(content));
                            assert(self@.memory =~= earlier.update(raw as int, Some(content@)));
                            self.program_failed = false;
                        } else {
                            self.program_failed = true;
                        }
                        self.write_enabled = false;
                        self.busy_left = self.busy_reads;
                    },
                    Command::BlockErase(row) => {
                        if self.write_enabled && self.block_lock == 0 {
                            proof {
                                row.lemma_valid_bounds(self@.geometry);
                            }
                            let index = row.block_index(&self.geometry);
                            self.erase(index);
                            self.erase_failed = false;
                        } else {
                            self.erase_failed = true;
                        }
                        self.write_enabled = false;
                        self.busy_left = self.busy_reads;
                    },
                }
                assert(self@ == before.after(command, Command::spec_payload_of(write@)));
                assert(said@ =~= before.says(command));
                said
            },
        };
        fitted(&said, read_length)
    }
}

} // verus!
