//! Chip descriptors: the geometry of a flash memory chip and the arithmetic derived from it.
//!
//! A chip is described at compile time by a type that implements [`FlashMemoryChip`]. The
//! run-time image of such a description is a [`ChipGeometry`], which the address codec and
//! the command driver work on.

use vstd::prelude::*;

use crate::utils::physical_quantities::frequency::Frequency;

verus! {

/// The clock polarity and phase a chip prefers on the SPI bus.
#[derive(Clone, Copy, Debug, PartialEq, Eq, Structural)]
pub enum SpiMode {
    /// Clock idles low, data is sampled on the first edge.
    Mode0,
    /// Clock idles low, data is sampled on the second edge.
    Mode1,
    /// Clock idles high, data is sampled on the first edge.
    Mode2,
    /// Clock idles high, data is sampled on the second edge.
    Mode3,
}

/// The identity a chip reports when asked for it.
#[derive(Clone, Copy, Debug, PartialEq, Eq, Structural)]
pub struct DeviceIdentity {
    pub manufacturer_id: u8,
    pub device_id: u8,
}

/// Largest row address the three address bytes of a command can carry, plus one.
pub const ROW_ADDRESS_LIMIT: u32 = 0x100_0000;

/// Largest number of blocks a block index can tell apart.
pub const BLOCK_INDEX_LIMIT: u32 = 0x1_0000;

/// Largest column a command can carry, plus one.
pub const COLUMN_LIMIT: u32 = 0x1_0000;

/// The constants of a chip model.
#[derive(Clone, Copy, Debug)]
pub struct ChipGeometry {
    /// Number of LUNs contained in the chip.
    pub luns_per_device: u32,
    /// Number of planes contained in a LUN.
    pub planes_per_lun: u32,
    /// Number of blocks contained in a plane.
    pub blocks_per_plane: u32,
    /// Number of pages contained in a block.
    pub pages_per_block: u32,
    /// Size in bytes of the data area of a page.
    pub page_size: u32,
    /// Size in bytes of the spare (ECC) area of a page.
    pub page_ecc_size: u32,
    /// Preferred SPI mode.
    pub spi_mode: SpiMode,
    /// Highest SPI clock the chip supports.
    pub max_clock_frequency: Frequency,
    /// Identity the chip is expected to report.
    pub identity: DeviceIdentity,
}

impl ChipGeometry {
    /// Size in bytes of the data area of a block.
    pub open spec fn spec_block_size(&self) -> int {
        self.pages_per_block * self.page_size
    }

    /// Size in bytes of the data area of a plane.
    pub open spec fn spec_plane_size(&self) -> int {
        self.blocks_per_plane * self.spec_block_size()
    }

    /// Size in bytes of the data area of a LUN.
    pub open spec fn spec_lun_size(&self) -> int {
        self.planes_per_lun * self.spec_plane_size()
    }

    /// Size in bytes of the data area of the whole chip.
    pub open spec fn spec_memory_size(&self) -> int {
        self.luns_per_device * self.spec_lun_size()
    }

    /// Number of blocks in the whole chip.
    pub open spec fn spec_block_count(&self) -> int {
        self.luns_per_device * (self.planes_per_lun * self.blocks_per_plane)
    }

    /// Number of pages in the whole chip.
    pub open spec fn spec_page_count(&self) -> int {
        self.spec_block_count() * self.pages_per_block
    }

    /// Size in bytes of a page with its spare area.
    pub open spec fn spec_page_span(&self) -> int {
        self.page_size + self.page_ecc_size
    }

    /// A geometry is well formed when every count is positive, every byte of the chip has
    /// a 32-bit address, every page has a row address of three bytes, every block has a
    /// 16-bit index and every byte of a page with its spare area, and the end of the spare
    /// area, has a 16-bit column.
    pub open spec fn well_formed(&self) -> bool {
        &&& self.luns_per_device > 0
        &&& self.planes_per_lun > 0
        &&& self.blocks_per_plane > 0
        &&& self.pages_per_block > 0
        &&& self.page_size > 0
        &&& self.spec_memory_size() <= u32::MAX
        &&& self.spec_page_count() <= ROW_ADDRESS_LIMIT
        &&& self.spec_block_count() <= BLOCK_INDEX_LIMIT
        &&& self.spec_page_span() < COLUMN_LIMIT
    }

    /// The block that holds the byte at `address`.
    pub open spec fn spec_block_index_of_address(&self, address: int) -> int {
        address / self.spec_block_size()
    }

    /// The address of the first byte of the block at `block_index`.
    pub open spec fn spec_address_of_block_index(&self, block_index: int) -> int {
        block_index * self.spec_block_size()
    }

    /// In a well-formed geometry every derived size is positive and at most the memory size,
    /// and the counts of blocks and pages are positive.
    pub proof fn lemma_sizes_bounded(&self)
        requires
            self.well_formed(),
        ensures
            0 < self.spec_block_size() <= self.spec_plane_size(),
            self.spec_plane_size() <= self.spec_lun_size(),
            self.spec_lun_size() <= self.spec_memory_size(),
            self.spec_memory_size() <= u32::MAX,
            self.spec_memory_size() == self.spec_block_count() * self.spec_block_size(),
            self.spec_memory_size() == self.spec_page_count() * self.page_size,
            0 < self.spec_block_count() <= self.spec_page_count(),
            0 < self.planes_per_lun * self.blocks_per_plane <= self.spec_block_count(),
            self.page_size <= self.spec_block_size(),
    {
        let l = self.luns_per_device as int;
        let p = self.planes_per_lun as int;
        let b = self.blocks_per_plane as int;
        let g = self.pages_per_block as int;
        let s = self.page_size as int;
        assert(0 < g * s && s <= g * s) by (nonlinear_arith)
            requires
                g > 0,
                s > 0,
        ;
        assert(g * s <= b * (g * s)) by (nonlinear_arith)
            requires
                b > 0,
                g * s > 0,
        ;
        assert(b * (g * s) <= p * (b * (g * s))) by (nonlinear_arith)
            requires
                p > 0,
                b > 0,
                g * s > 0,
        ;
        assert(p * (b * (g * s)) <= l * (p * (b * (g * s)))) by (nonlinear_arith)
            requires
                l > 0,
                p > 0,
                b > 0,
                g * s > 0,
        ;
        assert(l * (p * (b * (g * s))) == (l * (p * b)) * (g * s)) by (nonlinear_arith);
        assert(l * (p * (b * (g * s))) == ((l * (p * b)) * g) * s) by (nonlinear_arith);
        assert(0 < p * b <= l * (p * b)) by (nonlinear_arith)
            requires
                l > 0,
                p > 0,
                b > 0,
        ;
        assert(l * (p * b) <= (l * (p * b)) * g) by (nonlinear_arith)
            requires
                l * (p * b) > 0,
                g > 0,
        ;
    }

    /// Tells whether the geometry is well formed.
    pub fn is_well_formed(&self) -> (ok: bool)
        ensures
            ok == self.well_formed(),
    {
        if self.luns_per_device == 0 || self.planes_per_lun == 0 || self.blocks_per_plane == 0
            || self.pages_per_block == 0 || self.page_size == 0 {
            return false;
        }
        let l: u64 = self.luns_per_device as u64;
        let p: u64 = self.planes_per_lun as u64;
        let b: u64 = self.blocks_per_plane as u64;
        let g: u64 = self.pages_per_block as u64;
        let s: u64 = self.page_size as u64;
        let limit: u64 = BLOCK_INDEX_LIMIT as u64;
        proof {
            assert(0 < p * b <= 0xFFFF_FFFF * 0xFFFF_FFFF) by (nonlinear_arith)
                requires
                    0 < p <= 0xFFFF_FFFF,
                    0 < b <= 0xFFFF_FFFF,
            ;
        }
        let plane_blocks: u64 = p * b;
        if plane_blocks > limit {
            proof {
                assert(l * (p * b) >= p * b) by (nonlinear_arith)
                    requires
                        l > 0,
                        p * b > 0,
                ;
            }
            return false;
        }
        proof {
            assert(0 < l * plane_blocks <= 0xFFFF_FFFF * 0x1_0000) by (nonlinear_arith)
                requires
                    0 < l <= 0xFFFF_FFFF,
                    0 < plane_blocks <= 0x1_0000,
            ;
        }
        let blocks: u64 = l * plane_blocks;
        if blocks > limit {
            return false;
        }
        proof {
            assert(0 < blocks * g <= 0x1_0000 * 0xFFFF_FFFF) by (nonlinear_arith)
                requires
                    0 < blocks <= 0x1_0000,
                    0 < g <= 0xFFFF_FFFF,
            ;
        }
        let pages: u64 = blocks * g;
        if pages > ROW_ADDRESS_LIMIT as u64 {
            return false;
        }
        proof {
            assert(0 < pages * s <= 0x100_0000 * 0xFFFF_FFFF) by (nonlinear_arith)
                requires
                    0 < pages <= 0x100_0000,
                    0 < s <= 0xFFFF_FFFF,
            ;
            assert(l * (p * (b * (g * s))) == ((l * (p * b)) * g) * s) by (nonlinear_arith);
        }
        let bytes: u64 = pages * s;
        if bytes > u32::MAX as u64 {
            return false;
        }
        (self.page_size as u64 + self.page_ecc_size as u64) < (COLUMN_LIMIT as u64)
    }

    /// Tells whether `identity`, as a chip reported it, is the identity of this model.
    pub fn is_identity(&self, identity: DeviceIdentity) -> (same: bool)
        ensures
            same == (identity == self.identity),
    {
        identity.manufacturer_id == self.identity.manufacturer_id && identity.device_id
            == self.identity.device_id
    }

    /// Size in bytes of the data area of a block.
    pub fn block_size(&self) -> (size: u32)
        requires
            self.well_formed(),
        ensures
            size == self.spec_block_size(),
    {
        proof {
            self.lemma_sizes_bounded();
        }
        self.pages_per_block * self.page_size
    }

    /// Size in bytes of the data area of a plane.
    pub fn plane_size(&self) -> (size: u32)
        requires
            self.well_formed(),
        ensures
            size == self.spec_plane_size(),
    {
        proof {
            self.lemma_sizes_bounded();
        }
        self.blocks_per_plane * self.block_size()
    }

    /// Size in bytes of the data area of a LUN.
    pub fn lun_size(&self) -> (size: u32)
        requires
            self.well_formed(),
        ensures
            size == self.spec_lun_size(),
    {
        proof {
            self.lemma_sizes_bounded();
        }
        self.planes_per_lun * self.plane_size()
    }

    /// Size in bytes of the data area of the whole chip.
    pub fn memory_size(&self) -> (size: u32)
        requires
            self.well_formed(),
        ensures
            size == self.spec_memory_size(),
    {
        proof {
            self.lemma_sizes_bounded();
        }
        self.luns_per_device * self.lun_size()
    }

    /// Number of blocks in the whole chip.
    pub fn block_count(&self) -> (count: u32)
        requires
            self.well_formed(),
        ensures
            count == self.spec_block_count(),
    {
        proof {
            self.lemma_sizes_bounded();
        }
        self.luns_per_device * (self.planes_per_lun * self.blocks_per_plane)
    }

    /// Number of pages in the whole chip.
    pub fn page_count(&self) -> (count: u32)
        requires
            self.well_formed(),
        ensures
            count == self.spec_page_count(),
    {
        self.block_count() * self.pages_per_block
    }

    /// Size in bytes of a page with its spare area.
    pub fn page_span(&self) -> (size: u32)
        requires
            self.well_formed(),
        ensures
            size == self.spec_page_span(),
    {
        self.page_size + self.page_ecc_size
    }

    /// Returns the index of the block that contains the byte at `address`, or `None` when
    /// the chip has no byte at that address.
    pub fn block_index_of_address(&self, address: u32) -> (index: Option<u16>)
        requires
            self.well_formed(),
        ensures
            index is Some <==> address < self.spec_memory_size(),
            index matches Some(i) ==> i == self.spec_block_index_of_address(address as int) && i
                < self.spec_block_count(),
    {
        if address >= self.memory_size() {
            return None;
        }
        let block_size = self.block_size();
        proof {
            self.lemma_sizes_bounded();
        }
        let quotient: u32 = address / block_size;
        proof {
            let q = quotient as int;
            let n = self.spec_block_count();
            let bs = block_size as int;
            assert(q * bs <= address) by (nonlinear_arith)
                requires
                    q == address as int / bs,
                    bs > 0,
                    address >= 0,
            ;
            if q >= n {
                assert(q * bs >= n * bs) by (nonlinear_arith)
                    requires
                        q >= n,
                        bs > 0,
                ;
            }
        }
        Some(quotient as u16)
    }

    /// Returns the address of the first byte of the first page of the block at
    /// `block_index`, or `None` when the chip has no such block.
    pub fn address_of_block_index(&self, block_index: u16) -> (address: Option<u32>)
        requires
            self.well_formed(),
        ensures
            address is Some <==> block_index < self.spec_block_count(),
            address matches Some(a) ==> a == self.spec_address_of_block_index(block_index as int)
                && a < self.spec_memory_size(),
    {
        if block_index as u32 >= self.block_count() {
            return None;
        }
        let block_size = self.block_size();
        proof {
            self.lemma_sizes_bounded();
            let i = block_index as int;
            let n = self.spec_block_count();
            let bs = block_size as int;
            assert(i * bs + bs <= n * bs) by (nonlinear_arith)
                requires
                    0 <= i < n,
                    bs > 0,
            ;
        }
        Some(block_index as u32 * block_size)
    }
}

/// A type that describes a model of flash memory chip by its constants.
pub trait FlashMemoryChip {
    /// Number of LUNs contained in the chip.
    const LUNS_PER_DEVICE: u32;
    /// Number of planes contained in a LUN of the chip.
    const PLANES_PER_LUN: u32;
    /// Number of blocks contained in a plane of the chip.
    const BLOCKS_PER_PLANE: u32;
    /// Number of pages contained in a block of the chip.
    const PAGES_PER_BLOCK: u32;
    /// Size of the data area of a page.
    const PAGE_SIZE: u32;
    /// Size of the ECC area of a page.
    const PAGE_ECC_SIZE: u32;
    /// Preferred SPI mode.
    const SPI_MODE: SpiMode;
    /// Max supported frequency of the SPI clock, in hertz.
    const MAX_CLOCK_FREQUENCY_HERTZ: u32;
    /// Manufacturer ID the chip reports.
    const MANUFACTURER_ID: u8;
    /// Device ID the chip reports.
    const DEVICE_ID: u8;

    /// The value that bring-up writes to the block lock register once the chip is reset.
    const BLOCK_LOCK_AT_BRING_UP: u8;
}

/// The geometry that the constants of `Chip` describe.
pub open spec fn geometry_of<Chip: FlashMemoryChip>() -> ChipGeometry {
    ChipGeometry {
        luns_per_device: Chip::LUNS_PER_DEVICE,
        planes_per_lun: Chip::PLANES_PER_LUN,
        blocks_per_plane: Chip::BLOCKS_PER_PLANE,
        pages_per_block: Chip::PAGES_PER_BLOCK,
        page_size: Chip::PAGE_SIZE,
        page_ecc_size: Chip::PAGE_ECC_SIZE,
        spi_mode: Chip::SPI_MODE,
        max_clock_frequency: Frequency::spec_from_hertz(Chip::MAX_CLOCK_FREQUENCY_HERTZ),
        identity: DeviceIdentity {
            manufacturer_id: Chip::MANUFACTURER_ID,
            device_id: Chip::DEVICE_ID,
        },
    }
}

/// Extra functionality provided automatically to every type that implements
/// [`FlashMemoryChip`].
pub trait FlashMemoryChipExt: FlashMemoryChip + Sized {
    /// Size of the data area of a block.
    const BLOCK_SIZE: u32 = Self::PAGES_PER_BLOCK * Self::PAGE_SIZE;
    /// Size of the data area of a plane.
    const PLANE_SIZE: u32 = Self::BLOCKS_PER_PLANE * Self::BLOCK_SIZE;
    /// Size of the data area of a LUN.
    const LUN_SIZE: u32 = Self::PLANES_PER_LUN * Self::PLANE_SIZE;
    /// Size of the data area of the chip.
    const MEMORY_SIZE: u32 = Self::LUNS_PER_DEVICE * Self::LUN_SIZE;

    /// The constants of the chip as a value.
    fn geometry() -> (geometry: ChipGeometry)
        ensures
            geometry == geometry_of::<Self>(),
    {
        ChipGeometry {
            luns_per_device: Self::LUNS_PER_DEVICE,
            planes_per_lun: Self::PLANES_PER_LUN,
            blocks_per_plane: Self::BLOCKS_PER_PLANE,
            pages_per_block: Self::PAGES_PER_BLOCK,
            page_size: Self::PAGE_SIZE,
            page_ecc_size: Self::PAGE_ECC_SIZE,
            spi_mode: Self::SPI_MODE,
            max_clock_frequency: Frequency::from_hertz(Self::MAX_CLOCK_FREQUENCY_HERTZ),
            identity: DeviceIdentity {
                manufacturer_id: Self::MANUFACTURER_ID,
                device_id: Self::DEVICE_ID,
            },
        }
    }

    /// Returns the memory address of the first byte of the first page of the block at the
    /// provided `block_index`, which must be the index of a block of the chip.
    fn get_address_of_block_index(block_index: u16) -> (address: u32)
        requires
            geometry_of::<Self>().well_formed(),
            block_index < geometry_of::<Self>().spec_block_count(),
        ensures
            address == geometry_of::<Self>().spec_address_of_block_index(block_index as int),
    {
        proof {
            let geometry = geometry_of::<Self>();
            geometry.lemma_sizes_bounded();
            lemma_block_index_round_trip(geometry, block_index as int);
        }
        block_index as u32 * (Self::PAGES_PER_BLOCK * Self::PAGE_SIZE)
    }

    /// Returns the index of the block that contains the provided `address`. An address
    /// beyond the last block of the chip gives the quotient cut to 16 bits.
    fn get_block_index_of_address(address: u32) -> (block_index: u16)
        requires
            geometry_of::<Self>().well_formed(),
        ensures
            block_index == geometry_of::<Self>().spec_block_index_of_address(address as int)
                % 0x1_0000,
            address < geometry_of::<Self>().spec_memory_size() ==> block_index
                == geometry_of::<Self>().spec_block_index_of_address(address as int),
    {
        proof {
            let geometry = geometry_of::<Self>();
            geometry.lemma_sizes_bounded();
            if address < geometry.spec_memory_size() {
                lemma_address_resolves_to_block_start(geometry, address as int);
            }
        }
        let quotient: u32 = address / (Self::PAGES_PER_BLOCK * Self::PAGE_SIZE);
        (quotient % BLOCK_INDEX_LIMIT) as u16
    }
}

impl<Chip: FlashMemoryChip> FlashMemoryChipExt for Chip {

}

/// 2Gbit 3.3V NAND SPI flash memory chip.
#[derive(Clone, Copy, PartialEq, Eq, Structural, Debug)]
pub struct MT29F2G01ABAGDWB;

impl FlashMemoryChip for MT29F2G01ABAGDWB {
    const LUNS_PER_DEVICE: u32 = 1;
    const PLANES_PER_LUN: u32 = 2;
    const BLOCKS_PER_PLANE: u32 = 1024;
    const PAGES_PER_BLOCK: u32 = 64;
    const PAGE_SIZE: u32 = 2048;
    const PAGE_ECC_SIZE: u32 = 128;
    const SPI_MODE: SpiMode = SpiMode::Mode0;
    const MAX_CLOCK_FREQUENCY_HERTZ: u32 = 133_000_000;
    const MANUFACTURER_ID: u8 = 0x2C;
    const DEVICE_ID: u8 = 0x24;

    /// The chip ships with every block locked: bring-up clears the block lock register.
    const BLOCK_LOCK_AT_BRING_UP: u8 = 0x00;
}

/// The geometry of the 2Gbit chip is well formed, with 2048 blocks of 128 KiB.
pub proof fn lemma_mt29f2g01abagdwb_geometry()
    ensures
        geometry_of::<MT29F2G01ABAGDWB>().well_formed(),
        geometry_of::<MT29F2G01ABAGDWB>().spec_block_size() == 131072,
        geometry_of::<MT29F2G01ABAGDWB>().spec_plane_size() == 134217728,
        geometry_of::<MT29F2G01ABAGDWB>().spec_lun_size() == 268435456,
        geometry_of::<MT29F2G01ABAGDWB>().spec_memory_size() == 268435456,
        geometry_of::<MT29F2G01ABAGDWB>().spec_block_count() == 2048,
        geometry_of::<MT29F2G01ABAGDWB>().spec_page_count() == 131072,
        MT29F2G01ABAGDWB::BLOCK_SIZE == 131072,
        MT29F2G01ABAGDWB::PLANE_SIZE == 134217728,
        MT29F2G01ABAGDWB::LUN_SIZE == 268435456,
        MT29F2G01ABAGDWB::MEMORY_SIZE == 268435456,
        MT29F2G01ABAGDWB::BLOCK_LOCK_AT_BRING_UP == 0x00,
        geometry_of::<MT29F2G01ABAGDWB>().page_size == 2048,
        geometry_of::<MT29F2G01ABAGDWB>().page_ecc_size == 128,
        geometry_of::<MT29F2G01ABAGDWB>().pages_per_block == 64,
        geometry_of::<MT29F2G01ABAGDWB>().blocks_per_plane == 1024,
        geometry_of::<MT29F2G01ABAGDWB>().planes_per_lun == 2,
        geometry_of::<MT29F2G01ABAGDWB>().luns_per_device == 1,
        geometry_of::<MT29F2G01ABAGDWB>().identity == (DeviceIdentity {
            manufacturer_id: 0x2C,
            device_id: 0x24,
        }),
{
}

/// Converting an in-range address to its block and back gives the first byte of the block
/// that contains the address: the offset inside the block is dropped, and nothing else.
pub proof fn lemma_address_resolves_to_block_start(geometry: ChipGeometry, address: int)
    requires
        geometry.well_formed(),
        0 <= address < geometry.spec_memory_size(),
    ensures
        ({
            let start = geometry.spec_address_of_block_index(
                geometry.spec_block_index_of_address(address),
            );
            &&& start == address - address % geometry.spec_block_size()
            &&& start <= address < start + geometry.spec_block_size()
            &&& start % geometry.spec_block_size() == 0
            &&& 0 <= geometry.spec_block_index_of_address(address) < geometry.spec_block_count()
        }),
{
    geometry.lemma_sizes_bounded();
    let bs = geometry.spec_block_size();
    let n = geometry.spec_block_count();
    let q = address / bs;
    vstd::arithmetic::div_mod::lemma_fundamental_div_mod(address, bs);
    assert(bs * q == q * bs) by (nonlinear_arith);
    vstd::arithmetic::div_mod::lemma_mod_multiples_basic(q, bs);
    assert(0 <= q) by (nonlinear_arith)
        requires
            q == address / bs,
            address >= 0,
            bs > 0,
    ;
    if q >= n {
        assert(q * bs >= n * bs) by (nonlinear_arith)
            requires
                q >= n,
                bs > 0,
        ;
    }
}

/// Converting a block index to the address of the block and back gives the index.
pub proof fn lemma_block_index_round_trip(geometry: ChipGeometry, block_index: int)
    requires
        geometry.well_formed(),
        0 <= block_index < geometry.spec_block_count(),
    ensures
        geometry.spec_block_index_of_address(geometry.spec_address_of_block_index(block_index))
            == block_index,
        0 <= geometry.spec_address_of_block_index(block_index) < geometry.spec_memory_size(),
{
    geometry.lemma_sizes_bounded();
    let bs = geometry.spec_block_size();
    let n = geometry.spec_block_count();
    vstd::arithmetic::div_mod::lemma_div_multiples_vanish(block_index, bs);
    assert(0 <= block_index * bs && block_index * bs + bs <= n * bs) by (nonlinear_arith)
        requires
            0 <= block_index < n,
            bs > 0,
    ;
}

/// The memory size is exactly the product of the block size and the three counts above it.
pub proof fn lemma_memory_size_is_product(geometry: ChipGeometry)
    ensures
        geometry.spec_block_size() * geometry.blocks_per_plane * geometry.planes_per_lun
            * geometry.luns_per_device == geometry.spec_memory_size(),
{
    let l = geometry.luns_per_device as int;
    let p = geometry.planes_per_lun as int;
    let b = geometry.blocks_per_plane as int;
    let bs = geometry.spec_block_size();
    assert(bs * b * p * l == l * (p * (b * bs))) by (nonlinear_arith);
}

} // verus!
