//! The address codec: between byte addresses and the chip's native row addresses.
//!
//! A row address names one page by its LUN, plane, block and page. Commands carry it as
//! one number of three bytes, in which the page is the least significant component.

use vstd::arithmetic::div_mod::*;
use vstd::prelude::*;

use super::chip::ChipGeometry;

verus! {

/// The chip's native address of a page.
#[derive(Clone, Copy, Debug, PartialEq, Eq, Structural)]
pub struct RowAddress {
    /// The LUN the page is in.
    pub lun: u32,
    /// The plane of the LUN the page is in.
    pub plane: u32,
    /// The block of the plane the page is in.
    pub block: u32,
    /// The page of the block.
    pub page: u32,
}

impl RowAddress {
    /// The row address of the page that holds the byte at `address`: the quotient of the
    /// address by the page size, divided in turn by the pages per block, the blocks per
    /// plane and the planes per LUN. The remainders are the page, the block and the plane;
    /// what is left is the LUN.
    pub open spec fn spec_from_memory_address(geometry: ChipGeometry, address: int) -> RowAddress {
        let pages = address / (geometry.page_size as int);
        let blocks = pages / (geometry.pages_per_block as int);
        let planes = blocks / (geometry.blocks_per_plane as int);
        RowAddress {
            lun: (planes / (geometry.planes_per_lun as int)) as u32,
            plane: (planes % (geometry.planes_per_lun as int)) as u32,
            block: (blocks % (geometry.blocks_per_plane as int)) as u32,
            page: (pages % (geometry.pages_per_block as int)) as u32,
        }
    }

    /// A row address is valid for a chip when each component names something the chip has.
    pub open spec fn spec_is_valid(&self, geometry: ChipGeometry) -> bool {
        &&& self.lun < geometry.luns_per_device
        &&& self.plane < geometry.planes_per_lun
        &&& self.block < geometry.blocks_per_plane
        &&& self.page < geometry.pages_per_block
    }

    /// The index of the block the page is in, counted through planes and LUNs.
    pub open spec fn spec_block_index(&self, geometry: ChipGeometry) -> int {
        (self.lun * geometry.planes_per_lun + self.plane) * geometry.blocks_per_plane + self.block
    }

    /// The number that commands carry: the index of the page, counted through the whole
    /// chip.
    pub open spec fn spec_raw(&self, geometry: ChipGeometry) -> int {
        self.spec_block_index(geometry) * geometry.pages_per_block + self.page
    }

    /// The address of the first byte of the page.
    pub open spec fn spec_to_memory_address(&self, geometry: ChipGeometry) -> int {
        self.spec_raw(geometry) * geometry.page_size
    }

    /// The three bytes that carry the row address in a command, most significant first.
    pub open spec fn spec_to_bytes(&self, geometry: ChipGeometry) -> Seq<u8> {
        let raw = self.spec_raw(geometry);
        seq![((raw / 0x1_0000) % 0x100) as u8, ((raw / 0x100) % 0x100) as u8, (raw % 0x100) as u8]
    }

    /// A valid row address has a block index and a page index that the chip has.
    pub proof fn lemma_valid_bounds(&self, geometry: ChipGeometry)
        requires
            geometry.well_formed(),
            self.spec_is_valid(geometry),
        ensures
            0 <= self.spec_block_index(geometry) < geometry.spec_block_count(),
            0 <= self.spec_raw(geometry) < geometry.spec_page_count(),
            0 <= self.spec_to_memory_address(geometry) <= geometry.spec_memory_size()
                - geometry.page_size,
    {
        geometry.lemma_sizes_bounded();
        let l = geometry.luns_per_device as int;
        let p = geometry.planes_per_lun as int;
        let b = geometry.blocks_per_plane as int;
        let g = geometry.pages_per_block as int;
        let s = geometry.page_size as int;
        let lu = self.lun as int;
        let pl = self.plane as int;
        let bl = self.block as int;
        let pg = self.page as int;
        assert(0 <= lu * p + pl && lu * p + pl + 1 <= l * p) by (nonlinear_arith)
            requires
                0 <= lu < l,
                0 <= pl < p,
        ;
        let x = lu * p + pl;
        assert(0 <= x * b + bl && x * b + bl + 1 <= (l * p) * b) by (nonlinear_arith)
            requires
                0 <= x,
                x + 1 <= l * p,
                0 <= bl < b,
        ;
        assert((l * p) * b == l * (p * b)) by (nonlinear_arith);
        let y = x * b + bl;
        let n = l * (p * b);
        assert(0 <= y * g + pg && y * g + pg + 1 <= n * g) by (nonlinear_arith)
            requires
                0 <= y,
                y + 1 <= n,
                0 <= pg < g,
        ;
        let z = y * g + pg;
        assert(0 <= z * s && z * s + s <= (n * g) * s) by (nonlinear_arith)
            requires
                0 <= z,
                z + 1 <= n * g,
                s > 0,
        ;
    }

    /// The number that commands carry for the page of any address is the quotient of the
    /// address by the page size.
    pub proof fn lemma_raw_is_page_index(geometry: ChipGeometry, address: int)
        requires
            geometry.well_formed(),
            0 <= address <= u32::MAX,
        ensures
            Self::spec_from_memory_address(geometry, address).spec_raw(geometry) == address
                / (geometry.page_size as int),
            Self::spec_from_memory_address(geometry, address).spec_block_index(geometry)
                == address / geometry.spec_block_size(),
            Self::spec_from_memory_address(geometry, address).page < geometry.pages_per_block,
            Self::spec_from_memory_address(geometry, address).block < geometry.blocks_per_plane,
            Self::spec_from_memory_address(geometry, address).plane < geometry.planes_per_lun,
            0 <= address / (geometry.page_size as int) <= address,
    {
        let p = geometry.planes_per_lun as int;
        let b = geometry.blocks_per_plane as int;
        let g = geometry.pages_per_block as int;
        let s = geometry.page_size as int;
        let pages = address / s;
        let blocks = pages / g;
        let planes = blocks / b;
        lemma_div_pos_is_pos(address, s);
        lemma_div_is_ordered_by_denominator(address, 1, s);
        lemma_div_pos_is_pos(pages, g);
        lemma_div_is_ordered_by_denominator(pages, 1, g);
        lemma_div_pos_is_pos(blocks, b);
        lemma_div_is_ordered_by_denominator(blocks, 1, b);
        lemma_div_pos_is_pos(planes, p);
        lemma_div_is_ordered_by_denominator(planes, 1, p);
        lemma_mod_bound(pages, g);
        lemma_mod_bound(blocks, b);
        lemma_mod_bound(planes, p);
        lemma_fundamental_div_mod(pages, g);
        lemma_fundamental_div_mod(blocks, b);
        lemma_fundamental_div_mod(planes, p);
        assert((planes / p) * p == p * (planes / p)) by (nonlinear_arith);
        assert(planes * b == b * planes) by (nonlinear_arith);
        assert(blocks * g == g * blocks) by (nonlinear_arith);
        lemma_div_denominator(address, s, g);
        assert(s * g == g * s) by (nonlinear_arith);
    }

    /// The page of an address the chip has is a page the chip has, and it starts at the
    /// address less its offset inside the page.
    pub proof fn lemma_encode_decode(geometry: ChipGeometry, address: int)
        requires
            geometry.well_formed(),
            0 <= address < geometry.spec_memory_size(),
        ensures
            Self::spec_from_memory_address(geometry, address).spec_is_valid(geometry),
            Self::spec_from_memory_address(geometry, address).spec_to_memory_address(geometry)
                == address - address % (geometry.page_size as int),
    {
        geometry.lemma_sizes_bounded();
        Self::lemma_raw_is_page_index(geometry, address);
        let l = geometry.luns_per_device as int;
        let p = geometry.planes_per_lun as int;
        let b = geometry.blocks_per_plane as int;
        let g = geometry.pages_per_block as int;
        let s = geometry.page_size as int;
        let pages = address / s;
        let blocks = pages / g;
        let planes = blocks / b;
        assert(address < s * (g * (b * (p * l)))) by (nonlinear_arith)
            requires
                address < l * (p * (b * (g * s))),
        ;
        lemma_multiply_divide_lt(address, s, g * (b * (p * l)));
        lemma_multiply_divide_lt(pages, g, b * (p * l));
        lemma_multiply_divide_lt(blocks, b, p * l);
        lemma_multiply_divide_lt(planes, p, l);
        lemma_fundamental_div_mod(address, s);
        assert(s * pages == pages * s) by (nonlinear_arith);
    }

    /// The page that holds the first byte of a valid row address is that row address.
    pub proof fn lemma_decode_encode(&self, geometry: ChipGeometry)
        requires
            geometry.well_formed(),
            self.spec_is_valid(geometry),
        ensures
            Self::spec_from_memory_address(geometry, self.spec_to_memory_address(geometry))
                == *self,
            0 <= self.spec_to_memory_address(geometry) < geometry.spec_memory_size(),
    {
        self.lemma_valid_bounds(geometry);
        let p = geometry.planes_per_lun as int;
        let b = geometry.blocks_per_plane as int;
        let g = geometry.pages_per_block as int;
        let s = geometry.page_size as int;
        let raw = self.spec_raw(geometry);
        let index = self.spec_block_index(geometry);
        let unit = self.lun * p + self.plane;
        assert(raw * s == s * raw) by (nonlinear_arith);
        lemma_div_multiples_vanish(raw, s);
        lemma_fundamental_div_mod_converse(raw, g, index, self.page as int);
        lemma_fundamental_div_mod_converse(index, b, unit, self.block as int);
        lemma_fundamental_div_mod_converse(unit, p, self.lun as int, self.plane as int);
    }

    /// The row address that commands carry as the number `raw`, if the chip has such a
    /// page.
    pub open spec fn spec_from_raw(geometry: ChipGeometry, raw: int) -> Option<RowAddress> {
        if 0 <= raw < geometry.spec_page_count() {
            Some(Self::spec_from_memory_address(geometry, raw * geometry.page_size))
        } else {
            None
        }
    }

    /// A valid row address is found again from the number that commands carry for it, and
    /// from the three bytes that carry the number.
    pub proof fn lemma_raw_round_trip(&self, geometry: ChipGeometry)
        requires
            geometry.well_formed(),
            self.spec_is_valid(geometry),
        ensures
            Self::spec_from_raw(geometry, self.spec_raw(geometry)) == Some(*self),
            self.spec_to_bytes(geometry)[0] * 0x1_0000 + self.spec_to_bytes(geometry)[1] * 0x100
                + self.spec_to_bytes(geometry)[2] == self.spec_raw(geometry),
    {
        self.lemma_valid_bounds(geometry);
        self.lemma_decode_encode(geometry);
    }

    /// The row address that the number `raw` names is valid, and `raw` is its number.
    pub proof fn lemma_from_raw_is_valid(geometry: ChipGeometry, raw: int)
        requires
            geometry.well_formed(),
            0 <= raw < geometry.spec_page_count(),
        ensures
            Self::spec_from_raw(geometry, raw) matches Some(row) && row.spec_is_valid(geometry)
                && row.spec_raw(geometry) == raw,
    {
        geometry.lemma_sizes_bounded();
        let size = geometry.page_size as int;
        let count = geometry.spec_page_count();
        assert(0 <= raw * size && raw * size + size <= count * size) by (nonlinear_arith)
            requires
                0 <= raw < count,
                size > 0,
        ;
        Self::lemma_encode_decode(geometry, raw * size);
        Self::lemma_raw_is_page_index(geometry, raw * size);
        assert(raw * size == size * raw) by (nonlinear_arith);
        lemma_div_multiples_vanish(raw, size);
    }

    /// The row address that commands carry as the number `raw`, or `None` when the chip has
    /// no such page.
    pub fn from_raw(geometry: &ChipGeometry, raw: u32) -> (row: Option<RowAddress>)
        requires
            geometry.well_formed(),
        ensures
            row == Self::spec_from_raw(*geometry, raw as int),
            row matches Some(found) ==> found.spec_is_valid(*geometry) && found.spec_raw(*geometry)
                == raw,
    {
        if raw >= geometry.page_count() {
            return None;
        }
        proof {
            Self::lemma_from_raw_is_valid(*geometry, raw as int);
            geometry.lemma_sizes_bounded();
            let size = geometry.page_size as int;
            let count = geometry.spec_page_count();
            assert(raw * size + size <= count * size) by (nonlinear_arith)
                requires
                    0 <= raw < count,
                    size > 0,
            ;
        }
        Some(Self::from_memory_address(geometry, raw * geometry.page_size))
    }

    /// The row address of the first byte of a block that the chip has is the first page of
    /// that block.
    pub proof fn lemma_first_page_of_block(geometry: ChipGeometry, block_index: int)
        requires
            geometry.well_formed(),
            0 <= block_index < geometry.spec_block_count(),
        ensures
            ({
                let row = Self::spec_from_memory_address(
                    geometry,
                    geometry.spec_address_of_block_index(block_index),
                );
                &&& row.spec_is_valid(geometry)
                &&& row.page == 0
                &&& row.spec_block_index(geometry) == block_index
                &&& row.spec_raw(geometry) == block_index * geometry.pages_per_block
            }),
    {
        geometry.lemma_sizes_bounded();
        let size = geometry.page_size as int;
        let pages = geometry.pages_per_block as int;
        let blocks = geometry.spec_block_count();
        let address = geometry.spec_address_of_block_index(block_index);
        assert(0 <= block_index * (pages * size) && block_index * (pages * size) + pages * size
            <= blocks * (pages * size)) by (nonlinear_arith)
            requires
                0 <= block_index < blocks,
                pages * size > 0,
        ;
        Self::lemma_raw_is_page_index(geometry, address);
        Self::lemma_encode_decode(geometry, address);
        lemma_div_multiples_vanish(block_index, geometry.spec_block_size());
        assert(block_index * (pages * size) == geometry.spec_block_size() * block_index)
            by (nonlinear_arith)
            requires
                geometry.spec_block_size() == pages * size,
        ;
        assert(block_index * (pages * size) == size * (block_index * pages)) by (nonlinear_arith);
        lemma_div_multiples_vanish(block_index * pages, size);
    }

    /// Decomposes `address` into the row address of the page that holds it. The address
    /// is not held against the size of the chip: beyond the last byte the result names a
    /// LUN the chip does not have.
    pub fn from_memory_address(geometry: &ChipGeometry, address: u32) -> (row: RowAddress)
        requires
            geometry.well_formed(),
        ensures
            row == Self::spec_from_memory_address(*geometry, address as int),
            address < geometry.spec_memory_size() <==> row.spec_is_valid(*geometry),
    {
        let pages: u32 = address / geometry.page_size;
        let blocks: u32 = pages / geometry.pages_per_block;
        let planes: u32 = blocks / geometry.blocks_per_plane;
        let row = RowAddress {
            lun: planes / geometry.planes_per_lun,
            plane: planes % geometry.planes_per_lun,
            block: blocks % geometry.blocks_per_plane,
            page: pages % geometry.pages_per_block,
        };
        proof {
            Self::lemma_raw_is_page_index(*geometry, address as int);
            if address < geometry.spec_memory_size() {
                Self::lemma_encode_decode(*geometry, address as int);
            }
            if row.spec_is_valid(*geometry) {
                row.lemma_valid_bounds(*geometry);
                let s = geometry.page_size as int;
                let raw = row.spec_raw(*geometry);
                lemma_fundamental_div_mod(address as int, s);
                lemma_mod_bound(address as int, s);
                assert(s * raw == raw * s) by (nonlinear_arith);
            }
        }
        row
    }

    /// Tells whether the row address names a page that the chip has.
    pub fn is_valid(&self, geometry: &ChipGeometry) -> (valid: bool)
        ensures
            valid == self.spec_is_valid(*geometry),
    {
        self.lun < geometry.luns_per_device && self.plane < geometry.planes_per_lun && self.block
            < geometry.blocks_per_plane && self.page < geometry.pages_per_block
    }

    /// The row address of the first page of the block at `block_index`, or `None` when the
    /// chip has no such block.
    pub fn of_block(geometry: &ChipGeometry, block_index: u16) -> (row: Option<RowAddress>)
        requires
            geometry.well_formed(),
        ensures
            row is Some <==> block_index < geometry.spec_block_count(),
            row matches Some(r) ==> {
                &&& r == Self::spec_from_memory_address(
                    *geometry,
                    geometry.spec_address_of_block_index(block_index as int),
                )
                &&& r.spec_is_valid(*geometry)
                &&& r.page == 0
                &&& r.spec_block_index(*geometry) == block_index
            },
    {
        match geometry.address_of_block_index(block_index) {
            None => None,
            Some(address) => {
                let row = Self::from_memory_address(geometry, address);
                proof {
                    geometry.lemma_sizes_bounded();
                    Self::lemma_raw_is_page_index(*geometry, address as int);
                    let s = geometry.page_size as int;
                    let g = geometry.pages_per_block as int;
                    let i = block_index as int;
                    lemma_div_multiples_vanish(i, geometry.spec_block_size());
                    assert(i * (g * s) == geometry.spec_block_size() * i) by (nonlinear_arith)
                        requires
                            geometry.spec_block_size() == g * s,
                    ;
                    assert(i * (g * s) == s * (i * g)) by (nonlinear_arith);
                    lemma_div_multiples_vanish(i * g, s);
                }
                Some(row)
            },
        }
    }

    /// The index of the block the page is in.
    pub fn block_index(&self, geometry: &ChipGeometry) -> (index: u16)
        requires
            geometry.well_formed(),
            self.spec_is_valid(*geometry),
        ensures
            index == self.spec_block_index(*geometry),
    {
        proof {
            self.lemma_valid_bounds(*geometry);
            geometry.lemma_sizes_bounded();
            let p = geometry.planes_per_lun as int;
            let b = geometry.blocks_per_plane as int;
            let unit = self.lun * p + self.plane;
            assert(0 <= self.lun * p <= unit);
            assert(unit * b <= unit * b + self.block);
            assert(unit <= unit * b) by (nonlinear_arith)
                requires
                    unit >= 0,
                    b > 0,
            ;
            assert(0 <= unit * b) by (nonlinear_arith)
                requires
                    unit >= 0,
                    b > 0,
            ;
        }
        let unit: u32 = self.lun * geometry.planes_per_lun + self.plane;
        (unit * geometry.blocks_per_plane + self.block) as u16
    }

    /// The number that commands carry for the page.
    pub fn raw(&self, geometry: &ChipGeometry) -> (raw: u32)
        requires
            geometry.well_formed(),
            self.spec_is_valid(*geometry),
        ensures
            raw == self.spec_raw(*geometry),
            raw < geometry.spec_page_count(),
    {
        proof {
            self.lemma_valid_bounds(*geometry);
            let g = geometry.pages_per_block as int;
            let index = self.spec_block_index(*geometry);
            assert(0 <= index * g) by (nonlinear_arith)
                requires
                    index >= 0,
                    g > 0,
            ;
        }
        self.block_index(geometry) as u32 * geometry.pages_per_block + self.page
    }

    /// The address of the first byte of the page.
    pub fn to_memory_address(&self, geometry: &ChipGeometry) -> (address: u32)
        requires
            geometry.well_formed(),
            self.spec_is_valid(*geometry),
        ensures
            address == self.spec_to_memory_address(*geometry),
            address < geometry.spec_memory_size(),
    {
        proof {
            self.lemma_valid_bounds(*geometry);
            geometry.lemma_sizes_bounded();
        }
        self.raw(geometry) * geometry.page_size
    }

    /// The three bytes that carry the row address in a command, most significant first.
    pub fn to_bytes(&self, geometry: &ChipGeometry) -> (bytes: [u8; 3])
        requires
            geometry.well_formed(),
            self.spec_is_valid(*geometry),
        ensures
            bytes@ == self.spec_to_bytes(*geometry),
            bytes[0] * 0x1_0000 + bytes[1] * 0x100 + bytes[2] == self.spec_raw(*geometry),
    {
        let raw = self.raw(geometry);
        let high: u8 = ((raw / 0x1_0000) % 0x100) as u8;
        let middle: u8 = ((raw / 0x100) % 0x100) as u8;
        let low: u8 = (raw % 0x100) as u8;
        let bytes = [high, middle, low];
        assert(bytes@ =~= self.spec_to_bytes(*geometry));
        bytes
    }
}

} // verus!
