use a13c_embedded::drivers::spi_flash_memory::address::RowAddress;
use a13c_embedded::drivers::spi_flash_memory::chip::{
    ChipGeometry, DeviceIdentity, FlashMemoryChip, FlashMemoryChipExt, SpiMode, MT29F2G01ABAGDWB,
};
use a13c_embedded::utils::physical_quantities::frequency::Frequency;

fn geometry_with(luns: u32, planes: u32, blocks: u32, pages: u32, page_size: u32, spare: u32) -> ChipGeometry {
    ChipGeometry {
        luns_per_device: luns,
        planes_per_lun: planes,
        blocks_per_plane: blocks,
        pages_per_block: pages,
        page_size,
        page_ecc_size: spare,
        spi_mode: SpiMode::Mode0,
        max_clock_frequency: Frequency::from_hertz(1_000_000),
        identity: DeviceIdentity { manufacturer_id: 1, device_id: 2 },
    }
}

#[test]
fn reference_chip_constants() {
    assert_eq!(MT29F2G01ABAGDWB::LUNS_PER_DEVICE, 1);
    assert_eq!(MT29F2G01ABAGDWB::PLANES_PER_LUN, 2);
    assert_eq!(MT29F2G01ABAGDWB::BLOCKS_PER_PLANE, 1024);
    assert_eq!(MT29F2G01ABAGDWB::PAGES_PER_BLOCK, 64);
    assert_eq!(MT29F2G01ABAGDWB::PAGE_SIZE, 2048);
    assert_eq!(MT29F2G01ABAGDWB::PAGE_ECC_SIZE, 128);
    assert_eq!(MT29F2G01ABAGDWB::SPI_MODE, SpiMode::Mode0);
    assert_eq!(MT29F2G01ABAGDWB::MAX_CLOCK_FREQUENCY_HERTZ, 133_000_000);
    assert_eq!(MT29F2G01ABAGDWB::MANUFACTURER_ID, 0x2C);
    assert_eq!(MT29F2G01ABAGDWB::DEVICE_ID, 0x24);
    assert_eq!(MT29F2G01ABAGDWB::BLOCK_LOCK_AT_BRING_UP, 0x00);
}

#[test]
fn reference_chip_derived_sizes() {
    assert_eq!(MT29F2G01ABAGDWB::BLOCK_SIZE, 131072);
    assert_eq!(MT29F2G01ABAGDWB::PLANE_SIZE, 134217728);
    assert_eq!(MT29F2G01ABAGDWB::LUN_SIZE, 268435456);
    assert_eq!(MT29F2G01ABAGDWB::MEMORY_SIZE, 268435456);
    let geometry = MT29F2G01ABAGDWB::geometry();
    assert!(geometry.is_well_formed());
    assert_eq!(geometry.block_size(), 131072);
    assert_eq!(geometry.plane_size(), 134217728);
    assert_eq!(geometry.lun_size(), 268435456);
    assert_eq!(geometry.memory_size(), 268435456);
    assert_eq!(geometry.block_count(), 2048);
    assert_eq!(geometry.page_count(), 131072);
    assert_eq!(geometry.page_span(), 2176);
    assert_eq!(geometry.max_clock_frequency.as_hertz(), 133_000_000);
    assert_eq!(geometry.identity, DeviceIdentity { manufacturer_id: 0x2C, device_id: 0x24 });
}

#[test]
fn memory_size_is_product_of_block_size_and_counts() {
    assert_eq!(
        MT29F2G01ABAGDWB::BLOCK_SIZE
            * MT29F2G01ABAGDWB::BLOCKS_PER_PLANE
            * MT29F2G01ABAGDWB::PLANES_PER_LUN
            * MT29F2G01ABAGDWB::LUNS_PER_DEVICE,
        MT29F2G01ABAGDWB::MEMORY_SIZE
    );
    let geometry = geometry_with(2, 3, 5, 7, 16, 4);
    assert!(geometry.is_well_formed());
    assert_eq!(geometry.block_size() * 5 * 3 * 2, geometry.memory_size());
    assert_eq!(geometry.memory_size(), 3360);
}

#[test]
fn block_index_of_address_on_reference_chip() {
    assert_eq!(MT29F2G01ABAGDWB::get_block_index_of_address(262144), 2);
    assert_eq!(MT29F2G01ABAGDWB::get_block_index_of_address(0), 0);
    assert_eq!(MT29F2G01ABAGDWB::get_block_index_of_address(131071), 0);
    assert_eq!(MT29F2G01ABAGDWB::get_block_index_of_address(131072), 1);
    assert_eq!(MT29F2G01ABAGDWB::get_block_index_of_address(268435455), 2047);
    let geometry = MT29F2G01ABAGDWB::geometry();
    assert_eq!(geometry.block_index_of_address(262144), Some(2));
    assert_eq!(geometry.block_index_of_address(268435455), Some(2047));
    assert_eq!(geometry.block_index_of_address(268435456), None);
    assert_eq!(geometry.block_index_of_address(u32::MAX), None);
}

#[test]
fn address_of_block_index_on_reference_chip() {
    assert_eq!(MT29F2G01ABAGDWB::get_address_of_block_index(0), 0);
    assert_eq!(MT29F2G01ABAGDWB::get_address_of_block_index(2), 262144);
    assert_eq!(MT29F2G01ABAGDWB::get_address_of_block_index(2047), 268304384);
    let geometry = MT29F2G01ABAGDWB::geometry();
    assert_eq!(geometry.address_of_block_index(2047), Some(268304384));
    assert_eq!(geometry.address_of_block_index(2048), None);
    assert_eq!(geometry.address_of_block_index(u16::MAX), None);
}

#[test]
fn address_resolves_to_first_byte_of_its_block() {
    let geometry = MT29F2G01ABAGDWB::geometry();
    for address in [0u32, 1, 131071, 131072, 262144 + 77, 268435455] {
        let index = MT29F2G01ABAGDWB::get_block_index_of_address(address);
        let start = MT29F2G01ABAGDWB::get_address_of_block_index(index);
        assert_eq!(start, address - address % 131072);
        assert!(start <= address && address - start < 131072);
        assert_eq!(geometry.address_of_block_index(index), Some(start));
    }
}

#[test]
fn block_index_round_trips_through_address() {
    for index in [0u16, 1, 2, 1023, 1024, 2047] {
        let address = MT29F2G01ABAGDWB::get_address_of_block_index(index);
        assert_eq!(MT29F2G01ABAGDWB::get_block_index_of_address(address), index);
    }
}

#[test]
fn block_index_of_address_beyond_the_chip_is_cut_to_sixteen_bits() {
    let geometry = geometry_with(1, 1, 1, 1, 1, 0);
    assert!(geometry.is_well_formed());
    assert_eq!(geometry.block_index_of_address(0), Some(0));
    assert_eq!(geometry.block_index_of_address(1), None);
    struct Tiny;
    impl FlashMemoryChip for Tiny {
        const LUNS_PER_DEVICE: u32 = 1;
        const PLANES_PER_LUN: u32 = 1;
        const BLOCKS_PER_PLANE: u32 = 1;
        const PAGES_PER_BLOCK: u32 = 1;
        const PAGE_SIZE: u32 = 1;
        const PAGE_ECC_SIZE: u32 = 0;
        const SPI_MODE: SpiMode = SpiMode::Mode3;
        const MAX_CLOCK_FREQUENCY_HERTZ: u32 = 1;
        const MANUFACTURER_ID: u8 = 0;
        const DEVICE_ID: u8 = 0;
        const BLOCK_LOCK_AT_BRING_UP: u8 = 0;
    }
    assert_eq!(Tiny::get_block_index_of_address(65535), 65535);
    assert_eq!(Tiny::get_block_index_of_address(65536), 0);
    assert_eq!(Tiny::get_block_index_of_address(65537 + 65536), 1);
}

#[test]
fn ill_formed_geometries_are_told_apart() {
    assert!(!geometry_with(0, 2, 1024, 64, 2048, 128).is_well_formed());
    assert!(!geometry_with(1, 0, 1024, 64, 2048, 128).is_well_formed());
    assert!(!geometry_with(1, 2, 0, 64, 2048, 128).is_well_formed());
    assert!(!geometry_with(1, 2, 1024, 0, 2048, 128).is_well_formed());
    assert!(!geometry_with(1, 2, 1024, 64, 0, 128).is_well_formed());
    // 4 GiB: one byte more than 32 bits address
    assert!(!geometry_with(2, 2, 8192, 64, 2048, 128).is_well_formed());
    // more blocks than a 16-bit index tells apart
    assert!(!geometry_with(1, 2, 32769, 1, 1, 0).is_well_formed());
    assert!(geometry_with(1, 2, 32768, 1, 1, 0).is_well_formed());
    // more pages than three address bytes tell apart
    assert!(!geometry_with(1, 1, 65536, 257, 1, 0).is_well_formed());
    assert!(geometry_with(1, 1, 65536, 256, 1, 0).is_well_formed());
    // a page with its spare area must end within 16-bit columns
    assert!(!geometry_with(1, 1, 1, 1, 65000, 536).is_well_formed());
    assert!(geometry_with(1, 1, 1, 1, 65000, 535).is_well_formed());
    // products that do not fit 64 bits
    assert!(!geometry_with(u32::MAX, u32::MAX, u32::MAX, u32::MAX, u32::MAX, u32::MAX).is_well_formed());
}

#[test]
fn row_address_of_memory_address() {
    let geometry = MT29F2G01ABAGDWB::geometry();
    let row = RowAddress::from_memory_address(&geometry, 262144 + 3 * 2048 + 5);
    assert_eq!(row, RowAddress { lun: 0, plane: 0, block: 2, page: 3 });
    assert!(row.is_valid(&geometry));
    assert_eq!(row.block_index(&geometry), 2);
    assert_eq!(row.raw(&geometry), 131);
    assert_eq!(row.to_bytes(&geometry), [0x00, 0x00, 0x83]);
    assert_eq!(row.to_memory_address(&geometry), 262144 + 3 * 2048);

    let last = RowAddress::from_memory_address(&geometry, 268435455);
    assert_eq!(last, RowAddress { lun: 0, plane: 1, block: 1023, page: 63 });
    assert_eq!(last.raw(&geometry), 131071);
    assert_eq!(last.to_bytes(&geometry), [0x01, 0xFF, 0xFF]);
    assert_eq!(last.block_index(&geometry), 2047);

    let second_plane = RowAddress::from_memory_address(&geometry, 134217728);
    assert_eq!(second_plane, RowAddress { lun: 0, plane: 1, block: 0, page: 0 });
}

#[test]
fn row_address_beyond_the_chip_is_not_valid() {
    let geometry = MT29F2G01ABAGDWB::geometry();
    let beyond = RowAddress::from_memory_address(&geometry, 268435456);
    assert_eq!(beyond, RowAddress { lun: 1, plane: 0, block: 0, page: 0 });
    assert!(!beyond.is_valid(&geometry));
    let far = RowAddress::from_memory_address(&geometry, u32::MAX);
    assert_eq!(far, RowAddress { lun: 15, plane: 1, block: 1023, page: 63 });
    assert!(!far.is_valid(&geometry));
    assert!(!RowAddress { lun: 0, plane: 2, block: 0, page: 0 }.is_valid(&geometry));
    assert!(!RowAddress { lun: 0, plane: 0, block: 1024, page: 0 }.is_valid(&geometry));
    assert!(!RowAddress { lun: 0, plane: 0, block: 0, page: 64 }.is_valid(&geometry));
}

#[test]
fn row_address_round_trips() {
    let geometry = geometry_with(2, 3, 5, 7, 16, 4);
    for address in 0..geometry.memory_size() {
        let row = RowAddress::from_memory_address(&geometry, address);
        assert!(row.is_valid(&geometry));
        assert_eq!(row.to_memory_address(&geometry), address - address % 16);
        assert_eq!(row.raw(&geometry), address / 16);
        assert_eq!(row.block_index(&geometry) as u32, address / geometry.block_size());
        assert_eq!(RowAddress::from_memory_address(&geometry, row.to_memory_address(&geometry)), row);
    }
    assert!(!RowAddress::from_memory_address(&geometry, geometry.memory_size()).is_valid(&geometry));
}

#[test]
fn row_address_of_block() {
    let geometry = MT29F2G01ABAGDWB::geometry();
    assert_eq!(RowAddress::of_block(&geometry, 0), Some(RowAddress { lun: 0, plane: 0, block: 0, page: 0 }));
    assert_eq!(RowAddress::of_block(&geometry, 1025), Some(RowAddress { lun: 0, plane: 1, block: 1, page: 0 }));
    assert_eq!(RowAddress::of_block(&geometry, 2047), Some(RowAddress { lun: 0, plane: 1, block: 1023, page: 0 }));
    assert_eq!(RowAddress::of_block(&geometry, 2048), None);
}
