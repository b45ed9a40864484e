use a13c_embedded::drivers::spi_flash_memory::address::RowAddress;
use a13c_embedded::drivers::spi_flash_memory::chip::{FlashMemoryChipExt, MT29F2G01ABAGDWB};
use a13c_embedded::drivers::spi_flash_memory::command::Command;
use a13c_embedded::drivers::spi_flash_memory::feature::{FeatureRegister, Status};

fn row(block: u32, page: u32) -> RowAddress {
    RowAddress { lun: 0, plane: block / 1024, block: block % 1024, page }
}

#[test]
fn feature_register_addresses() {
    assert_eq!(FeatureRegister::BlockLock.address(), 0xA0);
    assert_eq!(FeatureRegister::Configuration.address(), 0xB0);
    assert_eq!(FeatureRegister::Status.address(), 0xC0);
    assert_eq!(FeatureRegister::DieSelect.address(), 0xD0);
}

#[test]
fn feature_register_of_address() {
    assert_eq!(FeatureRegister::from_address(0xA0), Some(FeatureRegister::BlockLock));
    assert_eq!(FeatureRegister::from_address(0xB0), Some(FeatureRegister::Configuration));
    assert_eq!(FeatureRegister::from_address(0xC0), Some(FeatureRegister::Status));
    assert_eq!(FeatureRegister::from_address(0xD0), Some(FeatureRegister::DieSelect));
    assert_eq!(FeatureRegister::from_address(0x00), None);
    assert_eq!(FeatureRegister::from_address(0xA1), None);
    for address in 0..=255u8 {
        if let Some(register) = FeatureRegister::from_address(address) {
            assert_eq!(register.address(), address);
        }
    }
}

#[test]
fn status_bits() {
    let idle = Status::from_bits(0x00);
    assert!(!idle.is_busy());
    assert!(!idle.is_write_enabled());
    assert!(!idle.has_erase_failed());
    assert!(!idle.has_program_failed());
    assert!(!idle.is_uncorrectable());
    assert!(Status::from_bits(0x01).is_busy());
    assert!(!Status::from_bits(0xFE).is_busy());
    assert!(Status::from_bits(0x02).is_write_enabled());
    assert!(!Status::from_bits(0xFD).is_write_enabled());
    assert!(Status::from_bits(0x04).has_erase_failed());
    assert!(!Status::from_bits(0xFB).has_erase_failed());
    assert!(Status::from_bits(0x08).has_program_failed());
    assert!(!Status::from_bits(0xF7).has_program_failed());
    assert!(Status::from_bits(0x20).is_uncorrectable());
    assert!(Status::from_bits(0xAF).is_uncorrectable());
    assert!(!Status::from_bits(0x10).is_uncorrectable());
    assert!(!Status::from_bits(0x30).is_uncorrectable());
    assert!(!Status::from_bits(0x60).is_uncorrectable());
    assert_eq!(Status::from_bits(0x5A).bits, 0x5A);
}

#[test]
fn commands_on_the_wire() {
    let geometry = MT29F2G01ABAGDWB::geometry();
    let none: Vec<u8> = Vec::new();
    assert_eq!(Command::Reset.encode(&geometry, &none), vec![0xFF]);
    assert_eq!(Command::ReadId.encode(&geometry, &none), vec![0x9F, 0x00]);
    assert_eq!(Command::GetFeatures(FeatureRegister::Status).encode(&geometry, &none), vec![0x0F, 0xC0]);
    assert_eq!(
        Command::SetFeatures(FeatureRegister::BlockLock, 0x00).encode(&geometry, &none),
        vec![0x1F, 0xA0, 0x00]
    );
    assert_eq!(
        Command::SetFeatures(FeatureRegister::Configuration, 0x10).encode(&geometry, &none),
        vec![0x1F, 0xB0, 0x10]
    );
    assert_eq!(Command::WriteEnable.encode(&geometry, &none), vec![0x06]);
    assert_eq!(Command::PageRead(row(2, 3)).encode(&geometry, &none), vec![0x13, 0x00, 0x00, 0x83]);
    assert_eq!(
        Command::ReadFromCache { column: 0x0800, length: 1 }.encode(&geometry, &none),
        vec![0x03, 0x08, 0x00, 0x00]
    );
    assert_eq!(
        Command::ProgramLoad { column: 0x0102 }.encode(&geometry, &vec![0xAA, 0xBB]),
        vec![0x02, 0x01, 0x02, 0xAA, 0xBB]
    );
    assert_eq!(
        Command::ProgramExecute(row(2047, 63)).encode(&geometry, &none),
        vec![0x10, 0x01, 0xFF, 0xFF]
    );
    assert_eq!(Command::BlockErase(row(1024, 0)).encode(&geometry, &none), vec![0xD8, 0x01, 0x00, 0x00]);
}

#[test]
fn only_program_load_sends_the_payload() {
    let geometry = MT29F2G01ABAGDWB::geometry();
    let payload = vec![1u8, 2, 3];
    assert_eq!(Command::WriteEnable.encode(&geometry, &payload), vec![0x06]);
    assert_eq!(Command::PageRead(row(0, 0)).encode(&geometry, &payload), vec![0x13, 0, 0, 0]);
    assert_eq!(Command::ProgramLoad { column: 0 }.encode(&geometry, &payload), vec![0x02, 0, 0, 1, 2, 3]);
}

#[test]
fn response_lengths() {
    assert_eq!(Command::Reset.response_length(), 0);
    assert_eq!(Command::ReadId.response_length(), 2);
    assert_eq!(Command::GetFeatures(FeatureRegister::BlockLock).response_length(), 1);
    assert_eq!(Command::SetFeatures(FeatureRegister::BlockLock, 1).response_length(), 0);
    assert_eq!(Command::WriteEnable.response_length(), 0);
    assert_eq!(Command::PageRead(row(0, 0)).response_length(), 0);
    assert_eq!(Command::ReadFromCache { column: 0, length: 2176 }.response_length(), 2176);
    assert_eq!(Command::ProgramLoad { column: 0 }.response_length(), 0);
    assert_eq!(Command::ProgramExecute(row(0, 0)).response_length(), 0);
    assert_eq!(Command::BlockErase(row(0, 0)).response_length(), 0);
}

#[test]
fn commands_fit_the_chip_by_their_row() {
    let geometry = MT29F2G01ABAGDWB::geometry();
    assert!(Command::Reset.fits(&geometry));
    assert!(Command::PageRead(row(2047, 63)).fits(&geometry));
    assert!(!Command::PageRead(RowAddress { lun: 1, plane: 0, block: 0, page: 0 }).fits(&geometry));
    assert!(!Command::ProgramExecute(RowAddress { lun: 0, plane: 0, block: 0, page: 64 }).fits(&geometry));
    assert!(!Command::BlockErase(RowAddress { lun: 0, plane: 2, block: 0, page: 0 }).fits(&geometry));
}

#[test]
fn decode_inverts_encode() {
    let geometry = MT29F2G01ABAGDWB::geometry();
    let payload = vec![9u8, 8, 7];
    let commands = [
        Command::Reset,
        Command::ReadId,
        Command::GetFeatures(FeatureRegister::DieSelect),
        Command::SetFeatures(FeatureRegister::Configuration, 0x42),
        Command::WriteEnable,
        Command::PageRead(row(1500, 17)),
        Command::ReadFromCache { column: 2048, length: 128 },
        Command::ProgramLoad { column: 5 },
        Command::ProgramExecute(row(0, 1)),
        Command::BlockErase(row(2047, 0)),
    ];
    for command in commands {
        let bytes = command.encode(&geometry, &payload);
        assert_eq!(Command::decode(&geometry, &bytes, command.response_length()), Some(command));
    }
}

#[test]
fn bytes_that_are_no_command_are_not_decoded() {
    let geometry = MT29F2G01ABAGDWB::geometry();
    assert_eq!(Command::decode(&geometry, &vec![], 0), None);
    assert_eq!(Command::decode(&geometry, &vec![0x55], 0), None);
    assert_eq!(Command::decode(&geometry, &vec![0xFF, 0x00], 0), None);
    assert_eq!(Command::decode(&geometry, &vec![0x0F, 0x12], 1), None);
    assert_eq!(Command::decode(&geometry, &vec![0x1F, 0xA0], 0), None);
    // a page beyond the last one of the chip
    assert_eq!(Command::decode(&geometry, &vec![0x13, 0x02, 0x00, 0x00], 0), None);
    assert_eq!(Command::decode(&geometry, &vec![0xD8, 0xFF, 0xFF, 0xFF], 0), None);
    // a read longer than a column counts
    assert_eq!(Command::decode(&geometry, &vec![0x03, 0x00, 0x00, 0x00], 65536), None);
    assert_eq!(Command::decode(&geometry, &vec![0x02, 0x00], 0), None);
}

#[test]
fn row_address_of_raw() {
    let geometry = MT29F2G01ABAGDWB::geometry();
    assert_eq!(RowAddress::from_raw(&geometry, 0), Some(row(0, 0)));
    assert_eq!(RowAddress::from_raw(&geometry, 131), Some(row(2, 3)));
    assert_eq!(RowAddress::from_raw(&geometry, 131071), Some(row(2047, 63)));
    assert_eq!(RowAddress::from_raw(&geometry, 131072), None);
    assert_eq!(RowAddress::from_raw(&geometry, u32::MAX), None);
}
