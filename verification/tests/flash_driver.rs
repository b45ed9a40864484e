use a13c_embedded::drivers::spi_flash_memory::address::RowAddress;
use a13c_embedded::drivers::spi_flash_memory::chip::{
    DeviceIdentity, FlashMemoryChipExt, MT29F2G01ABAGDWB,
};
use a13c_embedded::drivers::spi_flash_memory::driver::{is_bad_block_mark, SpiFlashMemory};
use a13c_embedded::drivers::spi_flash_memory::error::FlashError;
use a13c_embedded::drivers::spi_flash_memory::feature::FeatureRegister;
use a13c_embedded::drivers::spi_flash_memory::protocol::{Action, Event, Output};
use a13c_embedded::drivers::spi_flash_memory::scanner::BadBlockScanner;
use a13c_embedded::hardware::mock::conversation::converse;
use a13c_embedded::hardware::mock::nand::MockNand;

type Flash = SpiFlashMemory<MT29F2G01ABAGDWB>;
type Outcome = Result<Output, FlashError<&'static str>>;

/// A bus that records what is written and answers from a list.
struct Bus {
    written: Vec<(Vec<u8>, usize)>,
    answers: Vec<Result<Vec<u8>, &'static str>>,
}

impl Bus {
    fn new(answers: Vec<Result<Vec<u8>, &'static str>>) -> Self {
        Bus { written: Vec::new(), answers }
    }

    fn run(&mut self, flash: &mut Flash, first: Action<&'static str>) -> Outcome {
        let mut action = first;
        let mut next = 0;
        loop {
            match action {
                Action::Finish(outcome) => return outcome,
                Action::Exchange { write, read_length } => {
                    assert_eq!(flash.awaited_length(), Some(read_length));
                    self.written.push((write, read_length));
                    let event = match self.answers[next].clone() {
                        Ok(bytes) => Event::Completed(bytes),
                        Err(error) => Event::Failed(error),
                    };
                    next += 1;
                    action = flash.advance(event);
                }
            }
        }
    }
}

fn row(block: u32, page: u32) -> RowAddress {
    RowAddress { lun: 0, plane: block / 1024, block: block % 1024, page }
}

fn ready_flash(poll_limit: u32) -> Flash {
    let mut flash = Flash::new(poll_limit).unwrap();
    let mut bus = Bus::new(vec![Ok(vec![]), Ok(vec![0x00]), Ok(vec![])]);
    let first = flash.initialize();
    assert!(matches!(bus.run(&mut flash, first), Ok(Output::Done)));
    assert!(flash.is_ready());
    flash
}

fn ready_pair(poll_limit: u32, busy_reads: u32) -> (Flash, MockNand) {
    let mut flash = Flash::new(poll_limit).unwrap();
    let mut chip = MockNand::new(MT29F2G01ABAGDWB::geometry(), busy_reads).unwrap();
    let first = flash.initialize::<&'static str>();
    assert!(matches!(converse(&mut flash, &mut chip, first), Ok(Output::Done)));
    (flash, chip)
}

#[test]
fn a_new_driver_is_not_ready_and_idle() {
    let flash = Flash::new(10).unwrap();
    assert!(!flash.is_ready());
    assert!(flash.is_idle());
    assert!(!flash.is_cache_loaded());
    assert_eq!(flash.awaited_length(), None);
    assert_eq!(flash.geometry().page_size, 2048);
    assert!(Flash::new(0).is_none());
    assert!(Flash::new(1).is_some());
}

#[test]
fn initialize_resets_then_clears_the_block_lock() {
    let mut flash = Flash::new(10).unwrap();
    let mut bus = Bus::new(vec![Ok(vec![]), Ok(vec![0x01]), Ok(vec![0x01]), Ok(vec![0x00]), Ok(vec![])]);
    let first = flash.initialize();
    let outcome = bus.run(&mut flash, first);
    assert!(matches!(outcome, Ok(Output::Done)));
    assert_eq!(
        bus.written,
        vec![
            (vec![0xFF], 0),
            (vec![0x0F, 0xC0], 1),
            (vec![0x0F, 0xC0], 1),
            (vec![0x0F, 0xC0], 1),
            (vec![0x1F, 0xA0, 0x00], 0),
        ]
    );
    assert!(flash.is_ready());
    assert!(flash.is_idle());
}

#[test]
fn initialize_unlocks_the_mock_chip() {
    let mut flash = Flash::new(10).unwrap();
    let mut chip = MockNand::new(MT29F2G01ABAGDWB::geometry(), 2).unwrap();
    assert!(!chip.is_unlocked());
    let first = flash.initialize::<&'static str>();
    assert!(matches!(converse(&mut flash, &mut chip, first), Ok(Output::Done)));
    assert!(chip.is_unlocked());
    assert!(flash.is_ready());
}

#[test]
fn initialize_stops_at_the_first_failure() {
    let mut flash = Flash::new(10).unwrap();
    let mut bus = Bus::new(vec![Err("no bus")]);
    let first = flash.initialize();
    let outcome = bus.run(&mut flash, first);
    assert!(matches!(outcome, Err(FlashError::Transport("no bus"))));
    assert_eq!(bus.written, vec![(vec![0xFF], 0)]);
    assert!(!flash.is_ready());
    assert!(flash.is_idle());

    let mut bus = Bus::new(vec![Ok(vec![]), Ok(vec![0x00]), Err("gone")]);
    let first = flash.initialize();
    assert!(matches!(bus.run(&mut flash, first), Err(FlashError::Transport("gone"))));
    assert_eq!(bus.written.len(), 3);
    assert!(!flash.is_ready());
}

#[test]
fn a_failed_bring_up_takes_readiness_away() {
    let mut flash = ready_flash(3);
    let mut bus = Bus::new(vec![Ok(vec![]), Ok(vec![0x01]), Ok(vec![0x01]), Ok(vec![0x01])]);
    let first = flash.initialize();
    assert!(matches!(bus.run(&mut flash, first), Err(FlashError::DeviceNotReady)));
    assert!(!flash.is_ready());
}

#[test]
fn data_operations_before_bring_up_are_usage_errors() {
    let mut flash = Flash::new(10).unwrap();
    assert!(matches!(flash.read_page_to_cache::<()>(row(0, 0)), Action::Finish(Err(FlashError::Usage))));
    assert!(matches!(flash.read_from_cache::<()>(0, 1), Action::Finish(Err(FlashError::Usage))));
    assert!(matches!(flash.read_ecc::<()>(row(0, 0), 1), Action::Finish(Err(FlashError::Usage))));
    assert!(matches!(flash.program_page::<()>(row(0, 0), vec![1]), Action::Finish(Err(FlashError::Usage))));
    assert!(matches!(flash.erase_block::<()>(row(0, 0)), Action::Finish(Err(FlashError::Usage))));
    assert!(matches!(flash.contains_bad_block_mark::<()>(0), Action::Finish(Err(FlashError::Usage))));
    assert!(flash.is_idle());
}

#[test]
fn operations_do_not_overlap() {
    let mut flash = ready_flash(10);
    assert!(matches!(flash.erase_block::<()>(row(0, 0)), Action::Exchange { .. }));
    assert!(!flash.is_idle());
    assert!(matches!(flash.reset::<()>(), Action::Finish(Err(FlashError::Usage))));
    assert!(matches!(flash.initialize::<()>(), Action::Finish(Err(FlashError::Usage))));
    assert!(matches!(flash.get_features::<()>(FeatureRegister::Status), Action::Finish(Err(FlashError::Usage))));
    assert!(matches!(flash.set_features::<()>(FeatureRegister::BlockLock, 0), Action::Finish(Err(FlashError::Usage))));
    assert!(matches!(flash.read_status::<()>(), Action::Finish(Err(FlashError::Usage))));
    assert!(matches!(flash.read_id::<()>(), Action::Finish(Err(FlashError::Usage))));
    assert!(matches!(flash.program_page::<()>(row(0, 0), vec![]), Action::Finish(Err(FlashError::Usage))));
    assert!(matches!(flash.read_page_to_cache::<()>(row(0, 0)), Action::Finish(Err(FlashError::Usage))));
    // the operation in flight goes on as if nothing had been asked
    assert!(matches!(flash.advance::<()>(Event::Completed(vec![])), Action::Exchange { .. }));
}

#[test]
fn an_event_with_no_operation_in_flight_is_a_usage_error() {
    let mut flash = ready_flash(10);
    assert!(matches!(flash.advance::<()>(Event::Completed(vec![])), Action::Finish(Err(FlashError::Usage))));
    assert!(matches!(flash.advance(Event::Failed(())), Action::Finish(Err(FlashError::Usage))));
    assert!(flash.is_ready());
}

#[test]
fn addresses_outside_the_chip_are_addressing_errors() {
    let mut flash = ready_flash(10);
    let beyond = RowAddress { lun: 1, plane: 0, block: 0, page: 0 };
    assert!(matches!(flash.read_page_to_cache::<()>(beyond), Action::Finish(Err(FlashError::Addressing))));
    assert!(matches!(flash.read_ecc::<()>(beyond, 1), Action::Finish(Err(FlashError::Addressing))));
    assert!(matches!(flash.read_ecc::<()>(row(0, 0), 129), Action::Finish(Err(FlashError::Addressing))));
    assert!(matches!(flash.program_page::<()>(beyond, vec![]), Action::Finish(Err(FlashError::Addressing))));
    assert!(matches!(
        flash.program_page::<()>(row(0, 0), vec![0; 2177]),
        Action::Finish(Err(FlashError::Addressing))
    ));
    assert!(matches!(flash.erase_block::<()>(beyond), Action::Finish(Err(FlashError::Addressing))));
    assert!(matches!(flash.contains_bad_block_mark::<()>(2048), Action::Finish(Err(FlashError::Addressing))));
    assert!(flash.is_idle());
}

#[test]
fn reading_the_cache_needs_a_loaded_page_and_columns_of_the_page() {
    let mut flash = ready_flash(10);
    assert!(matches!(flash.read_from_cache::<()>(0, 1), Action::Finish(Err(FlashError::Usage))));
    let mut bus = Bus::new(vec![Ok(vec![]), Ok(vec![0x00])]);
    let first = flash.read_page_to_cache(row(5, 6));
    assert!(matches!(bus.run(&mut flash, first), Ok(Output::Done)));
    assert_eq!(bus.written, vec![(vec![0x13, 0x00, 0x01, 0x46], 0), (vec![0x0F, 0xC0], 1)]);
    assert!(flash.is_cache_loaded());
    assert!(matches!(flash.read_from_cache::<()>(2176, 1), Action::Finish(Err(FlashError::Addressing))));
    assert!(matches!(flash.read_from_cache::<()>(1, 2176), Action::Finish(Err(FlashError::Addressing))));
    assert!(matches!(flash.read_from_cache::<()>(65535, 65535), Action::Finish(Err(FlashError::Addressing))));
    let mut bus = Bus::new(vec![Ok(vec![7, 8, 9])]);
    let first = flash.read_from_cache(2173, 3);
    match bus.run(&mut flash, first) {
        Ok(Output::Page(page)) => {
            assert_eq!(page.data, vec![7, 8, 9]);
            assert!(page.valid);
        }
        _ => panic!("the read did not hand back a page"),
    }
    assert_eq!(bus.written, vec![(vec![0x03, 0x08, 0x7D, 0x00], 3)]);
}

#[test]
fn a_page_beyond_correction_is_flagged() {
    let mut flash = ready_flash(10);
    let mut bus = Bus::new(vec![Ok(vec![]), Ok(vec![0x20]), Ok(vec![1, 2])]);
    let first = flash.read_ecc(row(0, 0), 2);
    match bus.run(&mut flash, first) {
        Ok(Output::Page(page)) => {
            assert_eq!(page.data, vec![1, 2]);
            assert!(!page.valid);
        }
        _ => panic!("the read did not hand back a page"),
    }
    assert_eq!(
        bus.written,
        vec![(vec![0x13, 0, 0, 0], 0), (vec![0x0F, 0xC0], 1), (vec![0x03, 0x08, 0x00, 0x00], 2)]
    );
}

#[test]
fn the_cache_is_not_relied_on_after_a_program_or_a_failure() {
    let mut flash = ready_flash(10);
    let mut bus = Bus::new(vec![Ok(vec![]), Ok(vec![0x00])]);
    let first = flash.read_page_to_cache(row(0, 0));
    assert!(bus.run(&mut flash, first).is_ok());
    assert!(flash.is_cache_loaded());
    let mut bus = Bus::new(vec![Ok(vec![]), Ok(vec![]), Ok(vec![]), Ok(vec![0x00])]);
    let first = flash.program_page(row(0, 0), vec![1, 2, 3]);
    assert!(bus.run(&mut flash, first).is_ok());
    assert!(!flash.is_cache_loaded());

    let mut bus = Bus::new(vec![Ok(vec![]), Ok(vec![0x00])]);
    let first = flash.read_page_to_cache(row(0, 0));
    assert!(bus.run(&mut flash, first).is_ok());
    assert!(flash.is_cache_loaded());
    let mut bus = Bus::new(vec![Err("lost")]);
    let first = flash.read_status();
    assert!(bus.run(&mut flash, first).is_err());
    assert!(!flash.is_cache_loaded());
}

#[test]
fn program_page_on_the_wire() {
    let mut flash = ready_flash(10);
    let mut bus = Bus::new(vec![Ok(vec![]), Ok(vec![]), Ok(vec![]), Ok(vec![0x03]), Ok(vec![0x00])]);
    let first = flash.program_page(row(2, 3), vec![0xDE, 0xAD]);
    assert!(matches!(bus.run(&mut flash, first), Ok(Output::Done)));
    assert_eq!(
        bus.written,
        vec![
            (vec![0x06], 0),
            (vec![0x02, 0x00, 0x00, 0xDE, 0xAD], 0),
            (vec![0x10, 0x00, 0x00, 0x83], 0),
            (vec![0x0F, 0xC0], 1),
            (vec![0x0F, 0xC0], 1),
        ]
    );
}

#[test]
fn erase_block_on_the_wire() {
    let mut flash = ready_flash(10);
    let mut bus = Bus::new(vec![Ok(vec![]), Ok(vec![]), Ok(vec![0x00])]);
    let first = flash.erase_block(row(1024, 0));
    assert!(matches!(bus.run(&mut flash, first), Ok(Output::Done)));
    assert_eq!(
        bus.written,
        vec![(vec![0x06], 0), (vec![0xD8, 0x01, 0x00, 0x00], 0), (vec![0x0F, 0xC0], 1)]
    );
}

#[test]
fn features_status_and_identity() {
    let mut flash = Flash::new(10).unwrap();
    let mut bus = Bus::new(vec![Ok(vec![0x7C])]);
    let first = flash.get_features(FeatureRegister::BlockLock);
    assert!(matches!(bus.run(&mut flash, first), Ok(Output::Byte(0x7C))));
    assert_eq!(bus.written, vec![(vec![0x0F, 0xA0], 1)]);

    let mut bus = Bus::new(vec![Ok(vec![])]);
    let first = flash.set_features(FeatureRegister::Configuration, 0x10);
    assert!(matches!(bus.run(&mut flash, first), Ok(Output::Done)));
    assert_eq!(bus.written, vec![(vec![0x1F, 0xB0, 0x10], 0)]);

    let mut bus = Bus::new(vec![Ok(vec![0x0A])]);
    let first = flash.read_status();
    match bus.run(&mut flash, first) {
        Ok(Output::Status(status)) => {
            assert_eq!(status.bits, 0x0A);
            assert!(status.is_write_enabled());
            assert!(status.has_program_failed());
            assert!(!status.is_busy());
        }
        _ => panic!("no status"),
    }
    assert_eq!(bus.written, vec![(vec![0x0F, 0xC0], 1)]);

    let mut bus = Bus::new(vec![Ok(vec![0x2C, 0x24])]);
    let first = flash.read_id();
    match bus.run(&mut flash, first) {
        Ok(Output::Identity(identity)) => {
            assert_eq!(identity, DeviceIdentity { manufacturer_id: 0x2C, device_id: 0x24 });
            assert_eq!(identity, flash.geometry().identity);
            assert!(flash.geometry().is_identity(identity));
            assert!(!flash.geometry().is_identity(DeviceIdentity { manufacturer_id: 0x2C, device_id: 0x25 }));
            assert!(!flash.geometry().is_identity(DeviceIdentity { manufacturer_id: 0x2D, device_id: 0x24 }));
        }
        _ => panic!("no identity"),
    }
    assert_eq!(bus.written, vec![(vec![0x9F, 0x00], 2)]);
}

#[test]
fn reset_waits_for_the_chip() {
    let mut flash = Flash::new(2).unwrap();
    let mut bus = Bus::new(vec![Ok(vec![]), Ok(vec![0x01]), Ok(vec![0x00])]);
    let first = flash.reset();
    assert!(matches!(bus.run(&mut flash, first), Ok(Output::Done)));
    assert!(!flash.is_ready());
    let mut bus = Bus::new(vec![Ok(vec![]), Ok(vec![0x01]), Ok(vec![0x01])]);
    let first = flash.reset();
    assert!(matches!(bus.run(&mut flash, first), Err(FlashError::DeviceNotReady)));
    assert_eq!(bus.written.len(), 3);
}

#[test]
fn a_chip_that_stays_busy_after_program_page_is_not_ready() {
    let mut flash = ready_flash(5);
    let mut answers: Vec<Result<Vec<u8>, &'static str>> = vec![Ok(vec![]), Ok(vec![]), Ok(vec![])];
    for _ in 0..5 {
        answers.push(Ok(vec![0x03]));
    }
    let mut bus = Bus::new(answers);
    let first = flash.program_page(row(0, 0), vec![1, 2, 3]);
    let outcome = bus.run(&mut flash, first);
    match outcome {
        Err(error) => {
            assert!(error.is_device_not_ready());
            assert!(!error.is_transport());
        }
        Ok(_) => panic!("the program must not succeed"),
    }
    assert_eq!(bus.written.len(), 8);
    assert!(flash.is_idle());
    assert!(flash.is_ready());
}

#[test]
fn a_disconnected_bus_is_a_transport_error() {
    let mut flash = ready_flash(5);
    for failing in 0..5 {
        let mut answers: Vec<Result<Vec<u8>, &'static str>> =
            vec![Ok(vec![]), Ok(vec![]), Ok(vec![]), Ok(vec![0x01]), Ok(vec![0x01])];
        answers[failing] = Err("disconnected");
        let mut bus = Bus::new(answers);
        let first = flash.program_page(row(0, 0), vec![1, 2, 3]);
        match bus.run(&mut flash, first) {
            Err(error) => {
                assert!(error.is_transport());
                assert!(!error.is_device_not_ready());
                assert!(matches!(error, FlashError::Transport("disconnected")));
            }
            Ok(_) => panic!("the program must not succeed"),
        }
        assert_eq!(bus.written.len(), failing + 1);
    }
}

#[test]
fn a_stuck_mock_chip_is_not_ready() {
    let (mut flash, mut chip) = ready_pair(7, 0);
    chip.set_stuck(true);
    let first = flash.program_page::<&'static str>(row(1, 1), vec![5; 16]);
    assert!(matches!(converse(&mut flash, &mut chip, first), Err(FlashError::DeviceNotReady)));
    let first = flash.erase_block::<&'static str>(row(1, 1));
    assert!(matches!(converse(&mut flash, &mut chip, first), Err(FlashError::DeviceNotReady)));
    chip.set_stuck(false);
    let first = flash.erase_block::<&'static str>(row(1, 1));
    assert!(matches!(converse(&mut flash, &mut chip, first), Ok(Output::Done)));
}

#[test]
fn a_chip_that_is_busy_longer_than_the_driver_polls_is_not_ready() {
    let (mut flash, mut chip) = ready_pair(3, 2);
    let first = flash.erase_block::<&'static str>(row(0, 0));
    assert!(matches!(converse(&mut flash, &mut chip, first), Ok(Output::Done)));
    let mut slow = MockNand::new(MT29F2G01ABAGDWB::geometry(), 3).unwrap();
    let mut flash = Flash::new(3).unwrap();
    let first = flash.reset::<&'static str>();
    assert!(matches!(converse(&mut flash, &mut slow, first), Err(FlashError::DeviceNotReady)));
}

#[test]
fn program_and_erase_failures_are_told_apart() {
    let mut flash = ready_flash(5);
    let mut bus = Bus::new(vec![Ok(vec![]), Ok(vec![]), Ok(vec![]), Ok(vec![0x08])]);
    let first = flash.program_page(row(0, 0), vec![1]);
    assert!(matches!(bus.run(&mut flash, first), Err(FlashError::ProgramFailed)));
    let mut bus = Bus::new(vec![Ok(vec![]), Ok(vec![]), Ok(vec![0x04])]);
    let first = flash.erase_block(row(0, 0));
    assert!(matches!(bus.run(&mut flash, first), Err(FlashError::EraseFailed)));
    // each flag counts for its own operation only
    let mut bus = Bus::new(vec![Ok(vec![]), Ok(vec![]), Ok(vec![]), Ok(vec![0x04])]);
    let first = flash.program_page(row(0, 0), vec![1]);
    assert!(matches!(bus.run(&mut flash, first), Ok(Output::Done)));
    let mut bus = Bus::new(vec![Ok(vec![]), Ok(vec![]), Ok(vec![0x08])]);
    let first = flash.erase_block(row(0, 0));
    assert!(matches!(bus.run(&mut flash, first), Ok(Output::Done)));
}

#[test]
fn a_locked_mock_chip_fails_program_and_erase() {
    let mut chip = MockNand::new(MT29F2G01ABAGDWB::geometry(), 1).unwrap();
    let mut flash = ready_flash(5);
    let first = flash.program_page::<&'static str>(row(0, 0), vec![1, 2]);
    assert!(matches!(converse(&mut flash, &mut chip, first), Err(FlashError::ProgramFailed)));
    let first = flash.erase_block::<&'static str>(row(0, 0));
    assert!(matches!(converse(&mut flash, &mut chip, first), Err(FlashError::EraseFailed)));
    assert_eq!(chip.page(row(0, 0)).unwrap(), vec![0xFF; 2176]);
}

#[test]
fn an_erased_block_reads_as_all_ones() {
    let (mut flash, mut chip) = ready_pair(10, 3);
    for page in [0u32, 1, 63] {
        assert!(chip.set_page(row(9, page), &vec![0x11; 2176]));
    }
    assert!(chip.set_page(row(10, 0), &vec![0x22; 2176]));
    let first = flash.erase_block::<&'static str>(row(9, 17));
    assert!(matches!(converse(&mut flash, &mut chip, first), Ok(Output::Done)));
    for page in [0u32, 1, 17, 63] {
        let first = flash.read_page_to_cache::<&'static str>(row(9, page));
        assert!(matches!(converse(&mut flash, &mut chip, first), Ok(Output::Done)));
        let first = flash.read_from_cache::<&'static str>(0, 2176);
        match converse(&mut flash, &mut chip, first) {
            Ok(Output::Page(read)) => {
                assert_eq!(read.data, vec![0xFF; 2176]);
                assert!(read.valid);
            }
            _ => panic!("no page"),
        }
    }
    // the next block is as it was
    assert_eq!(chip.page(row(10, 0)).unwrap(), vec![0x22; 2176]);
    assert_eq!(chip.page(row(8, 63)).unwrap(), vec![0xFF; 2176]);
}

#[test]
fn a_programmed_page_reads_back() {
    let (mut flash, mut chip) = ready_pair(10, 1);
    let data: Vec<u8> = (0..2048u32).map(|i| (i * 7 % 251) as u8).collect();
    let first = flash.program_page::<&'static str>(row(100, 5), data.clone());
    assert!(matches!(converse(&mut flash, &mut chip, first), Ok(Output::Done)));
    let first = flash.read_page_to_cache::<&'static str>(row(100, 5));
    assert!(matches!(converse(&mut flash, &mut chip, first), Ok(Output::Done)));
    let first = flash.read_from_cache::<&'static str>(0, 2048);
    match converse(&mut flash, &mut chip, first) {
        Ok(Output::Page(read)) => {
            assert_eq!(read.data, data);
            assert!(read.valid);
        }
        _ => panic!("no page"),
    }
    // the spare area was not programmed and is erased
    let first = flash.read_ecc::<&'static str>(row(100, 5), 128);
    match converse(&mut flash, &mut chip, first) {
        Ok(Output::Page(read)) => assert_eq!(read.data, vec![0xFF; 128]),
        _ => panic!("no page"),
    }
    // the page before it was not touched
    assert_eq!(chip.page(row(100, 4)).unwrap(), vec![0xFF; 2176]);
    let mut whole = data.clone();
    whole.extend(vec![0xFF; 128]);
    assert_eq!(chip.page(row(100, 5)).unwrap(), whole);
}

#[test]
fn bad_block_marks_are_reported() {
    assert!(is_bad_block_mark(0x01));
    assert!(is_bad_block_mark(0xFF));
    assert!(!is_bad_block_mark(0x00));
    let (mut flash, mut chip) = ready_pair(10, 2);
    let mut good = vec![0xAB; 2048];
    good.push(0x00);
    let mut bad = vec![0xAB; 2048];
    bad.push(0x5A);
    assert!(chip.set_page(row(3, 0), &good));
    assert!(chip.set_page(row(4, 0), &bad));
    let first = flash.contains_bad_block_mark::<&'static str>(3);
    assert!(matches!(converse(&mut flash, &mut chip, first), Ok(Output::BadBlock(false))));
    let first = flash.contains_bad_block_mark::<&'static str>(4);
    assert!(matches!(converse(&mut flash, &mut chip, first), Ok(Output::BadBlock(true))));
    // an erased spare area is not zero
    let first = flash.contains_bad_block_mark::<&'static str>(5);
    assert!(matches!(converse(&mut flash, &mut chip, first), Ok(Output::BadBlock(true))));
}

#[test]
fn a_failed_read_is_not_taken_for_a_good_block() {
    let mut flash = ready_flash(10);
    for failing in 0..3 {
        let mut answers: Vec<Result<Vec<u8>, &'static str>> = vec![Ok(vec![]), Ok(vec![0x00]), Ok(vec![0x00])];
        answers[failing] = Err("noise");
        let mut bus = Bus::new(answers);
        let first = flash.contains_bad_block_mark(7);
        assert!(matches!(bus.run(&mut flash, first), Err(FlashError::Transport("noise"))));
    }
    let mut bus = Bus::new(vec![Ok(vec![]), Ok(vec![0x00]), Ok(vec![0x00])]);
    let first = flash.contains_bad_block_mark(7);
    assert!(matches!(bus.run(&mut flash, first), Ok(Output::BadBlock(false))));
    assert_eq!(
        bus.written,
        vec![(vec![0x13, 0x00, 0x01, 0xC0], 0), (vec![0x0F, 0xC0], 1), (vec![0x03, 0x08, 0x00, 0x00], 1)]
    );
}

#[test]
fn the_scanner_walks_every_block_once() {
    let geometry = MT29F2G01ABAGDWB::geometry();
    let mut scanner = BadBlockScanner::new(&geometry);
    assert_eq!(scanner.remaining(), 2048);
    assert_eq!(scanner.current(), Some(0));
    assert_eq!(scanner.report(true), Some((0, true)));
    assert_eq!(scanner.current(), Some(1));
    assert_eq!(scanner.report(false), Some((1, false)));
    assert_eq!(scanner.remaining(), 2046);
    for index in 2..2048u16 {
        assert_eq!(scanner.current(), Some(index));
        assert_eq!(scanner.report(index % 3 == 0), Some((index, index % 3 == 0)));
    }
    assert_eq!(scanner.current(), None);
    assert_eq!(scanner.report(true), None);
    assert_eq!(scanner.remaining(), 0);
    scanner.restart();
    assert_eq!(scanner.current(), Some(0));
    assert_eq!(scanner.remaining(), 2048);
}

#[test]
fn a_scan_of_the_mock_chip() {
    let (mut flash, mut chip) = ready_pair(10, 0);
    let mut good = vec![0; 2048];
    good.push(0x00);
    for block in 0..2048u32 {
        if block != 11 && block != 2047 {
            assert!(chip.set_page(row(block, 0), &good));
        }
    }
    let mut scanner = BadBlockScanner::new(&flash.geometry());
    let mut bad_blocks = Vec::new();
    while let Some(block) = scanner.current() {
        let first = flash.contains_bad_block_mark::<&'static str>(block);
        match converse(&mut flash, &mut chip, first) {
            Ok(Output::BadBlock(marked)) => {
                if let Some((index, true)) = scanner.report(marked) {
                    bad_blocks.push(index);
                }
            }
            _ => panic!("the scan failed"),
        }
    }
    assert_eq!(bad_blocks, vec![11, 2047]);
}
