use core::time::Duration;

use a13c_embedded::drivers::max6675::{decode_reading, ReadError};
use a13c_embedded::hardware::espressif::peripherals::adc::{AdcReading, ADC_MAX_READABLE_MILLIVOLTS};
use a13c_embedded::hardware::espressif::peripherals::delay::Delay;
use a13c_embedded::hardware::mock::error::{MockDigitalError, MockEmptyError, MockSpiError};
use a13c_embedded::hardware::mock::input::MockInputPin;
use a13c_embedded::hardware::mock::nand::MockNand;
use a13c_embedded::hardware::mock::output::MockOutputPin;
use a13c_embedded::hardware::mock::pwm::MockPwmPin;
use a13c_embedded::utils::physical_quantities::frequency::Frequency;
use a13c_embedded::hardware::mock::spi::{MockSpi, SpiOperation};
use a13c_embedded::hardware::mock::time::MockSystemTime;
use a13c_embedded::hardware::mock::uart::MockUart;
use a13c_embedded::peripherals::interrupt::Trigger;
use a13c_embedded::peripherals::pwm::{alarm_step, checked_alarm_step, AlarmStep};
use a13c_embedded::peripherals::time::system_time::SystemTime;
use a13c_embedded::utils::physical_quantities::duration::SmallDuration;
use a13c_embedded::drivers::spi_flash_memory::address::RowAddress;
use a13c_embedded::drivers::spi_flash_memory::chip::{FlashMemoryChipExt, MT29F2G01ABAGDWB};

#[test]
fn mock_errors_keep_their_kind() {
    let spi = MockSpiError::new(embedded_hal::spi::ErrorKind::Overrun);
    assert_eq!(spi.kind(), embedded_hal::spi::ErrorKind::Overrun);
    assert_eq!(spi, MockSpiError::new(embedded_hal::spi::ErrorKind::Overrun));
    assert_ne!(spi, MockSpiError::new(embedded_hal::spi::ErrorKind::ModeFault));
    let pin = MockDigitalError::new(embedded_hal::digital::ErrorKind::Other);
    assert_eq!(pin.kind(), embedded_hal::digital::ErrorKind::Other);
    assert_eq!(MockEmptyError, MockEmptyError);
}

#[test]
fn mock_input_pin() {
    let mut high = MockInputPin::Working { is_high: true };
    assert_eq!(high.is_high(), Ok(true));
    assert_eq!(high.is_low(), Ok(false));
    let mut low = MockInputPin::Working { is_high: false };
    assert_eq!(low.is_high(), Ok(false));
    assert_eq!(low.is_low(), Ok(true));
    let error = MockDigitalError::new(embedded_hal::digital::ErrorKind::Other);
    let mut failing = MockInputPin::Failing(error);
    assert_eq!(failing.is_high(), Err(error));
    assert_eq!(failing.is_low(), Err(error));
}

#[test]
fn mock_output_pin() {
    let mut pin = MockOutputPin::Working { is_high: false };
    assert_eq!(pin.set_high(), Ok(()));
    assert!(matches!(pin, MockOutputPin::Working { is_high: true }));
    assert_eq!(pin.set_low(), Ok(()));
    assert!(matches!(pin, MockOutputPin::Working { is_high: false }));
    assert_eq!(pin.set(true), Ok(()));
    assert!(matches!(pin, MockOutputPin::Working { is_high: true }));
    let error = MockDigitalError::new(embedded_hal::digital::ErrorKind::Other);
    let mut failing = MockOutputPin::Failing(error);
    assert_eq!(failing.set(true), Err(error));
    assert_eq!(failing.set_high(), Err(error));
    assert_eq!(failing.set_low(), Err(error));
    assert!(matches!(failing, MockOutputPin::Failing(_)));
}

#[test]
fn mock_system_time() {
    let time = MockSystemTime { current_time: Duration::from_secs(7) };
    assert_eq!(time.now(), Duration::from_secs(7));
    assert_eq!(time.now(), Duration::from_secs(7));
}

#[test]
fn mock_uart_read_empties_the_buffer() {
    let mut uart = MockUart::new(vec![1, 2, 3]);
    let mut buffer = [9u8; 5];
    assert_eq!(uart.read(&mut buffer, SmallDuration::zero()), Ok(3));
    assert_eq!(buffer, [1, 2, 3, 9, 9]);
    assert_eq!(uart.read(&mut buffer, SmallDuration::zero()), Ok(0));
    assert_eq!(buffer, [1, 2, 3, 9, 9]);

    let mut uart = MockUart::new(vec![1, 2, 3, 4]);
    let mut short = [0u8; 2];
    assert_eq!(uart.read(&mut short, SmallDuration::from_millis(5)), Ok(4));
    assert_eq!(short, [1, 2]);
    assert_eq!(uart.read(&mut short, SmallDuration::from_millis(5)), Ok(0));
}

#[test]
fn mock_uart_write_and_flush() {
    let mut uart = MockUart::new(vec![5, 6]);
    assert_eq!(uart.write(&[10, 11]), Ok(2));
    assert_eq!(uart.write(&[]), Ok(0));
    assert_eq!(uart.write(&[12]), Ok(1));
    assert_eq!(uart.written(), &vec![10, 11, 12]);
    assert_eq!(uart.flush_read(), Ok(()));
    let mut buffer = [0u8; 2];
    assert_eq!(uart.read(&mut buffer, SmallDuration::zero()), Ok(0));
    assert_eq!(buffer, [0, 0]);
    assert_eq!(uart.written(), &vec![10, 11, 12]);
}

#[test]
fn mock_spi_transaction() {
    let mut spi: MockSpi<u8> = MockSpi::Working {
        read_operations: vec![vec![7, 8, 9], vec![1, 2]],
        write_operations: vec![],
        delays_operations: vec![],
    };
    let mut operations = vec![
        SpiOperation::Write(vec![0x0F, 0xC0]),
        SpiOperation::Read(vec![0, 0]),
        SpiOperation::DelayNs(150),
        SpiOperation::Read(vec![0, 0]),
        SpiOperation::Write(vec![]),
    ];
    assert_eq!(spi.transaction(&mut operations), Ok(()));
    assert!(matches!(&operations[0], SpiOperation::Write(words) if words == &vec![0x0F, 0xC0]));
    assert!(matches!(&operations[1], SpiOperation::Read(buffer) if buffer == &vec![1, 2]));
    assert!(matches!(&operations[2], SpiOperation::DelayNs(150)));
    assert!(matches!(&operations[3], SpiOperation::Read(buffer) if buffer == &vec![7, 8]));
    assert!(matches!(&operations[4], SpiOperation::Write(words) if words.is_empty()));
    match spi {
        MockSpi::Working { read_operations, write_operations, delays_operations } => {
            assert!(read_operations.is_empty());
            assert_eq!(write_operations, vec![vec![0x0F, 0xC0], vec![]]);
            assert_eq!(delays_operations, vec![150]);
        }
        MockSpi::Failing(_) => panic!("the device works"),
    }
}

#[test]
fn mock_spi_that_fails_does_nothing() {
    let error = MockSpiError::new(embedded_hal::spi::ErrorKind::ChipSelectFault);
    let mut spi: MockSpi<u8> = MockSpi::Failing(error);
    let mut operations = vec![SpiOperation::Read(vec![0, 0]), SpiOperation::Transfer(vec![1], vec![2])];
    assert_eq!(spi.transaction(&mut operations), Err(error));
    assert!(matches!(&operations[0], SpiOperation::Read(buffer) if buffer == &vec![0, 0]));
    assert!(matches!(&operations[1], SpiOperation::Transfer(read, write) if read == &vec![1] && write == &vec![2]));
    assert!(matches!(spi, MockSpi::Failing(_)));
}

#[test]
fn triggers_are_told_apart() {
    let all = [
        Trigger::PositiveEdge,
        Trigger::NegativeEdge,
        Trigger::AnyEdge,
        Trigger::LowLevel,
        Trigger::HighLevel,
    ];
    for (i, one) in all.iter().enumerate() {
        for (j, other) in all.iter().enumerate() {
            assert_eq!(one == other, i == j);
        }
    }
}

#[test]
fn a_delay_is_one_microsecond_at_least() {
    assert_eq!(Delay::microseconds(0), 1);
    assert_eq!(Delay::microseconds(10), 1);
    assert_eq!(Delay::microseconds(999), 1);
    assert_eq!(Delay::microseconds(1_000), 1);
    assert_eq!(Delay::microseconds(1_999), 1);
    assert_eq!(Delay::microseconds(2_000), 2);
    assert_eq!(Delay::microseconds(u32::MAX), 4_294_967);
}

#[test]
fn max6675_readings() {
    assert!(matches!(decode_reading::<()>([0x00, 0x00]), Ok(0)));
    // 100 degrees Celsius: 400 quarters
    assert!(matches!(decode_reading::<()>([0x0C, 0x80]), Ok(400)));
    assert!(matches!(decode_reading::<()>([0x0C, 0x83]), Ok(400)));
    assert!(matches!(decode_reading::<()>([0x7F, 0xF8]), Ok(4095)));
    assert!(matches!(decode_reading::<()>([0xFF, 0xFB]), Ok(8191)));
    assert!(matches!(decode_reading::<()>([0x00, 0x04]), Err(ReadError::OpenThermocouple)));
    assert!(matches!(decode_reading::<()>([0xFF, 0xFF]), Err(ReadError::OpenThermocouple)));
    assert!(matches!(decode_reading::<u8>([0x0C, 0x84]), Err(ReadError::OpenThermocouple)));
}

#[test]
fn mock_nand_at_power_on() {
    let geometry = MT29F2G01ABAGDWB::geometry();
    let mut chip = MockNand::new(geometry, 0).unwrap();
    assert!(!chip.is_unlocked());
    // block lock register
    assert_eq!(chip.exchange(&vec![0x0F, 0xA0], 1), vec![0x7C]);
    // identity
    assert_eq!(chip.exchange(&vec![0x9F, 0x00], 2), vec![0x2C, 0x24]);
    assert_eq!(chip.exchange(&vec![0x9F, 0x00], 4), vec![0x2C, 0x24, 0x00, 0x00]);
    assert_eq!(chip.exchange(&vec![0x9F, 0x00], 1), vec![0x2C]);
    // status: nothing set
    assert_eq!(chip.exchange(&vec![0x0F, 0xC0], 1), vec![0x00]);
    // write enable latch shows in the status
    assert_eq!(chip.exchange(&vec![0x06], 0), Vec::<u8>::new());
    assert_eq!(chip.exchange(&vec![0x0F, 0xC0], 1), vec![0x02]);
    // what is no command is ignored
    assert_eq!(chip.exchange(&vec![0x77, 0x01], 2), vec![0x00, 0x00]);
    assert_eq!(chip.exchange(&vec![0x0F, 0xC0], 1), vec![0x02]);
    let first = RowAddress { lun: 0, plane: 0, block: 0, page: 0 };
    assert_eq!(chip.page(first).unwrap(), vec![0xFF; 2176]);
    assert!(chip.page(RowAddress { lun: 1, plane: 0, block: 0, page: 0 }).is_none());
    assert!(!chip.set_page(RowAddress { lun: 0, plane: 0, block: 0, page: 64 }, &vec![1]));
    let mut ill_formed = geometry;
    ill_formed.page_size = 0;
    assert!(MockNand::new(ill_formed, 0).is_none());
}

#[test]
fn mock_nand_is_busy_for_a_set_number_of_status_reads() {
    let mut chip = MockNand::new(MT29F2G01ABAGDWB::geometry(), 2).unwrap();
    assert_eq!(chip.exchange(&vec![0xFF], 0), Vec::<u8>::new());
    assert_eq!(chip.exchange(&vec![0x0F, 0xC0], 1), vec![0x01]);
    assert_eq!(chip.exchange(&vec![0x0F, 0xC0], 1), vec![0x01]);
    assert_eq!(chip.exchange(&vec![0x0F, 0xC0], 1), vec![0x00]);
    chip.set_stuck(true);
    for _ in 0..5 {
        assert_eq!(chip.exchange(&vec![0x0F, 0xC0], 1), vec![0x01]);
    }
    chip.set_stuck(false);
    assert_eq!(chip.exchange(&vec![0x0F, 0xC0], 1), vec![0x00]);
}

#[test]
fn mock_nand_program_load_places_the_payload() {
    let mut chip = MockNand::new(MT29F2G01ABAGDWB::geometry(), 0).unwrap();
    assert_eq!(chip.exchange(&vec![0x1F, 0xA0, 0x00], 0), Vec::<u8>::new());
    assert!(chip.is_unlocked());
    assert_eq!(chip.exchange(&vec![0x06], 0), Vec::<u8>::new());
    assert_eq!(chip.exchange(&vec![0x02, 0x00, 0x02, 0xAA, 0xBB], 0), Vec::<u8>::new());
    assert_eq!(chip.exchange(&vec![0x03, 0x00, 0x00, 0x00], 6), vec![0xFF, 0xFF, 0xAA, 0xBB, 0xFF, 0xFF]);
    assert_eq!(chip.exchange(&vec![0x10, 0x00, 0x00, 0x01], 0), Vec::<u8>::new());
    let page = chip.page(RowAddress { lun: 0, plane: 0, block: 0, page: 1 }).unwrap();
    assert_eq!(&page[..5], &[0xFF, 0xFF, 0xAA, 0xBB, 0xFF]);
    // the latch is cleared: a second program fails and shows in the status
    assert_eq!(chip.exchange(&vec![0x10, 0x00, 0x00, 0x02], 0), Vec::<u8>::new());
    assert_eq!(chip.exchange(&vec![0x0F, 0xC0], 1), vec![0x08]);
    // beyond the cache the chip has nothing to say
    assert_eq!(chip.exchange(&vec![0x03, 0x08, 0x7F, 0x00], 3), vec![0xFF, 0x00, 0x00]);
}

#[test]
fn mock_pwm_pin() {
    let mut pin = MockPwmPin::Working { duty_cycle: 0.25_f32, frequency: Frequency::from_hertz(50) };
    assert_eq!(pin.get_duty_cycle(), 0.25);
    assert_eq!(pin.duty_cycle(), Some(0.25));
    assert_eq!(pin.set_duty_cycle(0.75), Ok(()));
    assert_eq!(pin.get_duty_cycle(), 0.75);
    assert_eq!(pin.set_frequency(Frequency::from_kilohertz(2)), Ok(()));
    assert!(matches!(
        pin,
        MockPwmPin::Working { duty_cycle, frequency } if duty_cycle == 0.75 && frequency.as_hertz() == 2_000
    ));
    let mut failing: MockPwmPin<u8> = MockPwmPin::Failing;
    assert_eq!(failing.duty_cycle(), None);
    assert_eq!(failing.set_duty_cycle(1), Err(MockEmptyError));
    assert_eq!(failing.set_frequency(Frequency::zero()), Err(MockEmptyError));
    assert!(matches!(failing, MockPwmPin::Failing));
}

#[test]
fn alarm_steps_of_a_timer_pwm() {
    let on = SmallDuration::from_millis(3);
    let off = SmallDuration::from_millis(17);
    // a clock of 1 MHz counts 1000 ticks in a millisecond
    assert_eq!(alarm_step(true, 5_000, on, off, 1_000_000), AlarmStep { set_high: false, alarm: 8_000 });
    assert_eq!(alarm_step(false, 8_000, on, off, 1_000_000), AlarmStep { set_high: true, alarm: 25_000 });
    assert_eq!(
        checked_alarm_step(false, u64::MAX - 17_000, on, off, 1_000_000),
        Some(AlarmStep { set_high: true, alarm: u64::MAX })
    );
    assert_eq!(checked_alarm_step(false, u64::MAX - 16_999, on, off, 1_000_000), None);
    assert_eq!(
        checked_alarm_step(true, u64::MAX - 16_999, on, off, 1_000_000),
        Some(AlarmStep { set_high: false, alarm: u64::MAX - 13_999 })
    );
    assert_eq!(
        checked_alarm_step(true, 7, SmallDuration::zero(), off, 80_000_000),
        Some(AlarmStep { set_high: false, alarm: 7 })
    );
}

#[test]
fn adc_readings_as_shares() {
    assert_eq!(ADC_MAX_READABLE_MILLIVOLTS, 3250);
    let most = AdcReading::max_readable();
    assert_eq!(most, AdcReading(3250));
    assert!(AdcReading(0).is_share_of(&most));
    assert!(AdcReading(3250).is_share_of(&most));
    assert!(!AdcReading(3251).is_share_of(&most));
    assert!(!AdcReading(0).is_share_of(&AdcReading(0)));
    assert!(!AdcReading(1).is_share_of(&AdcReading(0)));
}
