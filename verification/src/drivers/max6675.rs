//! The MAX6675 thermocouple-to-digital converter: what the two bytes it sends mean.

use vstd::prelude::*;

verus! {

/// Why a temperature could not be read. `E` is the error of the SPI device.
#[derive(Debug)]
pub enum ReadError<E> {
    /// The SPI device failed.
    Spi(E),
    /// The converter says that no thermocouple is connected.
    OpenThermocouple,
}

/// The sixteen bits that the converter sends, the first byte being the more significant.
pub open spec fn spec_word(read_bytes: [u8; 2]) -> int {
    read_bytes@[0] * 0x100 + read_bytes@[1]
}

/// Bit 2 of the word says that the thermocouple input is open.
pub open spec fn spec_is_open(word: int) -> bool {
    (word / 4) % 2 == 1
}

/// The temperature in quarters of a degree Celsius: the word without its three lowest
/// bits.
pub open spec fn spec_quarter_degrees(word: int) -> int {
    word / 8
}

/// Takes the two bytes that the converter sent, in the order they came, and returns the
/// temperature in quarters of a degree Celsius, or the error of an open thermocouple.
pub fn decode_reading<E>(read_bytes: [u8; 2]) -> (reading: Result<u16, ReadError<E>>)
    ensures
        reading is Err <==> spec_is_open(spec_word(read_bytes)),
        reading matches Err(error) ==> error is OpenThermocouple,
        reading matches Ok(quarters) ==> quarters == spec_quarter_degrees(spec_word(read_bytes)),
{
    let read_value: u16 = read_bytes[0] as u16 * 0x100 + read_bytes[1] as u16;
    if (read_value / 4) % 2 == 1 {
        return Err(ReadError::OpenThermocouple);
    }
    Ok(read_value / 8)
}

} // verus!
