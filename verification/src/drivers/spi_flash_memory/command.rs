//! The command table: what each command of the chip looks like on the wire.
//!
//! Every command is one opcode byte followed by its address and dummy bytes. "Program
//! load" is followed by the bytes to program; "read ID", "get feature" and "read from
//! cache" are answered by the chip with bytes of their own.

use vstd::prelude::*;

use super::address::RowAddress;
use super::chip::ChipGeometry;
use super::feature::FeatureRegister;

verus! {

/// Opcode of the reset command.
pub const OPCODE_RESET: u8 = 0xFF;

/// Opcode of the "read ID" command.
pub const OPCODE_READ_ID: u8 = 0x9F;

/// Opcode of the "get feature" command.
pub const OPCODE_GET_FEATURES: u8 = 0x0F;

/// Opcode of the "set feature" command.
pub const OPCODE_SET_FEATURES: u8 = 0x1F;

/// Opcode of the "write enable" command.
pub const OPCODE_WRITE_ENABLE: u8 = 0x06;

/// Opcode of the "page read" command, which loads a page into the cache.
pub const OPCODE_PAGE_READ: u8 = 0x13;

/// Opcode of the "read from cache" command.
pub const OPCODE_READ_FROM_CACHE: u8 = 0x03;

/// Opcode of the "program load" command, which fills the cache.
pub const OPCODE_PROGRAM_LOAD: u8 = 0x02;

/// Opcode of the "program execute" command, which writes the cache to a page.
pub const OPCODE_PROGRAM_EXECUTE: u8 = 0x10;

/// Opcode of the "block erase" command.
pub const OPCODE_BLOCK_ERASE: u8 = 0xD8;

/// The byte sent where the chip expects a byte it ignores.
pub const DUMMY_BYTE: u8 = 0x00;

/// A command of the chip.
#[derive(Clone, Copy, Debug, PartialEq, Eq, Structural)]
pub enum Command {
    /// Stops what the chip is doing and puts it in its power-on state.
    Reset,
    /// Asks for the manufacturer ID and the device ID.
    ReadId,
    /// Asks for the value of a feature register.
    GetFeatures(FeatureRegister),
    /// Sets a feature register to a value.
    SetFeatures(FeatureRegister, u8),
    /// Sets the write enable latch, which program and erase need and clear.
    WriteEnable,
    /// Loads a page, data and spare area, from the array into the cache.
    PageRead(RowAddress),
    /// Reads `length` bytes of the cache, starting at `column`.
    ReadFromCache { column: u16, length: u16 },
    /// Fills the cache from `column` on with the bytes that follow the command.
    ProgramLoad { column: u16 },
    /// Writes the cache to a page of the array.
    ProgramExecute(RowAddress),
    /// Erases the block that holds a page.
    BlockErase(RowAddress),
}

/// The high byte of a column.
pub open spec fn column_high(column: u16) -> u8 {
    (column / 0x100) as u8
}

/// The low byte of a column.
pub open spec fn column_low(column: u16) -> u8 {
    (column % 0x100) as u8
}

impl Command {
    /// The row address a command carries, if it carries one.
    pub open spec fn spec_row(&self) -> Option<RowAddress> {
        match self {
            Command::PageRead(row) => Some(*row),
            Command::ProgramExecute(row) => Some(*row),
            Command::BlockErase(row) => Some(*row),
            _ => None,
        }
    }

    /// A command fits a chip when the row address it carries, if any, is valid for it.
    pub open spec fn spec_fits(&self, geometry: ChipGeometry) -> bool {
        self.spec_row() matches Some(row) ==> row.spec_is_valid(geometry)
    }

    /// The opcode of the command.
    pub open spec fn spec_opcode(&self) -> u8 {
        match self {
            Command::Reset => OPCODE_RESET,
            Command::ReadId => OPCODE_READ_ID,
            Command::GetFeatures(_) => OPCODE_GET_FEATURES,
            Command::SetFeatures(_, _) => OPCODE_SET_FEATURES,
            Command::WriteEnable => OPCODE_WRITE_ENABLE,
            Command::PageRead(_) => OPCODE_PAGE_READ,
            Command::ReadFromCache { .. } => OPCODE_READ_FROM_CACHE,
            Command::ProgramLoad { .. } => OPCODE_PROGRAM_LOAD,
            Command::ProgramExecute(_) => OPCODE_PROGRAM_EXECUTE,
            Command::BlockErase(_) => OPCODE_BLOCK_ERASE,
        }
    }

    /// The bytes of the command up to the payload: the opcode, then the address and dummy
    /// bytes.
    pub open spec fn spec_header(&self, geometry: ChipGeometry) -> Seq<u8> {
        match self {
            Command::Reset => seq![OPCODE_RESET],
            Command::ReadId => seq![OPCODE_READ_ID, DUMMY_BYTE],
            Command::GetFeatures(register) => seq![OPCODE_GET_FEATURES, register.spec_address()],
            Command::SetFeatures(register, value) => seq![
                OPCODE_SET_FEATURES,
                register.spec_address(),
                *value,
            ],
            Command::WriteEnable => seq![OPCODE_WRITE_ENABLE],
            Command::PageRead(row) => seq![OPCODE_PAGE_READ] + row.spec_to_bytes(geometry),
            Command::ReadFromCache { column, length } => seq![
                OPCODE_READ_FROM_CACHE,
                column_high(*column),
                column_low(*column),
                DUMMY_BYTE,
            ],
            Command::ProgramLoad { column } => seq![
                OPCODE_PROGRAM_LOAD,
                column_high(*column),
                column_low(*column),
            ],
            Command::ProgramExecute(row) => seq![OPCODE_PROGRAM_EXECUTE] + row.spec_to_bytes(
                geometry,
            ),
            Command::BlockErase(row) => seq![OPCODE_BLOCK_ERASE] + row.spec_to_bytes(geometry),
        }
    }

    /// Whether the bytes to program follow the header.
    pub open spec fn spec_takes_payload(&self) -> bool {
        self is ProgramLoad
    }

    /// All the bytes the host writes for the command.
    pub open spec fn spec_encode(&self, geometry: ChipGeometry, payload: Seq<u8>) -> Seq<u8> {
        if self.spec_takes_payload() {
            self.spec_header(geometry) + payload
        } else {
            self.spec_header(geometry)
        }
    }

    /// The number of bytes the chip answers the command with.
    pub open spec fn spec_response_length(&self) -> nat {
        match self {
            Command::ReadId => 2,
            Command::GetFeatures(_) => 1,
            Command::ReadFromCache { column, length } => *length as nat,
            _ => 0,
        }
    }

    /// No two commands of different kinds share an opcode, and every header starts with
    /// the opcode of its command.
    pub proof fn lemma_opcode_tells_kind(first: Command, second: Command, geometry: ChipGeometry)
        ensures
            first.spec_opcode() == second.spec_opcode() ==> {
                &&& first is Reset <==> second is Reset
                &&& first is ReadId <==> second is ReadId
                &&& first is GetFeatures <==> second is GetFeatures
                &&& first is SetFeatures <==> second is SetFeatures
                &&& first is WriteEnable <==> second is WriteEnable
                &&& first is PageRead <==> second is PageRead
                &&& first is ReadFromCache <==> second is ReadFromCache
                &&& first is ProgramLoad <==> second is ProgramLoad
                &&& first is ProgramExecute <==> second is ProgramExecute
                &&& first is BlockErase <==> second is BlockErase
            },
            first.spec_header(geometry).len() > 0,
            first.spec_header(geometry)[0] == first.spec_opcode(),
    {
    }

    /// The row address that three bytes of a command carry, most significant first.
    pub open spec fn spec_row_of_bytes(
        geometry: ChipGeometry,
        high: u8,
        middle: u8,
        low: u8,
    ) -> Option<RowAddress> {
        RowAddress::spec_from_raw(geometry, high * 0x1_0000 + middle * 0x100 + low)
    }

    /// The column that two bytes of a command carry, most significant first.
    pub open spec fn spec_column_of_bytes(high: u8, low: u8) -> u16 {
        (high * 0x100 + low) as u16
    }

    /// The command that the bytes `bytes` are, when the host reads `read_length` bytes in
    /// the same exchange. `None` where the bytes are no command of the table, or carry a
    /// register or a page that the chip does not have.
    pub open spec fn spec_decode(geometry: ChipGeometry, bytes: Seq<u8>, read_length: nat) -> Option<
        Command,
    > {
        if bytes.len() == 0 {
            None
        } else if bytes[0] == OPCODE_RESET && bytes.len() == 1 {
            Some(Command::Reset)
        } else if bytes[0] == OPCODE_READ_ID && bytes.len() == 2 {
            Some(Command::ReadId)
        } else if bytes[0] == OPCODE_GET_FEATURES && bytes.len() == 2 {
            match FeatureRegister::spec_from_address(bytes[1]) {
                Some(register) => Some(Command::GetFeatures(register)),
                None => None,
            }
        } else if bytes[0] == OPCODE_SET_FEATURES && bytes.len() == 3 {
            match FeatureRegister::spec_from_address(bytes[1]) {
                Some(register) => Some(Command::SetFeatures(register, bytes[2])),
                None => None,
            }
        } else if bytes[0] == OPCODE_WRITE_ENABLE && bytes.len() == 1 {
            Some(Command::WriteEnable)
        } else if bytes[0] == OPCODE_PAGE_READ && bytes.len() == 4 {
            match Self::spec_row_of_bytes(geometry, bytes[1], bytes[2], bytes[3]) {
                Some(row) => Some(Command::PageRead(row)),
                None => None,
            }
        } else if bytes[0] == OPCODE_READ_FROM_CACHE && bytes.len() == 4 && read_length
            <= u16::MAX {
            Some(
                Command::ReadFromCache {
                    column: Self::spec_column_of_bytes(bytes[1], bytes[2]),
                    length: read_length as u16,
                },
            )
        } else if bytes[0] == OPCODE_PROGRAM_LOAD && bytes.len() >= 3 {
            Some(Command::ProgramLoad { column: Self::spec_column_of_bytes(bytes[1], bytes[2]) })
        } else if bytes[0] == OPCODE_PROGRAM_EXECUTE && bytes.len() == 4 {
            match Self::spec_row_of_bytes(geometry, bytes[1], bytes[2], bytes[3]) {
                Some(row) => Some(Command::ProgramExecute(row)),
                None => None,
            }
        } else if bytes[0] == OPCODE_BLOCK_ERASE && bytes.len() == 4 {
            match Self::spec_row_of_bytes(geometry, bytes[1], bytes[2], bytes[3]) {
                Some(row) => Some(Command::BlockErase(row)),
                None => None,
            }
        } else {
            None
        }
    }

    /// The bytes to program that follow a "program load".
    pub open spec fn spec_payload_of(bytes: Seq<u8>) -> Seq<u8> {
        bytes.skip(3)
    }

    /// What a command is encoded as is decoded as that command, and the bytes to program are
    /// found behind the header of a "program load".
    pub proof fn lemma_decode_inverts_encode(&self, geometry: ChipGeometry, payload: Seq<u8>)
        requires
            geometry.well_formed(),
            self.spec_fits(geometry),
        ensures
            Self::spec_decode(
                geometry,
                self.spec_encode(geometry, payload),
                self.spec_response_length(),
            ) == Some(*self),
            self is ProgramLoad ==> Self::spec_payload_of(self.spec_encode(geometry, payload))
                == payload,
    {
        let bytes = self.spec_encode(geometry, payload);
        match *self {
            Command::GetFeatures(register) => {
                FeatureRegister::lemma_address_round_trip(register, 0);
            },
            Command::SetFeatures(register, value) => {
                FeatureRegister::lemma_address_round_trip(register, 0);
            },
            Command::PageRead(row) => {
                row.lemma_raw_round_trip(geometry);
                row.lemma_valid_bounds(geometry);
            },
            Command::ProgramExecute(row) => {
                row.lemma_raw_round_trip(geometry);
                row.lemma_valid_bounds(geometry);
            },
            Command::BlockErase(row) => {
                row.lemma_raw_round_trip(geometry);
                row.lemma_valid_bounds(geometry);
            },
            Command::ProgramLoad { column } => {
                assert(bytes.skip(3) =~= payload);
            },
            _ => {},
        }
    }

    /// Tells whether the row address the command carries, if any, is valid for the chip.
    pub fn fits(&self, geometry: &ChipGeometry) -> (fits: bool)
        ensures
            fits == self.spec_fits(*geometry),
    {
        match self {
            Command::PageRead(row) => row.is_valid(geometry),
            Command::ProgramExecute(row) => row.is_valid(geometry),
            Command::BlockErase(row) => row.is_valid(geometry),
            _ => true,
        }
    }

    /// The number of bytes the chip answers the command with.
    pub fn response_length(&self) -> (length: usize)
        ensures
            length == self.spec_response_length(),
    {
        match self {
            Command::ReadId => 2,
            Command::GetFeatures(_) => 1,
            Command::ReadFromCache { column, length } => *length as usize,
            _ => 0,
        }
    }

    /// All the bytes the host writes for the command. `payload` holds the bytes to program;
    /// only "program load" sends it.
    pub fn encode(&self, geometry: &ChipGeometry, payload: &Vec<u8>) -> (bytes: Vec<u8>)
        requires
            geometry.well_formed(),
            self.spec_fits(*geometry),
        ensures
            bytes@ == self.spec_encode(*geometry, payload@),
    {
        let mut bytes: Vec<u8> = Vec::new();
        match self {
            Command::Reset => {
                bytes.push(OPCODE_RESET);
            },
            Command::ReadId => {
                bytes.push(OPCODE_READ_ID);
                bytes.push(DUMMY_BYTE);
            },
            Command::GetFeatures(register) => {
                bytes.push(OPCODE_GET_FEATURES);
                bytes.push(register.address());
            },
            Command::SetFeatures(register, value) => {
                bytes.push(OPCODE_SET_FEATURES);
                bytes.push(register.address());
                bytes.push(*value);
            },
            Command::WriteEnable => {
                bytes.push(OPCODE_WRITE_ENABLE);
            },
            Command::PageRead(row) => {
                let address = row.to_bytes(geometry);
                bytes.push(OPCODE_PAGE_READ);
                bytes.push(address[0]);
                bytes.push(address[1]);
                bytes.push(address[2]);
            },
            Command::ReadFromCache { column, length } => {
                bytes.push(OPCODE_READ_FROM_CACHE);
                bytes.push((*column / 0x100) as u8);
                bytes.push((*column % 0x100) as u8);
                bytes.push(DUMMY_BYTE);
            },
            Command::ProgramLoad { column } => {
                bytes.push(OPCODE_PROGRAM_LOAD);
                bytes.push((*column / 0x100) as u8);
                bytes.push((*column % 0x100) as u8);
                let mut i: usize = 0;
                while i < payload.len()
                    invariant
                        i <= payload.len(),
                        bytes@ == self.spec_header(*geometry) + payload@.subrange(0, i as int),
                        self is ProgramLoad,
                    decreases payload.len() - i,
                {
                    bytes.push(payload[i]);
                    i += 1;
                }
                assert(payload@.subrange(0, i as int) =~= payload@);
            },
            Command::ProgramExecute(row) => {
                let address = row.to_bytes(geometry);
                bytes.push(OPCODE_PROGRAM_EXECUTE);
                bytes.push(address[0]);
                bytes.push(address[1]);
                bytes.push(address[2]);
            },
            Command::BlockErase(row) => {
                let address = row.to_bytes(geometry);
                bytes.push(OPCODE_BLOCK_ERASE);
                bytes.push(address[0]);
                bytes.push(address[1]);
                bytes.push(address[2]);
            },
        }
        assert(bytes@ =~= self.spec_encode(*geometry, payload@));
        bytes
    }
}

/// Every command that bytes are decoded as fits the chip.
pub proof fn lemma_decoded_command_fits(geometry: ChipGeometry, bytes: Seq<u8>, read_length: nat)
    requires
        geometry.well_formed(),
    ensures
        Command::spec_decode(geometry, bytes, read_length) is Some ==> Command::spec_decode(
            geometry,
            bytes,
            read_length,
        ).unwrap().spec_fits(geometry),
{
    if bytes.len() == 4 {
        let raw = bytes[1] * 0x1_0000 + bytes[2] * 0x100 + bytes[3];
        if 0 <= raw < geometry.spec_page_count() {
            RowAddress::lemma_from_raw_is_valid(geometry, raw);
        }
    }
}

impl Command {
    /// The command that the bytes `bytes` are, when the host reads `read_length` bytes in
    /// the same exchange, or `None` where the bytes are no command that the chip takes.
    pub fn decode(geometry: &ChipGeometry, bytes: &Vec<u8>, read_length: usize) -> (command: Option<
        Command,
    >)
        requires
            geometry.well_formed(),
        ensures
            command == Self::spec_decode(*geometry, bytes@, read_length as nat),
            command matches Some(found) ==> found.spec_fits(*geometry),
    {
        proof {
            lemma_decoded_command_fits(*geometry, bytes@, read_length as nat);
        }
        let length = bytes.len();
        if length == 0 {
            return None;
        }
        let opcode = bytes[0];
        if opcode == OPCODE_RESET && length == 1 {
            Some(Command::Reset)
        } else if opcode == OPCODE_READ_ID && length == 2 {
            Some(Command::ReadId)
        } else if opcode == OPCODE_GET_FEATURES && length == 2 {
            match FeatureRegister::from_address(bytes[1]) {
                Some(register) => Some(Command::GetFeatures(register)),
                None => None,
            }
        } else if opcode == OPCODE_SET_FEATURES && length == 3 {
            match FeatureRegister::from_address(bytes[1]) {
                Some(register) => Some(Command::SetFeatures(register, bytes[2])),
                None => None,
            }
        } else if opcode == OPCODE_WRITE_ENABLE && length == 1 {
            Some(Command::WriteEnable)
        } else if opcode == OPCODE_PAGE_READ && length == 4 {
            match Self::row_of_bytes(geometry, bytes[1], bytes[2], bytes[3]) {
                Some(row) => Some(Command::PageRead(row)),
                None => None,
            }
        } else if opcode == OPCODE_READ_FROM_CACHE && length == 4 && read_length <= 0xFFFF {
            Some(
                Command::ReadFromCache {
                    column: Self::column_of_bytes(bytes[1], bytes[2]),
                    length: read_length as u16,
                },
            )
        } else if opcode == OPCODE_PROGRAM_LOAD && length >= 3 {
            Some(Command::ProgramLoad { column: Self::column_of_bytes(bytes[1], bytes[2]) })
        } else if opcode == OPCODE_PROGRAM_EXECUTE && length == 4 {
            match Self::row_of_bytes(geometry, bytes[1], bytes[2], bytes[3]) {
                Some(row) => Some(Command::ProgramExecute(row)),
                None => None,
            }
        } else if opcode == OPCODE_BLOCK_ERASE && length == 4 {
            match Self::row_of_bytes(geometry, bytes[1], bytes[2], bytes[3]) {
                Some(row) => Some(Command::BlockErase(row)),
                None => None,
            }
        } else {
            None
        }
    }

    /// The row address that three bytes of a command carry, most significant first.
    fn row_of_bytes(geometry: &ChipGeometry, high: u8, middle: u8, low: u8) -> (row: Option<
        RowAddress,
    >)
        requires
            geometry.well_formed(),
        ensures
            row == Self::spec_row_of_bytes(*geometry, high, middle, low),
    {
        let raw: u32 = high as u32 * 0x1_0000 + middle as u32 * 0x100 + low as u32;
        RowAddress::from_raw(geometry, raw)
    }

    /// The column that two bytes of a command carry, most significant first.
    fn column_of_bytes(high: u8, low: u8) -> (column: u16)
        ensures
            column == Self::spec_column_of_bytes(high, low),
    {
        high as u16 * 0x100 + low as u16
    }
}

} // verus!
