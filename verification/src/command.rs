//! PDU commands, their codes and the four address bytes that follow a code on the wire.

use crate::bytes::{le_u16, le_u32, u16_from_le, u32_from_le};
use vstd::prelude::*;
use vstd::slice::slice_subrange;

verus! {

/// PDU command.
#[allow(inconsistent_fields)]
#[derive(PartialEq, Eq, Structural, Debug, Copy, Clone)]
pub enum Command {
    /// No operation.
    Nop,
    /// APRD.
    Aprd {
        /// Auto increment counter.
        address: u16,
        /// Memory location to read from.
        register: u16,
    },
    /// FPRD.
    Fprd {
        /// Configured station address.
        address: u16,
        /// Memory location to read from.
        register: u16,
    },
    /// BRD.
    Brd {
        /// Autoincremented by each slave visited.
        address: u16,
        /// Memory location to read from.
        register: u16,
    },
    /// LRD.
    Lrd {
        /// Logical address.
        address: u32,
    },
    /// BWR.
    Bwr {
        /// Autoincremented by each slave visited.
        address: u16,
        /// Memory location to write to.
        register: u16,
    },
    /// APWR.
    Apwr {
        /// Auto increment counter.
        address: u16,
        /// Memory location to write to.
        register: u16,
    },
    /// FPWR.
    Fpwr {
        /// Configured station address.
        address: u16,
        /// Memory location to read from.
        register: u16,
    },
    /// FRMW.
    Frmw {
        /// Configured station address.
        address: u16,
        /// Memory location to read from.
        register: u16,
    },
    /// LWR.
    Lwr {
        /// Logical address.
        address: u32,
    },
    /// LRW.
    Lrw {
        /// Logical address.
        address: u32,
    },
}

impl Default for Command {
    /// No operation.
    fn default() -> (command: Self)
        ensures
            command == Command::Nop,
    {
        Command::Nop
    }
}

/// Broadcast or configured station addressing.
#[derive(PartialEq, Eq, Structural, Debug, Copy, Clone)]
pub enum CommandCode {
    Nop,
    // Reads
    Aprd,
    Fprd,
    Brd,
    Lrd,
    // Writes
    Bwr,
    Apwr,
    Fpwr,
    Frmw,
    Lwr,
    // Read/writes
    Lrw,
}

impl Default for CommandCode {
    /// No operation.
    fn default() -> (code: Self)
        ensures
            code == CommandCode::Nop,
    {
        CommandCode::Nop
    }
}

impl Command {
    /// The code of a command.
    pub open spec fn spec_code(self) -> CommandCode {
        match self {
            Command::Nop => CommandCode::Nop,
            Command::Aprd { .. } => CommandCode::Aprd,
            Command::Fprd { .. } => CommandCode::Fprd,
            Command::Brd { .. } => CommandCode::Brd,
            Command::Lrd { .. } => CommandCode::Lrd,
            Command::Bwr { .. } => CommandCode::Bwr,
            Command::Apwr { .. } => CommandCode::Apwr,
            Command::Fpwr { .. } => CommandCode::Fpwr,
            Command::Frmw { .. } => CommandCode::Frmw,
            Command::Lwr { .. } => CommandCode::Lwr,
            Command::Lrw { .. } => CommandCode::Lrw,
        }
    }

    /// The four address bytes of a command: a 16 bit address and a 16 bit register, or a 32 bit
    /// logical address.
    pub open spec fn spec_address(self) -> Seq<u8> {
        match self {
            Command::Nop => seq![0, 0, 0, 0],
            Command::Aprd { address, register }
            | Command::Fprd { address, register }
            | Command::Brd { address, register }
            | Command::Bwr { address, register }
            | Command::Apwr { address, register }
            | Command::Fpwr { address, register }
            | Command::Frmw { address, register } => crate::bytes::le_16(address)
                + crate::bytes::le_16(register),
            Command::Lrd { address } | Command::Lwr { address } | Command::Lrw { address } =>
                crate::bytes::le_32(address),
        }
    }

    /// Get just the command code for a command.
    pub fn code(&self) -> (code: CommandCode)
        ensures
            code == self.spec_code(),
    {
        match self {
            Command::Nop => CommandCode::Nop,

            // Reads
            Command::Aprd { .. } => CommandCode::Aprd,
            Command::Fprd { .. } => CommandCode::Fprd,
            Command::Brd { .. } => CommandCode::Brd,
            Command::Lrd { .. } => CommandCode::Lrd,

            // Writes
            Command::Bwr { .. } => CommandCode::Bwr,
            Command::Apwr { .. } => CommandCode::Apwr,
            Command::Fpwr { .. } => CommandCode::Fpwr,
            Command::Lwr { .. } => CommandCode::Lwr,
            Command::Frmw { .. } => CommandCode::Frmw,

            // Read/writes
            Command::Lrw { .. } => CommandCode::Lrw,
        }
    }

    /// Get the address value for the command.
    pub fn address(&self) -> (bytes: [u8; 4])
        ensures
            bytes@ == self.spec_address(),
    {
        match *self {
            Command::Nop => [0, 0, 0, 0],

            Command::Aprd { address, register }
            | Command::Apwr { address, register }
            | Command::Fprd { address, register }
            | Command::Fpwr { address, register }
            | Command::Frmw { address, register }
            | Command::Brd { address, register }
            | Command::Bwr { address, register } => {
                let low = le_u16(address);
                let high = le_u16(register);

                [low[0], low[1], high[0], high[1]]
            },
            Command::Lrd { address } | Command::Lwr { address } | Command::Lrw { address } => {
                le_u32(address)
            },
        }
    }
}

/// Why an address could not be parsed.
#[derive(PartialEq, Eq, Debug, Copy, Clone)]
pub enum AddressError<'a> {
    /// The input ended too early. Holds the input from the first integer that is incomplete.
    Eof(&'a [u8]),
}

/// A number that is not the code of any command.
#[derive(PartialEq, Eq, Structural, Debug, Copy, Clone)]
pub struct UnknownCommandCode {
    pub number: u8,
}

impl CommandCode {
    /// The number that stands for this code on the wire.
    pub open spec fn number(self) -> u8 {
        match self {
            CommandCode::Nop => 0x00,
            CommandCode::Aprd => 0x01,
            CommandCode::Fprd => 0x04,
            CommandCode::Brd => 0x07,
            CommandCode::Lrd => 0x0A,
            CommandCode::Bwr => 0x08,
            CommandCode::Apwr => 0x02,
            CommandCode::Fpwr => 0x05,
            CommandCode::Frmw => 0x0E,
            CommandCode::Lwr => 0x0B,
            CommandCode::Lrw => 0x0C,
        }
    }

    /// Commands with this code carry a 32 bit logical address.
    pub open spec fn is_logical(self) -> bool {
        self == CommandCode::Lrd || self == CommandCode::Lwr || self == CommandCode::Lrw
    }

    /// The command with this code whose address is encoded in the first four of the given bytes.
    pub open spec fn command(self, bytes: Seq<u8>) -> Command {
        let address = crate::bytes::word_16(bytes[0], bytes[1]);
        let register = crate::bytes::word_16(bytes[2], bytes[3]);
        let logical = crate::bytes::word_32(address, register);
        match self {
            CommandCode::Nop => Command::Nop,
            CommandCode::Aprd => Command::Aprd { address, register },
            CommandCode::Fprd => Command::Fprd { address, register },
            CommandCode::Brd => Command::Brd { address, register },
            CommandCode::Lrd => Command::Lrd { address: logical },
            CommandCode::Bwr => Command::Bwr { address, register },
            CommandCode::Apwr => Command::Apwr { address, register },
            CommandCode::Fpwr => Command::Fpwr { address, register },
            CommandCode::Frmw => Command::Frmw { address, register },
            CommandCode::Lwr => Command::Lwr { address: logical },
            CommandCode::Lrw => Command::Lrw { address: logical },
        }
    }

    /// The number that stands for this code on the wire.
    pub fn as_u8(self) -> (number: u8)
        ensures
            number == self.number(),
    {
        match self {
            CommandCode::Nop => 0x00,
            CommandCode::Aprd => 0x01,
            CommandCode::Fprd => 0x04,
            CommandCode::Brd => 0x07,
            CommandCode::Lrd => 0x0A,
            CommandCode::Bwr => 0x08,
            CommandCode::Apwr => 0x02,
            CommandCode::Fpwr => 0x05,
            CommandCode::Frmw => 0x0E,
            CommandCode::Lwr => 0x0B,
            CommandCode::Lrw => 0x0C,
        }
    }

    /// The code that the given number stands for.
    pub fn try_from_primitive(number: u8) -> (code: Result<CommandCode, UnknownCommandCode>)
        ensures
            code matches Ok(c) ==> c.number() == number,
            code matches Err(e) ==> e.number == number && forall|c: CommandCode|
                #![trigger c.number()]
                c.number() != number,
    {
        match number {
            0x00 => Ok(CommandCode::Nop),
            0x01 => Ok(CommandCode::Aprd),
            0x04 => Ok(CommandCode::Fprd),
            0x07 => Ok(CommandCode::Brd),
            0x0A => Ok(CommandCode::Lrd),
            0x08 => Ok(CommandCode::Bwr),
            0x02 => Ok(CommandCode::Apwr),
            0x05 => Ok(CommandCode::Fpwr),
            0x0E => Ok(CommandCode::Frmw),
            0x0B => Ok(CommandCode::Lwr),
            0x0C => Ok(CommandCode::Lrw),
            _ => Err(UnknownCommandCode { number }),
        }
    }

    /// Parse an address, producing a [`Command`] and the input that follows the address.
    ///
    /// A no operation has no address to parse: all input is left over.
    pub fn parse_address<'a>(self, i: &'a [u8]) -> (parsed: Result<
        (&'a [u8], Command),
        AddressError<'a>,
    >)
        ensures
            match parsed {
                Ok((rest, command)) => if self == CommandCode::Nop {
                    rest@ == i@ && command == Command::Nop
                } else {
                    i@.len() >= 4 && rest@ == i@.skip(4) && command == self.command(i@)
                },
                Err(AddressError::Eof(at)) => self != CommandCode::Nop && i@.len() < 4 && at@ == (
                if !self.is_logical() && i@.len() >= 2 {
                    i@.skip(2)
                } else {
                    i@
                }),
            },
    {
        match self {
            CommandCode::Nop => Ok((i, Command::Nop)),

            CommandCode::Aprd => match parse_words(i) {
                Ok((rest, address, register)) => Ok((rest, Command::Aprd { address, register })),
                Err(e) => Err(e),
            },
            CommandCode::Fprd => match parse_words(i) {
                Ok((rest, address, register)) => Ok((rest, Command::Fprd { address, register })),
                Err(e) => Err(e),
            },
            CommandCode::Brd => match parse_words(i) {
                Ok((rest, address, register)) => Ok((rest, Command::Brd { address, register })),
                Err(e) => Err(e),
            },
            CommandCode::Lrd => match parse_long(i) {
                Ok((rest, address)) => Ok((rest, Command::Lrd { address })),
                Err(e) => Err(e),
            },

            CommandCode::Bwr => match parse_words(i) {
                Ok((rest, address, register)) => Ok((rest, Command::Bwr { address, register })),
                Err(e) => Err(e),
            },
            CommandCode::Apwr => match parse_words(i) {
                Ok((rest, address, register)) => Ok((rest, Command::Apwr { address, register })),
                Err(e) => Err(e),
            },
            CommandCode::Fpwr => match parse_words(i) {
                Ok((rest, address, register)) => Ok((rest, Command::Fpwr { address, register })),
                Err(e) => Err(e),
            },
            CommandCode::Frmw => match parse_words(i) {
                Ok((rest, address, register)) => Ok((rest, Command::Frmw { address, register })),
                Err(e) => Err(e),
            },
            CommandCode::Lwr => match parse_long(i) {
                Ok((rest, address)) => Ok((rest, Command::Lwr { address })),
                Err(e) => Err(e),
            },

            CommandCode::Lrw => match parse_long(i) {
                Ok((rest, address)) => Ok((rest, Command::Lrw { address })),
                Err(e) => Err(e),
            },
        }
    }
}

impl TryFrom<u8> for CommandCode {
    type Error = UnknownCommandCode;

    fn try_from(number: u8) -> (code: Result<Self, UnknownCommandCode>) {
        let code = CommandCode::try_from_primitive(number);
        proof {
            if let Ok(c) = code {
                let d = choose|d: CommandCode| #[trigger] d.number() == number;
                law_command_numbers_differ(c, d);
            }
        }
        code
    }
}

impl vstd::std_specs::convert::TryFromSpecImpl<u8> for CommandCode {
    open spec fn obeys_try_from_spec() -> bool {
        true
    }

    open spec fn try_from_spec(number: u8) -> Result<Self, UnknownCommandCode> {
        if exists|c: CommandCode| #[trigger] c.number() == number {
            Ok(choose|c: CommandCode| #[trigger] c.number() == number)
        } else {
            Err(UnknownCommandCode { number })
        }
    }
}

/// Parse two 16 bit integers.
fn parse_words<'a>(i: &'a [u8]) -> (parsed: Result<(&'a [u8], u16, u16), AddressError<'a>>)
    ensures
        match parsed {
            Ok((rest, address, register)) => i@.len() >= 4 && rest@ == i@.skip(4) && address
                == crate::bytes::word_16(i@[0], i@[1]) && register == crate::bytes::word_16(
                i@[2],
                i@[3],
            ),
            Err(AddressError::Eof(at)) => i@.len() < 4 && at@ == (if i@.len() >= 2 {
                i@.skip(2)
            } else {
                i@
            }),
        },
{
    if i.len() < 2 {
        return Err(AddressError::Eof(i));
    }
    if i.len() < 4 {
        return Err(AddressError::Eof(slice_subrange(i, 2, i.len())));
    }
    Ok((slice_subrange(i, 4, i.len()), u16_from_le(i[0], i[1]), u16_from_le(i[2], i[3])))
}

/// Parse one 32 bit integer.
fn parse_long<'a>(i: &'a [u8]) -> (parsed: Result<(&'a [u8], u32), AddressError<'a>>)
    ensures
        match parsed {
            Ok((rest, address)) => i@.len() >= 4 && rest@ == i@.skip(4) && address
                == crate::bytes::word_32(
                crate::bytes::word_16(i@[0], i@[1]),
                crate::bytes::word_16(i@[2], i@[3]),
            ),
            Err(AddressError::Eof(at)) => i@.len() < 4 && at@ == i@,
        },
{
    if i.len() < 4 {
        return Err(AddressError::Eof(i));
    }
    let low: u16 = u16_from_le(i[0], i[1]);
    let high: u16 = u16_from_le(i[2], i[3]);

    Ok((slice_subrange(i, 4, i.len()), u32_from_le(low, high)))
}

/// Parsing the address bytes of a command under the command's code gives the command back,
/// whatever follows the bytes.
pub proof fn law_parse_reads_back_address(command: Command, rest: Seq<u8>)
    ensures
        command.spec_code().command(command.spec_address() + rest) == command,
        command.spec_address().len() == 4,
        (command.spec_address() + rest).skip(4) == rest,
{
    let bytes = command.spec_address() + rest;
    match command {
        Command::Lrd { address } | Command::Lwr { address } | Command::Lrw { address } => {
            crate::bytes::law_32_bit_round_trip(address, 0, 0);
        },
        _ => {},
    }
    assert(bytes.skip(4) =~= rest);
}

/// The command parsed under a code has that code, and its address bytes are those that were parsed.
pub proof fn law_address_gives_back_parsed_bytes(code: CommandCode, bytes: Seq<u8>)
    requires
        bytes.len() >= 4,
    ensures
        code.command(bytes).spec_code() == code,
        code != CommandCode::Nop ==> code.command(bytes).spec_address() == bytes.take(4),
{
    let address = crate::bytes::word_16(bytes[0], bytes[1]);
    let register = crate::bytes::word_16(bytes[2], bytes[3]);
    crate::bytes::law_16_bit_round_trip(0, bytes[0], bytes[1]);
    crate::bytes::law_16_bit_round_trip(0, bytes[2], bytes[3]);
    crate::bytes::law_32_bit_round_trip(0, address, register);
    assert(crate::bytes::le_16(address) + crate::bytes::le_16(register) =~= bytes.take(4));
}

/// No two command codes share a number.
pub proof fn law_command_numbers_differ(a: CommandCode, b: CommandCode)
    ensures
        a.number() == b.number() ==> a == b,
{
}

/// The address and the register of a command that has both.
pub open spec fn station_and_register(command: Command) -> Option<(u16, u16)> {
    match command {
        Command::Aprd { address, register }
        | Command::Fprd { address, register }
        | Command::Brd { address, register }
        | Command::Bwr { address, register }
        | Command::Apwr { address, register }
        | Command::Fpwr { address, register }
        | Command::Frmw { address, register } => Some((address, register)),
        _ => None,
    }
}

/// The logical address of a command that has one.
pub open spec fn logical_address(command: Command) -> Option<u32> {
    match command {
        Command::Lrd { address } | Command::Lwr { address } | Command::Lrw { address } => Some(
            address,
        ),
        _ => None,
    }
}

/// The first two address bytes of a command are the low and the high byte of its address, and the
/// other two are those of its register. The four bytes of a logical address go from the lowest to the
/// highest. A no operation has zeroes.
pub proof fn law_address_comes_before_register(command: Command, bytes: [u8; 4])
    requires
        call_ensures(Command::address, (&command,), bytes),
    ensures
        station_and_register(command) matches Some((address, register)) ==> bytes@[0] + 0x100
            * bytes@[1] == address && bytes@[2] + 0x100 * bytes@[3] == register,
        logical_address(command) matches Some(address) ==> bytes@[0] + 0x100 * bytes@[1] + 0x1_0000
            * bytes@[2] + 0x100_0000 * bytes@[3] == address,
        command == Command::Nop ==> bytes@[0] == 0 && bytes@[1] == 0 && bytes@[2] == 0 && bytes@[3]
            == 0,
        command.spec_address() == bytes@,
{
}

/// An address is parsed from exactly four bytes, in the places where it is written: address first,
/// register second, each with its low byte first. What follows the four bytes is left over. A no
/// operation takes no bytes and always succeeds.
pub proof fn law_parse_takes_address_and_then_register<'a>(
    code: CommandCode,
    i: &'a [u8],
    parsed: Result<(&'a [u8], Command), AddressError<'a>>,
)
    requires
        call_ensures(CommandCode::parse_address, (code, i), parsed),
    ensures
        parsed is Ok <==> code == CommandCode::Nop || i@.len() >= 4,
        parsed matches Ok((rest, command)) ==> {
            let taken = if code == CommandCode::Nop {
                0int
            } else {
                4
            };
            &&& rest@.len() == i@.len() - taken
            &&& forall|k: int| 0 <= k < rest@.len() ==> #[trigger] rest@[k] == i@[k + taken]
            &&& command.spec_code() == code
            &&& (station_and_register(command) matches Some((address, register)) ==> address
                == i@[0] + 0x100 * i@[1] && register == i@[2] + 0x100 * i@[3])
            &&& (logical_address(command) matches Some(address) ==> address == i@[0] + 0x100
                * i@[1] + 0x1_0000 * i@[2] + 0x100_0000 * i@[3])
        },
{
}

/// When the input ends too early, the error points at the integer that is incomplete: whole 16 bit
/// integers are skipped, and a 32 bit integer is never taken in part.
pub proof fn law_short_input_is_reported_from_its_last_integer<'a>(
    code: CommandCode,
    i: &'a [u8],
    parsed: Result<(&'a [u8], Command), AddressError<'a>>,
)
    requires
        call_ensures(CommandCode::parse_address, (code, i), parsed),
    ensures
        parsed matches Err(AddressError::Eof(at)) ==> {
            let long = code == CommandCode::Lrd || code == CommandCode::Lwr || code
                == CommandCode::Lrw;
            &&& i@.len() < 4
            &&& at@.len() == if long {
                i@.len()
            } else {
                i@.len() % 2
            }
            &&& forall|k: int|
                0 <= k < at@.len() ==> #[trigger] at@[k] == i@[i@.len() - at@.len() + k]
        },
{
}

/// How the slaves are addressed that a command is for: by their positions, by their configured
/// addresses, all of them, or by logical addresses.
pub open spec fn addressing_mode(command: Command) -> int {
    match command {
        Command::Aprd { .. } | Command::Apwr { .. } => 0,
        Command::Fprd { .. } | Command::Fpwr { .. } => 1,
        Command::Brd { .. } | Command::Bwr { .. } => 2,
        _ => 3,
    }
}

/// What a command does: 1 for a read, 2 for a write, 3 for both.
pub open spec fn access(command: Command) -> int {
    match command {
        Command::Aprd { .. } | Command::Fprd { .. } | Command::Brd { .. } | Command::Lrd { .. } =>
            1,
        Command::Apwr { .. } | Command::Bwr { .. } | Command::Fpwr { .. } | Command::Lwr { .. } =>
            2,
        _ => 3,
    }
}

/// The number of a command on the wire follows from how it addresses slaves and from what it does.
/// Only a no operation and a read with multiple write have numbers of their own.
pub proof fn law_command_number_says_mode_and_access(
    command: Command,
    code: CommandCode,
    number: u8,
)
    requires
        call_ensures(Command::code, (&command,), code),
        call_ensures(CommandCode::as_u8, (code,), number),
    ensures
        code == command.spec_code(),
        number == code.number(),
        number == if command == Command::Nop {
            0
        } else if command is Frmw {
            14
        } else {
            3 * addressing_mode(command) + access(command)
        },
{
}

/// A number stands for a command code exactly if it is one that a command has, and then the code has
/// that number.
pub proof fn law_numbers_stand_for_codes(
    number: u8,
    code: Result<CommandCode, UnknownCommandCode>,
    back: u8,
)
    requires
        call_ensures(CommandCode::try_from_primitive, (number,), code),
        code matches Ok(c) ==> call_ensures(CommandCode::as_u8, (c,), back),
    ensures
        code is Ok <==> number == 0 || number == 12 || number == 14 || (number < 12 && number % 3
            != 0),
        code is Ok ==> back == number,
        code matches Err(e) ==> e.number == number,
{
    assert(CommandCode::Nop.number() == 0);
    assert(CommandCode::Aprd.number() == 1);
    assert(CommandCode::Apwr.number() == 2);
    assert(CommandCode::Fprd.number() == 4);
    assert(CommandCode::Fpwr.number() == 5);
    assert(CommandCode::Brd.number() == 7);
    assert(CommandCode::Bwr.number() == 8);
    assert(CommandCode::Lrd.number() == 10);
    assert(CommandCode::Lwr.number() == 11);
    assert(CommandCode::Lrw.number() == 12);
    assert(CommandCode::Frmw.number() == 14);
}

} // verus!
