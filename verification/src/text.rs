//! Text that describes commands.

use crate::command::{logical_address, station_and_register, Command};
use vstd::prelude::*;

verus! {

/// The character of a decimal digit.
pub open spec fn digit(d: nat) -> char {
    (48 + d) as char
}

/// A number in decimal, without leading zeros.
pub open spec fn decimal(n: nat) -> Seq<char>
    decreases n,
{
    if n < 10 {
        seq![digit(n)]
    } else {
        decimal(n / 10).push(digit(n % 10))
    }
}

/// The text of a decimal digit.
fn digit_str(d: u32) -> (text: &'static str)
    requires
        d < 10,
    ensures
        text@ == seq![digit(d as nat)],
{
    proof {
        reveal_strlit("0");
        reveal_strlit("1");
        reveal_strlit("2");
        reveal_strlit("3");
        reveal_strlit("4");
        reveal_strlit("5");
        reveal_strlit("6");
        reveal_strlit("7");
        reveal_strlit("8");
        reveal_strlit("9");
    }
    match d {
        0 => "0",
        1 => "1",
        2 => "2",
        3 => "3",
        4 => "4",
        5 => "5",
        6 => "6",
        7 => "7",
        8 => "8",
        _ => "9",
    }
}

/// Append a number in decimal.
fn append_decimal(text: &mut String, n: u32)
    ensures
        final(text)@ == old(text)@ + decimal(n as nat),
    decreases n,
{
    if n >= 10 {
        append_decimal(text, n / 10);
    }
    text.append(digit_str(n % 10));
}

/// The text of a command with an address and a register.
pub open spec fn register_text(name: Seq<char>, address: u16, register: u16, end: Seq<char>) -> Seq<
    char,
> {
    name + "(addr "@ + decimal(address as nat) + ", reg "@ + decimal(register as nat) + end
}

/// The text of a command with a logical address.
pub open spec fn logical_text(name: Seq<char>, address: u32) -> Seq<char> {
    name + "(addr "@ + decimal(address as nat) + ")"@
}

fn register_string(name: &str, address: u16, register: u16, end: &str) -> (text: String)
    ensures
        text@ == register_text(name@, address, register, end@),
{
    let mut text = String::new();
    text.append(name);
    text.append("(addr ");
    append_decimal(&mut text, address as u32);
    text.append(", reg ");
    append_decimal(&mut text, register as u32);
    text.append(end);
    text
}

fn logical_string(name: &str, address: u32) -> (text: String)
    ensures
        text@ == logical_text(name@, address),
{
    let mut text = String::new();
    text.append(name);
    text.append("(addr ");
    append_decimal(&mut text, address);
    text.append(")");
    text
}

impl Command {
    /// The name of a command with its addresses in decimal.
    pub open spec fn text(self) -> Seq<char> {
        match self {
            Command::Nop => "NOP"@,
            Command::Aprd { address, register } => register_text("APRD"@, address, register, ")"@),
            Command::Fprd { address, register } => register_text("FPRD"@, address, register, ""@),
            Command::Brd { address, register } => register_text("BRD"@, address, register, ""@),
            Command::Lrd { address } => logical_text("LRD"@, address),
            Command::Bwr { address, register } => register_text("BWR"@, address, register, ""@),
            Command::Apwr { address, register } => register_text("APWR"@, address, register, ""@),
            Command::Fpwr { address, register } => register_text("FPWR"@, address, register, ""@),
            Command::Frmw { address, register } => register_text("FRMW"@, address, register, ""@),
            Command::Lwr { address } => logical_text("LWR"@, address),
            Command::Lrw { address } => logical_text("LRW"@, address),
        }
    }

    /// A description of the command, for messages.
    ///
    /// Only the text of an APRD closes the parenthesis that a register command opens.
    pub fn to_string(&self) -> (text: String)
        ensures
            text@ == self.text(),
    {
        match *self {
            Command::Nop => {
                let mut text = String::new();
                text.append("NOP");
                text
            },
            Command::Aprd { address, register } => register_string("APRD", address, register, ")"),
            Command::Fprd { address, register } => register_string("FPRD", address, register, ""),
            Command::Brd { address, register } => register_string("BRD", address, register, ""),
            Command::Lrd { address } => logical_string("LRD", address),
            Command::Bwr { address, register } => register_string("BWR", address, register, ""),
            Command::Apwr { address, register } => register_string("APWR", address, register, ""),
            Command::Fpwr { address, register } => register_string("FPWR", address, register, ""),
            Command::Frmw { address, register } => register_string("FRMW", address, register, ""),
            Command::Lwr { address } => logical_string("LWR", address),
            Command::Lrw { address } => logical_string("LRW", address),
        }
    }
}

/// The number that a text of decimal digits stands for.
pub open spec fn number_in(text: Seq<char>) -> nat
    decreases text.len(),
{
    if text.len() == 0 {
        0
    } else {
        10 * number_in(text.drop_last()) + (text.last() as nat - '0' as nat) as nat
    }
}

/// The text is the usual way to write the number: only digits, no leading zero, and their value is the
/// number.
pub open spec fn writes(text: Seq<char>, n: nat) -> bool {
    &&& text.len() > 0
    &&& forall|i: int| 0 <= i < text.len() ==> '0' as int <= #[trigger] text[i] as int <= '9' as int
    &&& text[0] == '0' ==> text.len() == 1
    &&& number_in(text) == n
}

/// Decimal texts are the usual way to write numbers.
pub proof fn law_decimal_writes_numbers(n: nat)
    ensures
        writes(decimal(n), n),
    decreases n,
{
    if n >= 10 {
        law_decimal_writes_numbers(n / 10);
        let high = decimal(n / 10);
        assert(high.push(digit(n % 10)).drop_last() =~= high);
        if high[0] == '0' {
            assert(high.drop_last() =~= Seq::<char>::empty());
            assert(number_in(high) == 0) by {
                reveal_with_fuel(number_in, 2);
            }
            assert(false);
        }
    } else {
        assert(decimal(n).drop_last() =~= Seq::<char>::empty());
        reveal_with_fuel(number_in, 2);
    }
}

/// The name of a command.
pub open spec fn mnemonic(command: Command) -> Seq<char> {
    match command {
        Command::Nop => "NOP"@,
        Command::Aprd { .. } => "APRD"@,
        Command::Fprd { .. } => "FPRD"@,
        Command::Brd { .. } => "BRD"@,
        Command::Lrd { .. } => "LRD"@,
        Command::Bwr { .. } => "BWR"@,
        Command::Apwr { .. } => "APWR"@,
        Command::Fpwr { .. } => "FPWR"@,
        Command::Frmw { .. } => "FRMW"@,
        Command::Lwr { .. } => "LWR"@,
        Command::Lrw { .. } => "LRW"@,
    }
}

/// The text of a command names it, and then writes its address, and after that its register if it has
/// one.
pub proof fn law_text_names_command_and_addresses(command: Command, text: String)
    requires
        call_ensures(Command::to_string, (&command,), text),
    ensures
        command == Command::Nop ==> text@ == mnemonic(command),
        station_and_register(command) matches Some((address, register)) ==> exists|
            a: Seq<char>,
            r: Seq<char>,
        |
            #![trigger writes(a, address as nat), writes(r, register as nat)]
            writes(a, address as nat) && writes(r, register as nat) && text@ == mnemonic(command)
                + "(addr "@ + a + ", reg "@ + r + if command is Aprd {
                ")"@
            } else {
                ""@
            },
        logical_address(command) matches Some(address) ==> exists|a: Seq<char>| #[trigger]
            writes(a, address as nat) && text@ == mnemonic(command) + "(addr "@ + a + ")"@,
{
    match station_and_register(command) {
        Some((address, register)) => {
            law_decimal_writes_numbers(address as nat);
            law_decimal_writes_numbers(register as nat);
        },
        None => {},
    }
    match logical_address(command) {
        Some(address) => {
            law_decimal_writes_numbers(address as nat);
        },
        None => {},
    }
}

} // verus!
