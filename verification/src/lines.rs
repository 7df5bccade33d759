//! The lines that the panel logs and that the console answers with.
use vstd::prelude::*;

use crate::encoder::{CountedPulse, EncoderDirection};
use crate::log;
use crate::log::PendingMessage;

verus! {

/// The character of a digit: `0` to `9`, then `a` to `f`.
pub open spec fn digit(value: nat) -> char {
    if value < 10 {
        (48 + value) as char
    } else {
        (87 + value) as char
    }
}

/// A number in a base up to sixteen, without leading zeros.
pub open spec fn numeral(value: nat, base: nat) -> Seq<char>
    decreases value,
{
    if value < base || base < 2 {
        seq![digit(value)]
    } else {
        proof {
            assert(value / base < value) by (nonlinear_arith)
                requires
                    value >= base >= 2,
            ;
        }
        numeral(value / base, base).push(digit(value % base))
    }
}

/// A number in decimal.
pub open spec fn decimal(value: int) -> Seq<char> {
    if value < 0 {
        "-"@ + numeral((-value) as nat, 10)
    } else {
        numeral(value as nat, 10)
    }
}

/// A number in hexadecimal.
pub open spec fn hexadecimal(value: u64) -> Seq<char> {
    numeral(value as nat, 16)
}

pub open spec fn bool_text(value: bool) -> Seq<char> {
    if value {
        "true"@
    } else {
        "false"@
    }
}

pub open spec fn direction_text(direction: EncoderDirection) -> Seq<char> {
    match direction {
        EncoderDirection::Increment => "Increment"@,
        EncoderDirection::Decrement => "Decrement"@,
    }
}

/// Why nothing could be read from or written to an endpoint.
#[derive(Clone, Copy, Debug, PartialEq, Eq, Structural)]
pub enum TransferError {
    BufferOverflow,
    Disabled,
}

pub open spec fn error_text(error: TransferError) -> Seq<char> {
    match error {
        TransferError::BufferOverflow => "BufferOverflow"@,
        TransferError::Disabled => "Disabled"@,
    }
}

fn write_numeral(message: &mut PendingMessage, value: u64, base: u64)
    requires
        2 <= base <= 16,
    ensures
        final(message)@ == log::clipped(
            old(message)@ + log::encode(numeral(value as nat, base as nat)),
        ),
        log::is_grown(*old(message), *final(message)),
    decreases value,
{
    broadcast use {log::law_pieces_join, log::law_growth_adds_up};

    let low: u64 = value % base;
    let ghost last = seq![digit(low as nat)];
    if value >= base {
        assert(value / base < value) by (nonlinear_arith)
            requires
                value >= base,
                base >= 2,
        ;
        write_numeral(message, value / base, base);
        assert(numeral(value as nat, base as nat) =~= numeral(
            value as nat / base as nat,
            base as nat,
        ) + last);
    } else {
        assert(low == value) by (nonlinear_arith)
            requires
                value < base,
                low == value % base,
        ;
        assert(last =~= numeral(value as nat, base as nat));
    }
    let ghost before = message@;
    let byte: u8 = if low < 10 {
        48 + low as u8
    } else {
        87 + low as u8
    };
    message.push_char(byte);
    proof {
        reveal_with_fuel(log::encode, 2);
        assert(last.drop_last() =~= Seq::empty());
        assert(log::encode(last) =~= seq![byte]);
        assert(before.push(byte) =~= before + log::encode(last));
    }
}

fn write_decimal(message: &mut PendingMessage, value: u64)
    ensures
        final(message)@ == log::clipped(old(message)@ + log::encode(decimal(value as int))),
        log::is_grown(*old(message), *final(message)),
{
    write_numeral(message, value, 10);
}

fn write_signed(message: &mut PendingMessage, value: i32)
    ensures
        final(message)@ == log::clipped(old(message)@ + log::encode(decimal(value as int))),
        log::is_grown(*old(message), *final(message)),
{
    broadcast use {log::law_pieces_join, log::law_growth_adds_up};

    if value < 0 {
        message.append("-");
        write_numeral(message, (-(value as i64)) as u64, 10);
    } else {
        write_numeral(message, value as u64, 10);
    }
}

fn write_bool(message: &mut PendingMessage, value: bool)
    ensures
        final(message)@ == log::clipped(old(message)@ + log::encode(bool_text(value))),
        log::is_grown(*old(message), *final(message)),
{
    if value {
        message.append("true");
    } else {
        message.append("false");
    }
}

fn write_direction(message: &mut PendingMessage, direction: EncoderDirection)
    ensures
        final(message)@ == log::clipped(old(message)@ + log::encode(direction_text(direction))),
        log::is_grown(*old(message), *final(message)),
{
    match direction {
        EncoderDirection::Increment => message.append("Increment"),
        EncoderDirection::Decrement => message.append("Decrement"),
    }
}

fn write_error(message: &mut PendingMessage, error: TransferError)
    ensures
        final(message)@ == log::clipped(old(message)@ + log::encode(error_text(error))),
        log::is_grown(*old(message), *final(message)),
{
    match error {
        TransferError::BufferOverflow => message.append("BufferOverflow"),
        TransferError::Disabled => message.append("Disabled"),
    }
}

/// One line of text.
#[derive(Clone, Copy, Debug, PartialEq, Eq)]
pub enum Line {
    /// A packet came in on the console.
    Packet { number: i32, len: usize, first: u8 },
    /// No packet could be read on the console.
    ReadError { error: TransferError },
    /// A report could not be sent.
    ReportError { error: TransferError },
    Memory { allocated: usize, capacity: usize },
    LongestExecution { name: &'static str, ticks: u64 },
    TaskTime { name: &'static str, run_ticks: u64, longest: u64 },
    ResetTime { ticks: u64 },
    BusRound { duration: u64, value: u64 },
    Channel { index: usize, raw: u16, mapped: i8 },
    SwitchLines { value: u64 },
    LowestLowLine { line: u32 },
    /// The contacts of an encoder moved.
    Contacts { encoder: usize, a: bool, b: bool },
    /// An encoder emitted a pulse, or a pulse of it was reported.
    Pulse { encoder: usize, direction: EncoderDirection, count: i32 },
}

impl Line {
    /// The text of the line, without its end.
    pub open spec fn text(self) -> Seq<char> {
        match self {
            Line::Packet { number, len, first } => decimal(number as int) + ": Got "@ + decimal(
                len as int,
            ) + " bytes ("@ + decimal(first as int) + ")"@,
            Line::ReadError { error } => "Error reading endpoint: "@ + error_text(error),
            Line::ReportError { error } => "Joystick update error: "@ + error_text(error),
            Line::Memory { allocated, capacity } => decimal(allocated as int) + "/"@ + decimal(
                capacity as int,
            ) + " bytes are allocated"@,
            Line::LongestExecution { name, ticks } => " - Longest exec time: Task "@ + name@
                + " for "@ + decimal(ticks as int) + " ticks"@,
            Line::TaskTime { name, run_ticks, longest } => " - Task "@ + name@ + " took "@
                + decimal(run_ticks as int) + " ticks (longest "@ + decimal(longest as int)
                + " ticks)"@,
            Line::ResetTime { ticks } => "Reset time = "@ + decimal(ticks as int) + " ticks"@,
            Line::BusRound { duration, value } => "I2C loop duration: "@ + decimal(duration as int)
                + " ticks value: "@ + hexadecimal(value),
            Line::Channel { index, raw, mapped } => "Channel "@ + decimal(index as int) + ": raw="@
                + decimal(raw as int) + " mapped="@ + decimal(mapped as int),
            Line::SwitchLines { value } => "0x"@ + hexadecimal(value),
            Line::LowestLowLine { line } => "- Lowest 0 bit is "@ + decimal(line as int),
            Line::Contacts { encoder, a, b } => decimal(encoder as int) + ": "@ + bool_text(a)
                + " "@ + bool_text(b),
            Line::Pulse { encoder, direction, count } => decimal(encoder as int) + ": "@
                + direction_text(direction) + " -> "@ + decimal(count as int),
        }
    }

    /// Appends the text of the line to a message, as far as it fits.
    pub fn write(&self, message: &mut PendingMessage)
        ensures
            final(message)@ == log::clipped(old(message)@ + log::encode(self.text())),
            log::is_grown(*old(message), *final(message)),
    {
        broadcast use {log::law_pieces_join, log::law_growth_adds_up};

        match *self {
            Line::Packet { number, len, first } => {
                write_signed(message, number);
                message.append(": Got ");
                write_decimal(message, len as u64);
                message.append(" bytes (");
                write_decimal(message, first as u64);
                message.append(")");
            },
            Line::ReadError { error } => {
                message.append("Error reading endpoint: ");
                write_error(message, error);
            },
            Line::ReportError { error } => {
                message.append("Joystick update error: ");
                write_error(message, error);
            },
            Line::Memory { allocated, capacity } => {
                write_decimal(message, allocated as u64);
                message.append("/");
                write_decimal(message, capacity as u64);
                message.append(" bytes are allocated");
            },
            Line::LongestExecution { name, ticks } => {
                message.append(" - Longest exec time: Task ");
                message.append(name);
                message.append(" for ");
                write_decimal(message, ticks);
                message.append(" ticks");
            },
            Line::TaskTime { name, run_ticks, longest } => {
                message.append(" - Task ");
                message.append(name);
                message.append(" took ");
                write_decimal(message, run_ticks);
                message.append(" ticks (longest ");
                write_decimal(message, longest);
                message.append(" ticks)");
            },
            Line::ResetTime { ticks } => {
                message.append("Reset time = ");
                write_decimal(message, ticks);
                message.append(" ticks");
            },
            Line::BusRound { duration, value } => {
                message.append("I2C loop duration: ");
                write_decimal(message, duration);
                message.append(" ticks value: ");
                write_numeral(message, value, 16);
            },
            Line::Channel { index, raw, mapped } => {
                message.append("Channel ");
                write_decimal(message, index as u64);
                message.append(": raw=");
                write_decimal(message, raw as u64);
                message.append(" mapped=");
                write_signed(message, mapped as i32);
            },
            Line::SwitchLines { value } => {
                message.append("0x");
                write_numeral(message, value, 16);
            },
            Line::LowestLowLine { line } => {
                message.append("- Lowest 0 bit is ");
                write_decimal(message, line as u64);
            },
            Line::Contacts { encoder, a, b } => {
                write_decimal(message, encoder as u64);
                message.append(": ");
                write_bool(message, a);
                message.append(" ");
                write_bool(message, b);
            },
            Line::Pulse { encoder, direction, count } => {
                write_decimal(message, encoder as u64);
                message.append(": ");
                write_direction(message, direction);
                message.append(" -> ");
                write_signed(message, count);
            },
        }
    }
}

/// The line about the contacts of an encoder, where they moved.
pub fn contacts_line(encoder: usize, moved: Option<(bool, bool)>) -> (line: Option<Line>)
    ensures
        line == match moved {
            Some((a, b)) => Some(Line::Contacts { encoder, a, b }),
            None => None,
        },
{
    match moved {
        Some((a, b)) => Some(Line::Contacts { encoder, a, b }),
        None => None,
    }
}

/// The line about a pulse of an encoder, where there is one.
pub fn pulse_line(encoder: usize, pulse: Option<CountedPulse>) -> (line: Option<Line>)
    ensures
        line == match pulse {
            Some(CountedPulse { direction, count }) => Some(
                Line::Pulse { encoder, direction, count },
            ),
            None => None,
        },
{
    match pulse {
        Some(counted) => Some(
            Line::Pulse { encoder, direction: counted.direction, count: counted.count },
        ),
        None => None,
    }
}

/// The number that a numeral stands for: each character is worth its digit, and each further one
/// makes those before it worth `base` times as much.
pub open spec fn read_numeral(text: Seq<char>, base: nat) -> int
    decreases text.len(),
{
    if text.len() == 0 {
        0
    } else {
        let last = text.last() as int;
        read_numeral(text.drop_last(), base) * base + if last < 58 {
            last - 48
        } else {
            last - 87
        }
    }
}

/// The digits are the characters `0` to `9` and `a` to `f`, in this order.
pub proof fn law_digits_in_order(value: nat)
    ensures
        value < 10 ==> digit(value) as int == '0' as int + value,
        10 <= value < 16 ==> digit(value) as int == 'a' as int + (value - 10),
{
}

/// A numeral can be read back: it stands for the number that it was made from. It is made of digits
/// of its base, is never empty, and starts with a zero only if the number is zero.
pub proof fn law_numeral_reads_back(value: nat, base: nat)
    requires
        2 <= base <= 16,
    ensures
        read_numeral(numeral(value, base), base) == value,
        numeral(value, base).len() > 0,
        numeral(value, base)[0] == '0' <==> value == 0,
        value == 0 ==> numeral(value, base) == seq!['0'],
        forall|i: int|
            0 <= i < numeral(value, base).len() ==> {
                let c = #[trigger] numeral(value, base)[i] as int;
                48 <= c < 58 && c - 48 < base || 97 <= c && c - 87 < base
            },
    decreases value,
{
    reveal_with_fuel(read_numeral, 2);
    let text = numeral(value, base);
    if value < base {
        assert(text.drop_last() =~= Seq::empty());
        assert(text =~= seq![digit(value)]);
    } else {
        assert(0 < value / base < value) by (nonlinear_arith)
            requires
                value >= base >= 2,
        ;
        assert(value % base < base && (value / base) * base + value % base == value)
            by (nonlinear_arith)
            requires
                base >= 2,
        ;
        law_numeral_reads_back(value / base, base);
        assert(text.drop_last() =~= numeral(value / base, base));
        assert forall|i: int| 0 <= i < text.len() implies {
            let c = #[trigger] text[i] as int;
            48 <= c < 58 && c - 48 < base || 97 <= c && c - 87 < base
        } by {
            if i < text.len() - 1 {
                assert(text[i] == numeral(value / base, base)[i]);
            }
        }
        assert(text[0] == numeral(value / base, base)[0]);
    }
}

/// A decimal is the numeral of base ten, with a minus sign in front where the number is negative. A
/// hexadecimal is the numeral of base sixteen.
pub proof fn law_numbers_in_text(value: int, word: u64)
    ensures
        value >= 0 ==> decimal(value) == numeral(value as nat, 10),
        value < 0 ==> decimal(value) == seq!['-'] + numeral((-value) as nat, 10),
        hexadecimal(word) == numeral(word as nat, 16),
{
    reveal_strlit("-");
    assert("-"@ =~= seq!['-']);
}

/// What the lines about packets and errors say.
pub proof fn law_text_of_packets(number: i32, len: usize, first: u8)
    ensures
        (Line::Packet { number, len, first }).text() == decimal(number as int) + ": Got "@
            + decimal(len as int) + " bytes ("@ + decimal(first as int) + ")"@,
        (Line::ReadError { error: TransferError::BufferOverflow }).text()
            == "Error reading endpoint: "@ + "BufferOverflow"@,
        (Line::ReadError { error: TransferError::Disabled }).text() == "Error reading endpoint: "@
            + "Disabled"@,
        (Line::ReportError { error: TransferError::BufferOverflow }).text()
            == "Joystick update error: "@ + "BufferOverflow"@,
        (Line::ReportError { error: TransferError::Disabled }).text() == "Joystick update error: "@
            + "Disabled"@,
{
}

/// What the lines say that answer the console.
pub proof fn law_text_of_answers(
    allocated: usize,
    capacity: usize,
    index: usize,
    raw: u16,
    mapped: i8,
    value: u64,
    line: u32,
)
    ensures
        (Line::Memory { allocated, capacity }).text() == decimal(allocated as int) + "/"@ + decimal(
            capacity as int,
        ) + " bytes are allocated"@,
        (Line::Channel { index, raw, mapped }).text() == "Channel "@ + decimal(index as int)
            + ": raw="@ + decimal(raw as int) + " mapped="@ + decimal(mapped as int),
        (Line::SwitchLines { value }).text() == "0x"@ + numeral(value as nat, 16),
        (Line::LowestLowLine { line }).text() == "- Lowest 0 bit is "@ + decimal(line as int),
{
}

/// What the lines about times say.
pub proof fn law_text_of_times(
    name: &'static str,
    ticks: u64,
    run_ticks: u64,
    longest: u64,
    duration: u64,
    value: u64,
)
    ensures
        (Line::LongestExecution { name, ticks }).text() == " - Longest exec time: Task "@ + name@
            + " for "@ + decimal(ticks as int) + " ticks"@,
        (Line::TaskTime { name, run_ticks, longest }).text() == " - Task "@ + name@ + " took "@
            + decimal(run_ticks as int) + " ticks (longest "@ + decimal(longest as int)
            + " ticks)"@,
        (Line::ResetTime { ticks }).text() == "Reset time = "@ + decimal(ticks as int) + " ticks"@,
        (Line::BusRound { duration, value }).text() == "I2C loop duration: "@ + decimal(
            duration as int,
        ) + " ticks value: "@ + numeral(value as nat, 16),
{
}

/// What the lines about encoders say.
pub proof fn law_text_of_encoders(encoder: usize, a: bool, b: bool, count: i32)
    ensures
        (Line::Contacts { encoder, a, b }).text() == decimal(encoder as int) + ": "@ + (if a {
            "true"@
        } else {
            "false"@
        }) + " "@ + (if b {
            "true"@
        } else {
            "false"@
        }),
        (Line::Pulse { encoder, direction: EncoderDirection::Increment, count }).text() == decimal(
            encoder as int,
        ) + ": "@ + "Increment"@ + " -> "@ + decimal(count as int),
        (Line::Pulse { encoder, direction: EncoderDirection::Decrement, count }).text() == decimal(
            encoder as int,
        ) + ": "@ + "Decrement"@ + " -> "@ + decimal(count as int),
{
}

} // verus!
