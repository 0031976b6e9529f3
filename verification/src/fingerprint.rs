//! Touch-only protocol of the MAFP fingerprint sensor.
//!
//! Fingerprints are not read, enrolled, matched or deleted. The sensor is only asked whether there
//! is a finger on it.

use crate::text::{
    chars_of, decimal, decimal_text, find_char, hex_byte, hex_byte_text, hex_digit, hex_word,
    hex_word_text, join2, join3, join4, join5, lemma_position, position_from,
};
use crate::time::Instant;
use vstd::prelude::*;

verus! {

pub const BULK_OUT: u8 = 0x03;

pub const BULK_IN: u8 = 0x83;

pub const INTERRUPT_IN: u8 = 0x82;

pub const INTERFACE: u8 = 0;

pub const PACKET_COMMAND: u8 = 0x01;

pub const PACKET_ANSWER: u8 = 0x07;

pub const COMMAND_HANDSHAKE: u8 = 0x35;

pub const COMMAND_INIT_STATUS: u8 = 0x88;

pub const COMMAND_GET_IMAGE: u8 = 0x01;

pub const COMMAND_SLEEP: u8 = 0x33;

pub const RESULT_FINGER_PRESENT: u8 = 0x00;

pub const RESULT_NO_FINGER: u8 = 0x02;

pub const SLEEP_INTERRUPT_WAIT: u8 = 0;

pub const SLEEP_INTERRUPT_CHECK: u8 = 1;

pub const REQUEST_INTERRUPT_ENABLE: u8 = 0x89;

/// A finger was put on the sensor or taken off.
#[derive(Clone, Copy, Debug, PartialEq, Eq, Structural)]
pub enum TouchEvent {
    Pressed,
    Released,
}

/// A touch event with the time at which it was noticed.
#[derive(Clone, Copy, Debug, PartialEq, Eq, Structural)]
pub struct TimedTouchEvent {
    pub event: TouchEvent,
    pub at: Instant,
}

// ---------------------------------------------------------------------------------------------
// Errors
// ---------------------------------------------------------------------------------------------
/// What can be wrong with a command or with the answer to it.
#[derive(Clone, Copy, Debug, PartialEq, Eq, Structural)]
pub enum ProtocolError {
    /// The data of a command do not fit into a packet.
    CommandTooLarge,
    /// Only a part of a command was sent.
    ShortWrite { written: usize, length: usize },
    /// A packet does not start like one.
    InvalidHeader,
    /// A packet of this type is no answer.
    UnexpectedType(u8),
    /// A packet is not as long as it says, or too short for an answer.
    InvalidLength,
    /// The bytes of a packet sum up to `actual`, not to `expected`.
    ChecksumMismatch { actual: u16, expected: u16 },
    /// The sensor answered a command with an error.
    CommandFailed { command: u8, result: u8 },
    /// The sensor answered a command with nothing.
    EmptyResponse { command: u8 },
    /// The sensor did not say whether there is a finger.
    EmptyPresence,
}

/// The message for an error.
pub open spec fn protocol_fault_text(error: ProtocolError) -> Seq<char> {
    match error {
        ProtocolError::CommandTooLarge => "fingerprint command is too large"@,
        ProtocolError::ShortWrite { written, length } => "short fingerprint command write: "@
            + decimal_text(written as nat) + "/"@ + decimal_text(length as nat) + " bytes"@,
        ProtocolError::InvalidHeader => "invalid fingerprint response header"@,
        ProtocolError::UnexpectedType(kind) => "unexpected fingerprint response type 0x"@
            + hex_byte_text(kind),
        ProtocolError::InvalidLength => "invalid fingerprint response length"@,
        ProtocolError::ChecksumMismatch { actual, expected } =>
            "fingerprint response checksum mismatch: "@ + hex_word_text(actual) + " != "@
                + hex_word_text(expected),
        ProtocolError::CommandFailed { command, result } => "fingerprint command 0x"@
            + hex_byte_text(command) + " failed with 0x"@ + hex_byte_text(result),
        ProtocolError::EmptyResponse { command } => "empty fingerprint command 0x"@
            + hex_byte_text(command) + " response"@,
        ProtocolError::EmptyPresence => "empty fingerprint presence response"@,
    }
}

impl ProtocolError {
    /// The message for the error.
    pub fn message(&self) -> (text: String)
        ensures
            text@ == protocol_fault_text(*self),
    {
        match *self {
            ProtocolError::CommandTooLarge => "fingerprint command is too large".to_owned(),
            ProtocolError::ShortWrite { written, length } => join5(
                "short fingerprint command write: ",
                decimal(written as u128).as_str(),
                "/",
                decimal(length as u128).as_str(),
                " bytes",
            ),
            ProtocolError::InvalidHeader => "invalid fingerprint response header".to_owned(),
            ProtocolError::UnexpectedType(kind) => join2(
                "unexpected fingerprint response type 0x",
                hex_byte(kind).as_str(),
            ),
            ProtocolError::InvalidLength => "invalid fingerprint response length".to_owned(),
            ProtocolError::ChecksumMismatch { actual, expected } => join4(
                "fingerprint response checksum mismatch: ",
                hex_word(actual).as_str(),
                " != ",
                hex_word(expected).as_str(),
            ),
            ProtocolError::CommandFailed { command, result } => join4(
                "fingerprint command 0x",
                hex_byte(command).as_str(),
                " failed with 0x",
                hex_byte(result).as_str(),
            ),
            ProtocolError::EmptyResponse { command } => join3(
                "empty fingerprint command 0x",
                hex_byte(command).as_str(),
                " response",
            ),
            ProtocolError::EmptyPresence => "empty fingerprint presence response".to_owned(),
        }
    }
}

// ---------------------------------------------------------------------------------------------
// Packets
// ---------------------------------------------------------------------------------------------
/// The bytes with which every packet starts.
pub open spec fn packet_header() -> Seq<u8> {
    seq![0xef, 0x01, 0xff, 0xff, 0xff, 0xff]
}

/// A 16-bit number, high byte first.
pub open spec fn big_endian(number: u16) -> Seq<u8> {
    seq![(number / 256) as u8, (number % 256) as u8]
}

/// The 16-bit number with these two bytes.
pub open spec fn word(high: u8, low: u8) -> u16 {
    (high * 256 + low) as u16
}

/// The sum of bytes.
pub open spec fn byte_sum(bytes: Seq<u8>) -> nat
    decreases bytes.len(),
{
    if bytes.len() == 0 {
        0
    } else {
        byte_sum(bytes.drop_last()) + bytes.last() as nat
    }
}

/// The checksum of a packet: the sum of what follows the header, modulo two to the sixteenth.
pub open spec fn packet_checksum(packet: Seq<u8>) -> u16 {
    (byte_sum(packet.skip(6)) % 65536) as u16
}

/// A packet without its checksum.
pub open spec fn packet_body(kind: u8, payload: Seq<u8>) -> Seq<u8> {
    packet_header() + seq![kind] + big_endian((payload.len() + 2) as u16) + payload
}

/// The packet of a type with a payload.
pub open spec fn packet(kind: u8, payload: Seq<u8>) -> Seq<u8> {
    packet_body(kind, payload) + big_endian(packet_checksum(packet_body(kind, payload)))
}

/// The length that a packet gives for what follows the length.
pub open spec fn frame_length(packet: Seq<u8>) -> nat {
    word(packet[7], packet[8]) as nat
}

/// The payload of an answer, or what is wrong with the packet.
pub open spec fn answer_outcome(packet: Seq<u8>) -> Result<Seq<u8>, ProtocolError> {
    let end = packet.len() - 2;
    let expected = word(packet[end], packet[end + 1]);
    let actual = packet_checksum(packet.take(end));
    if packet.len() < 12 || packet.take(6) != packet_header() {
        Err(ProtocolError::InvalidHeader)
    } else if packet[6] != PACKET_ANSWER {
        Err(ProtocolError::UnexpectedType(packet[6]))
    } else if packet.len() != 9 + frame_length(packet) || frame_length(packet) < 3 {
        Err(ProtocolError::InvalidLength)
    } else if actual != expected {
        Err(ProtocolError::ChecksumMismatch { actual, expected })
    } else {
        Ok(packet.subrange(9, end))
    }
}

/// The checksum of a packet that has none yet.
pub fn checksum(packet_without_checksum: &[u8]) -> (sum: u16)
    requires
        packet_without_checksum@.len() >= 6,
    ensures
        sum == packet_checksum(packet_without_checksum@),
{
    let ghost body = packet_without_checksum@.skip(6);
    let mut sum: u16 = 0;
    let mut i: usize = 6;
    assert(body.take(0) =~= Seq::<u8>::empty());
    while i < packet_without_checksum.len()
        invariant
            6 <= i <= packet_without_checksum@.len(),
            body == packet_without_checksum@.skip(6),
            sum == byte_sum(body.take(i - 6)) % 65536,
        decreases packet_without_checksum@.len() - i,
    {
        let byte: u8 = packet_without_checksum[i];
        proof {
            assert(body.take(i - 6 + 1).drop_last() =~= body.take(i - 6));
            assert(body.take(i - 6 + 1).last() == byte);
        }
        sum = sum.wrapping_add(byte as u16);
        i += 1;
    }
    assert(body.take(i - 6) =~= body);
    sum
}

/// The packet for a command, or why there is none.
pub open spec fn command_outcome(command: u8, data: Seq<u8>) -> Result<Seq<u8>, ProtocolError> {
    if data.len() + 3 <= 0xffff {
        Ok(packet(PACKET_COMMAND, seq![command] + data))
    } else {
        Err(ProtocolError::CommandTooLarge)
    }
}

/// Builds the packet for a command.
pub fn build_command(command: u8, data: &[u8]) -> (outcome: Result<Vec<u8>, ProtocolError>)
    ensures
        match outcome {
            Ok(bytes) => data@.len() + 3 <= 0xffff && bytes@ == packet(
                PACKET_COMMAND,
                seq![command] + data@,
            ),
            Err(error) => data@.len() + 3 > 0xffff && error == ProtocolError::CommandTooLarge,
        },
        match outcome {
            Ok(bytes) => command_outcome(command, data@) == Ok::<Seq<u8>, ProtocolError>(bytes@),
            Err(error) => command_outcome(command, data@) == Err::<Seq<u8>, ProtocolError>(error),
        },
{
    if data.len() > 0xffff - 3 {
        return Err(ProtocolError::CommandTooLarge);
    }
    let length: u16 = (data.len() + 3) as u16;
    let mut bytes: Vec<u8> = Vec::new();
    bytes.push(0xef);
    bytes.push(0x01);
    bytes.push(0xff);
    bytes.push(0xff);
    bytes.push(0xff);
    bytes.push(0xff);
    bytes.push(PACKET_COMMAND);
    bytes.push((length / 256) as u8);
    bytes.push((length % 256) as u8);
    bytes.push(command);
    bytes.extend_from_slice(data);
    let ghost payload = seq![command] + data@;
    assert(bytes@ =~= packet_body(PACKET_COMMAND, payload));
    let sum: u16 = checksum(bytes.as_slice());
    bytes.push((sum / 256) as u8);
    bytes.push((sum % 256) as u8);
    assert(bytes@ =~= packet(PACKET_COMMAND, payload));
    Ok(bytes)
}

fn starts_like_a_packet(packet: &[u8]) -> (like: bool)
    requires
        packet@.len() >= 6,
    ensures
        like == (packet@.take(6) == packet_header()),
{
    let like = packet[0] == 0xef && packet[1] == 0x01 && packet[2] == 0xff && packet[3] == 0xff
        && packet[4] == 0xff && packet[5] == 0xff;
    proof {
        if like {
            assert(packet@.take(6) =~= packet_header());
        } else if packet@.take(6) == packet_header() {
            assert(forall|i: int| 0 <= i < 6 ==> packet@[i] == #[trigger] packet@.take(6)[i]);
            assert(packet_header()[0] == 0xef && packet_header()[1] == 0x01 && packet_header()[2]
                == 0xff && packet_header()[3] == 0xff && packet_header()[4] == 0xff
                && packet_header()[5] == 0xff);
        }
    }
    like
}

fn read_word(high: u8, low: u8) -> (number: u16)
    ensures
        number == word(high, low),
        number == high * 256 + low,
{
    high as u16 * 256 + low as u16
}

/// Checks the packet of an answer and gives its payload.
pub fn parse_answer(packet: &[u8]) -> (outcome: Result<Vec<u8>, ProtocolError>)
    ensures
        match outcome {
            Ok(payload) => answer_outcome(packet@) == Ok::<Seq<u8>, ProtocolError>(payload@),
            Err(error) => answer_outcome(packet@) == Err::<Seq<u8>, ProtocolError>(error),
        },
{
    if packet.len() < 12 || !starts_like_a_packet(packet) {
        return Err(ProtocolError::InvalidHeader);
    }
    if packet[6] != PACKET_ANSWER {
        return Err(ProtocolError::UnexpectedType(packet[6]));
    }
    let length: usize = read_word(packet[7], packet[8]) as usize;
    if packet.len() != 9 + length || length < 3 {
        return Err(ProtocolError::InvalidLength);
    }
    let end: usize = packet.len() - 2;
    let expected: u16 = read_word(packet[end], packet[end + 1]);
    let body: &[u8] = vstd::slice::slice_subrange(packet, 0, end);
    assert(body@ =~= packet@.take(end as int));
    let actual: u16 = checksum(body);
    if actual != expected {
        return Err(ProtocolError::ChecksumMismatch { actual, expected });
    }
    let mut payload: Vec<u8> = Vec::new();
    payload.extend_from_slice(vstd::slice::slice_subrange(packet, 9, end));
    assert(payload@ =~= packet@.subrange(9, end as int));
    Ok(payload)
}

// ---------------------------------------------------------------------------------------------
// Exchanges
// ---------------------------------------------------------------------------------------------
/// Whether a packet was sent as a whole.
pub open spec fn written_outcome(written: usize, length: usize) -> Result<(), ProtocolError> {
    if written == length {
        Ok(())
    } else {
        Err(ProtocolError::ShortWrite { written, length })
    }
}

/// Checks that a packet was sent as a whole.
pub fn check_written(written: usize, length: usize) -> (outcome: Result<(), ProtocolError>)
    ensures
        outcome == (if written == length {
            Ok::<(), ProtocolError>(())
        } else {
            Err(ProtocolError::ShortWrite { written, length })
        }),
        outcome == written_outcome(written, length),
{
    if written != length {
        Err(ProtocolError::ShortWrite { written, length })
    } else {
        Ok(())
    }
}

/// Where the packet ends that received bytes start with, once all of it is there.
pub open spec fn packet_end(received: Seq<u8>) -> Option<int> {
    if received.len() >= 9 && received.len() >= 9 + frame_length(received) {
        Some(9 + frame_length(received) as int)
    } else {
        None
    }
}

/// What has come of an answer so far.
#[derive(Debug, PartialEq, Eq)]
pub enum Reply {
    /// These bytes, and more are to come.
    Partial(Vec<u8>),
    /// All of it.
    Complete(Result<Vec<u8>, ProtocolError>),
}

/// Takes in the next bytes of an answer, behind those that have been received. What follows the
/// packet is dropped.
pub fn receive(received: Vec<u8>, chunk: &[u8]) -> (reply: Reply)
    ensures
        match reply {
            Reply::Partial(bytes) => packet_end(received@ + chunk@) is None && bytes@ == received@
                + chunk@,
            Reply::Complete(outcome) => packet_end(received@ + chunk@) matches Some(end)
                && answer_outcome((received@ + chunk@).take(end)) == match outcome {
                Ok(payload) => Ok::<Seq<u8>, ProtocolError>(payload@),
                Err(error) => Err(error),
            },
        },
{
    let ghost all = received@ + chunk@;
    let mut bytes: Vec<u8> = received;
    bytes.extend_from_slice(chunk);
    assert(bytes@ =~= all);
    if bytes.len() >= 9 {
        let end: usize = 9 + read_word(bytes[7], bytes[8]) as usize;
        if bytes.len() >= end {
            bytes.truncate(end);
            assert(bytes@ =~= all.take(end as int));
            return Reply::Complete(parse_answer(bytes.as_slice()));
        }
    }
    Reply::Partial(bytes)
}

/// Whether the answer to a command reports success.
pub open spec fn success_outcome(command: u8, response: Seq<u8>) -> Result<(), ProtocolError> {
    if response.len() == 0 {
        Err(ProtocolError::EmptyResponse { command })
    } else if response[0] != 0 {
        Err(ProtocolError::CommandFailed { command, result: response[0] })
    } else {
        Ok(())
    }
}

/// Checks that the answer to a command reports success.
pub fn ensure_success(command: u8, response: &[u8]) -> (outcome: Result<(), ProtocolError>)
    ensures
        outcome == success_outcome(command, response@),
{
    if response.len() == 0 {
        Err(ProtocolError::EmptyResponse { command })
    } else if response[0] != 0 {
        Err(ProtocolError::CommandFailed { command, result: response[0] })
    } else {
        Ok(())
    }
}

/// Whether the answer to a request for an image tells of a finger. An answer that is neither yes
/// nor no counts as no.
pub open spec fn presence_outcome(response: Seq<u8>) -> Result<bool, ProtocolError> {
    if response.len() == 0 {
        Err(ProtocolError::EmptyPresence)
    } else {
        Ok(response[0] == RESULT_FINGER_PRESENT)
    }
}

/// Reads off the answer to a request for an image whether there is a finger.
pub fn image_has_finger(response: &[u8]) -> (outcome: Result<bool, ProtocolError>)
    ensures
        outcome == presence_outcome(response@),
{
    if response.len() == 0 {
        Err(ProtocolError::EmptyPresence)
    } else {
        Ok(response[0] == RESULT_FINGER_PRESENT)
    }
}

// ---------------------------------------------------------------------------------------------
// USB identifiers
// ---------------------------------------------------------------------------------------------
/// Why a text is no 16-bit hexadecimal number.
#[derive(Clone, Copy, Debug, PartialEq, Eq, Structural)]
pub enum NumberError {
    Empty,
    InvalidDigit,
    Overflow,
}

/// Why a text is no USB identifier.
#[derive(Clone, Copy, Debug, PartialEq, Eq, Structural)]
pub enum UsbIdError {
    /// There is no colon in it.
    Format,
    /// What stands before or behind the colon is no number.
    Number(NumberError),
}

/// The message for an error.
pub open spec fn usb_id_fault_text(error: UsbIdError) -> Seq<char> {
    match error {
        UsbIdError::Format => "expected fingerprint USB ID in vid:pid format"@,
        UsbIdError::Number(NumberError::Empty) => "cannot parse integer from empty string"@,
        UsbIdError::Number(NumberError::InvalidDigit) => "invalid digit found in string"@,
        UsbIdError::Number(NumberError::Overflow) => "number too large to fit in target type"@,
    }
}

impl UsbIdError {
    /// The message for the error.
    pub fn message(&self) -> (text: String)
        ensures
            text@ == usb_id_fault_text(*self),
    {
        match *self {
            UsbIdError::Format => "expected fingerprint USB ID in vid:pid format".to_owned(),
            UsbIdError::Number(NumberError::Empty) =>
                "cannot parse integer from empty string".to_owned(),
            UsbIdError::Number(NumberError::InvalidDigit) =>
                "invalid digit found in string".to_owned(),
            UsbIdError::Number(NumberError::Overflow) =>
                "number too large to fit in target type".to_owned(),
        }
    }
}

/// The value of a hexadecimal digit.
pub open spec fn hex_digit_value(c: char) -> Option<u16> {
    if '0' <= c <= '9' {
        Some((c as u32 - 48) as u16)
    } else if 'a' <= c <= 'f' {
        Some((c as u32 - 87) as u16)
    } else if 'A' <= c <= 'F' {
        Some((c as u32 - 55) as u16)
    } else {
        None
    }
}

/// The number that hexadecimal digits write down, or what is wrong with the first character that
/// cannot be taken in.
pub open spec fn digits_outcome(digits: Seq<char>) -> Result<u16, NumberError>
    decreases digits.len(),
{
    if digits.len() == 0 {
        Ok(0)
    } else {
        match digits_outcome(digits.drop_last()) {
            Err(error) => Err(error),
            Ok(front) => match hex_digit_value(digits.last()) {
                None => Err(NumberError::InvalidDigit),
                Some(digit) => if front * 16 + digit > 0xffff {
                    Err(NumberError::Overflow)
                } else {
                    Ok((front * 16 + digit) as u16)
                },
            },
        }
    }
}

/// The number that a text writes down in hexadecimal, with or without a plus sign.
pub open spec fn hex_outcome(text: Seq<char>) -> Result<u16, NumberError> {
    if text.len() == 0 {
        Err(NumberError::Empty)
    } else if text.len() > 1 && text[0] == '+' {
        digits_outcome(text.skip(1))
    } else {
        digits_outcome(text)
    }
}

/// The vendor and the product that a text names in the form `vid:pid`.
pub open spec fn usb_id_outcome(id: Seq<char>) -> Result<(u16, u16), UsbIdError> {
    let colon = position_from(id, ':', 0);
    if colon >= id.len() {
        Err(UsbIdError::Format)
    } else {
        match hex_outcome(id.take(colon)) {
            Err(error) => Err(UsbIdError::Number(error)),
            Ok(vid) => match hex_outcome(id.skip(colon + 1)) {
                Err(error) => Err(UsbIdError::Number(error)),
                Ok(pid) => Ok((vid, pid)),
            },
        }
    }
}

fn digit_value(c: char) -> (value: Option<u16>)
    ensures
        value == hex_digit_value(c),
        value matches Some(digit) ==> digit < 16,
{
    if '0' <= c && c <= '9' {
        Some((c as u32 - 48) as u16)
    } else if 'a' <= c && c <= 'f' {
        Some((c as u32 - 87) as u16)
    } else if 'A' <= c && c <= 'F' {
        Some((c as u32 - 55) as u16)
    } else {
        None
    }
}

proof fn lemma_digits_keep_error(digits: Seq<char>, length: int)
    requires
        0 <= length <= digits.len(),
        digits_outcome(digits.take(length)) is Err,
    ensures
        digits_outcome(digits) == digits_outcome(digits.take(length)),
    decreases digits.len(),
{
    if length == digits.len() {
        assert(digits.take(length) =~= digits);
    } else {
        assert(digits.drop_last().take(length) =~= digits.take(length));
        lemma_digits_keep_error(digits.drop_last(), length);
    }
}

fn read_hex(chars: &Vec<char>, from: usize, to: usize) -> (outcome: Result<u16, NumberError>)
    requires
        from <= to <= chars@.len(),
    ensures
        outcome == hex_outcome(chars@.subrange(from as int, to as int)),
{
    let ghost text = chars@.subrange(from as int, to as int);
    if from == to {
        return Err(NumberError::Empty);
    }
    let mut start: usize = from;
    if to - from > 1 && chars[from] == '+' {
        start = from + 1;
    }
    let ghost digits = chars@.subrange(start as int, to as int);
    assert(start > from ==> digits =~= text.skip(1));
    let mut number: u16 = 0;
    let mut i: usize = start;
    assert(digits.take(0) =~= Seq::<char>::empty());
    while i < to
        invariant
            start <= i <= to <= chars@.len(),
            text == chars@.subrange(from as int, to as int),
            digits == chars@.subrange(start as int, to as int),
            digits_outcome(digits.take(i - start)) == Ok::<u16, NumberError>(number),
            hex_outcome(text) == digits_outcome(digits),
        decreases to - i,
    {
        let ghost next = digits.take(i - start + 1);
        proof {
            assert(next.drop_last() =~= digits.take(i - start));
            assert(next.last() == chars@[i as int]);
        }
        let digit: u16 = match digit_value(chars[i]) {
            Some(digit) => digit,
            None => {
                proof {
                    lemma_digits_keep_error(digits, i - start + 1);
                }
                return Err(NumberError::InvalidDigit);
            },
        };
        let value: u32 = number as u32 * 16 + digit as u32;
        if value > 0xffff {
            proof {
                lemma_digits_keep_error(digits, i - start + 1);
            }
            return Err(NumberError::Overflow);
        }
        number = value as u16;
        i += 1;
    }
    assert(digits.take(i - start) =~= digits);
    Ok(number)
}

/// Reads a USB identifier in the form `vid:pid`, both in hexadecimal.
pub fn parse_usb_id(id: &str) -> (outcome: Result<(u16, u16), UsbIdError>)
    ensures
        outcome == usb_id_outcome(id@),
{
    let chars: Vec<char> = chars_of(id);
    let colon: usize = find_char(&chars, ':', 0);
    if colon >= chars.len() {
        return Err(UsbIdError::Format);
    }
    proof {
        assert(id@.subrange(0, colon as int) =~= id@.take(colon as int));
        assert(id@.subrange(colon + 1, id@.len() as int) =~= id@.skip(colon + 1));
    }
    let vid: u16 = match read_hex(&chars, 0, colon) {
        Ok(vid) => vid,
        Err(error) => return Err(UsbIdError::Number(error)),
    };
    let pid: u16 = match read_hex(&chars, colon + 1, chars.len()) {
        Ok(pid) => pid,
        Err(error) => return Err(UsbIdError::Number(error)),
    };
    Ok((vid, pid))
}

// ---------------------------------------------------------------------------------------------
// Laws
// ---------------------------------------------------------------------------------------------
proof fn lemma_word_of_big_endian(number: u16)
    ensures
        word(big_endian(number)[0], big_endian(number)[1]) == number,
{
}

proof fn lemma_big_endian_of_word(high: u8, low: u8)
    ensures
        big_endian(word(high, low)) == seq![high, low],
{
    assert((high * 256 + low) / 256 == high);
    assert((high * 256 + low) % 256 == low);
    assert(big_endian(word(high, low)) =~= seq![high, low]);
}

/// The packet of an answer gives back the payload that it was made of.
pub proof fn law_answer_gives_back_payload(payload: Seq<u8>)
    requires
        1 <= payload.len() <= 0xffff - 2,
    ensures
        answer_outcome(packet(PACKET_ANSWER, payload)) == Ok::<Seq<u8>, ProtocolError>(payload),
{
    let body = packet_body(PACKET_ANSWER, payload);
    let whole = packet(PACKET_ANSWER, payload);
    let end = whole.len() - 2;
    lemma_word_of_big_endian((payload.len() + 2) as u16);
    lemma_word_of_big_endian(packet_checksum(body));
    assert(whole.take(6) =~= packet_header());
    assert(whole.take(end) =~= body);
    assert(whole[7] == big_endian((payload.len() + 2) as u16)[0]);
    assert(whole[8] == big_endian((payload.len() + 2) as u16)[1]);
    assert(whole[end] == big_endian(packet_checksum(body))[0]);
    assert(whole[end + 1] == big_endian(packet_checksum(body))[1]);
    assert(whole.subrange(9, end) =~= payload);
}

/// The only packet that gives a payload is the packet of an answer made of that payload.
pub proof fn law_payload_has_one_packet(bytes: Seq<u8>)
    ensures
        answer_outcome(bytes) matches Ok(payload) ==> bytes == packet(PACKET_ANSWER, payload) && 1
            <= payload.len() <= 0xffff - 2,
{
    if let Ok(payload) = answer_outcome(bytes) {
        let end = bytes.len() - 2;
        let body = packet_body(PACKET_ANSWER, payload);
        assert(payload.len() + 2 == frame_length(bytes));
        lemma_big_endian_of_word(bytes[7], bytes[8]);
        lemma_big_endian_of_word(bytes[end], bytes[end + 1]);
        let length = big_endian((payload.len() + 2) as u16);
        assert(length[0] == seq![bytes[7], bytes[8]][0]);
        assert(length[1] == seq![bytes[7], bytes[8]][1]);
        assert(body =~= bytes.take(end)) by {
            assert forall|i: int| 0 <= i < end implies #[trigger] body[i] == bytes[i] by {
                if i < 6 {
                    assert(bytes.take(6)[i] == bytes[i]);
                }
            }
        }
        let sum = big_endian(packet_checksum(body));
        assert(sum[0] == seq![bytes[end], bytes[end + 1]][0]);
        assert(sum[1] == seq![bytes[end], bytes[end + 1]][1]);
        assert(bytes =~= packet(PACKET_ANSWER, payload));
    }
}

/// The packet of a command is not taken for an answer.
pub proof fn law_command_is_no_answer(command: u8, data: Seq<u8>)
    requires
        data.len() + 3 <= 0xffff,
    ensures
        answer_outcome(packet(PACKET_COMMAND, seq![command] + data)) == Err::<
            Seq<u8>,
            ProtocolError,
        >(ProtocolError::UnexpectedType(PACKET_COMMAND)),
{
    let whole = packet(PACKET_COMMAND, seq![command] + data);
    assert(whole.take(6) =~= packet_header());
}

proof fn lemma_sum_of_update(bytes: Seq<u8>, position: int, byte: u8)
    requires
        0 <= position < bytes.len(),
    ensures
        byte_sum(bytes.update(position, byte)) == byte_sum(bytes) - bytes[position] + byte,
    decreases bytes.len(),
{
    let changed = bytes.update(position, byte);
    if position == bytes.len() - 1 {
        assert(changed.drop_last() =~= bytes.drop_last());
    } else {
        assert(changed.drop_last() =~= bytes.drop_last().update(position, byte));
        lemma_sum_of_update(bytes.drop_last(), position, byte);
    }
}

/// A packet in which one byte has changed on the way is refused.
pub proof fn law_changed_byte_is_noticed(payload: Seq<u8>, position: int, byte: u8)
    requires
        1 <= payload.len() <= 0xffff - 2,
        0 <= position < packet(PACKET_ANSWER, payload).len(),
        byte != packet(PACKET_ANSWER, payload)[position],
    ensures
        answer_outcome(packet(PACKET_ANSWER, payload).update(position, byte)) is Err,
{
    let whole = packet(PACKET_ANSWER, payload);
    let changed = whole.update(position, byte);
    let body = packet_body(PACKET_ANSWER, payload);
    let end = whole.len() - 2;
    lemma_word_of_big_endian((payload.len() + 2) as u16);
    lemma_word_of_big_endian(packet_checksum(body));
    assert(whole[7] == big_endian((payload.len() + 2) as u16)[0]);
    assert(whole[8] == big_endian((payload.len() + 2) as u16)[1]);
    assert(whole[end] == big_endian(packet_checksum(body))[0]);
    assert(whole[end + 1] == big_endian(packet_checksum(body))[1]);
    if position < 6 {
        assert(changed.take(6)[position] != packet_header()[position]);
    } else if 9 <= position < end {
        assert(whole.take(end) =~= body);
        assert(changed.take(end).skip(6) =~= body.skip(6).update(position - 6, byte));
        lemma_sum_of_update(body.skip(6), position - 6, byte);
    } else if position >= end {
        assert(changed.take(end) =~= body);
    }
}

/// What comes of chunks that are received one after the other.
pub open spec fn received_outcome(received: Seq<u8>, chunks: Seq<Seq<u8>>) -> Option<
    Result<Seq<u8>, ProtocolError>,
>
    decreases chunks.len(),
{
    if chunks.len() == 0 {
        None
    } else {
        let all = received + chunks[0];
        match packet_end(all) {
            Some(end) => Some(answer_outcome(all.take(end))),
            None => received_outcome(all, chunks.skip(1)),
        }
    }
}

/// However an answer is cut into chunks, and whatever follows it in the last one, the outcome is
/// that of the whole packet.
pub proof fn law_chunks_do_not_matter(received: Seq<u8>, chunks: Seq<Seq<u8>>, whole: Seq<u8>)
    requires
        packet_end(whole) == Some(whole.len() as int),
        received.len() < whole.len(),
        whole.len() <= (received + chunks.flatten()).len(),
        (received + chunks.flatten()).take(whole.len() as int) == whole,
    ensures
        received_outcome(received, chunks) == Some(answer_outcome(whole)),
    decreases chunks.len(),
{
    if chunks.len() == 0 {
        assert(chunks.flatten() =~= Seq::<u8>::empty());
    } else {
        let all = received + chunks[0];
        let rest = chunks.skip(1);
        assert(chunks.drop_first() =~= rest);
        assert(chunks.flatten() =~= chunks[0] + rest.flatten());
        assert(received + chunks.flatten() =~= all + rest.flatten());
        let stream = all + rest.flatten();
        assert(forall|i: int| 0 <= i < whole.len() ==> #[trigger] whole[i] == stream[i]);
        if all.len() >= whole.len() {
            assert(all[7] == whole[7] && all[8] == whole[8]);
            assert(all.take(whole.len() as int) =~= whole);
        } else {
            if all.len() >= 9 {
                assert(all[7] == whole[7] && all[8] == whole[8]);
            }
            law_chunks_do_not_matter(all, rest, whole);
        }
    }
}

/// Every packet with an answer ends where it says.
pub proof fn law_answer_ends_itself(bytes: Seq<u8>)
    requires
        answer_outcome(bytes) is Ok,
    ensures
        packet_end(bytes) == Some(bytes.len() as int),
{
}

proof fn lemma_next_digit(digits: Seq<char>, number: u16, digit: nat)
    requires
        digits_outcome(digits) == Ok::<u16, NumberError>(number),
        digit < 16,
        number * 16 + digit <= 0xffff,
    ensures
        digits_outcome(digits.push(hex_digit(digit))) == Ok::<u16, NumberError>(
            (number * 16 + digit) as u16,
        ),
        hex_digit(digit) != ':',
        hex_digit(digit) != '+',
{
    assert(digits.push(hex_digit(digit)).drop_last() =~= digits);
}

proof fn lemma_nibbles(number: u16)
    ensures
        (number / 256) as u8 as nat / 16 == number as nat / 4096,
        (number / 256) as u8 as nat % 16 == number as nat / 256 % 16,
        (number % 256) as u8 as nat / 16 == number as nat / 16 % 16,
        (number % 256) as u8 as nat % 16 == number as nat % 16,
        (number as nat / 4096) * 16 + number as nat / 256 % 16 == number as nat / 256,
        (number as nat / 256) * 16 + number as nat / 16 % 16 == number as nat / 16,
        (number as nat / 16) * 16 + number as nat % 16 == number,
{
}

proof fn lemma_hex_word_gives_back_number(number: u16)
    ensures
        hex_word_text(number).len() == 4,
        hex_outcome(hex_word_text(number)) == Ok::<u16, NumberError>(number),
        forall|i: int| 0 <= i < 4 ==> #[trigger] hex_word_text(number)[i] != ':',
{
    let n = number as nat;
    let none = Seq::<char>::empty();
    let one = none.push(hex_digit(n / 4096));
    let two = one.push(hex_digit(n / 256 % 16));
    let three = two.push(hex_digit(n / 16 % 16));
    let four = three.push(hex_digit(n % 16));
    lemma_nibbles(number);
    assert(digits_outcome(none) == Ok::<u16, NumberError>(0));
    lemma_next_digit(none, 0, n / 4096);
    lemma_next_digit(one, (n / 4096) as u16, n / 256 % 16);
    lemma_next_digit(two, (n / 256) as u16, n / 16 % 16);
    lemma_next_digit(three, (n / 16) as u16, n % 16);
    assert(hex_word_text(number) =~= four);
}

/// A vendor and a product that are written as four hexadecimal digits each, with a colon between,
/// are read back.
pub proof fn law_usb_id_gives_back_numbers(vid: u16, pid: u16)
    ensures
        usb_id_outcome(hex_word_text(vid) + seq![':'] + hex_word_text(pid)) == Ok::<
            (u16, u16),
            UsbIdError,
        >((vid, pid)),
{
    let id = hex_word_text(vid) + seq![':'] + hex_word_text(pid);
    lemma_hex_word_gives_back_number(vid);
    lemma_hex_word_gives_back_number(pid);
    lemma_position(id, ':', 0);
    let colon = position_from(id, ':', 0);
    assert(id[4] == ':');
    assert forall|i: int| 0 <= i < 4 implies #[trigger] id[i] != ':' by {
        assert(id[i] == hex_word_text(vid)[i]);
    }
    assert(colon == 4);
    assert(id.take(4) =~= hex_word_text(vid));
    assert(id.skip(5) =~= hex_word_text(pid));
}

// ---------------------------------------------------------------------------------------------
// Laws of the bytes
// ---------------------------------------------------------------------------------------------
/// Each byte counts once in a sum.
pub proof fn law_each_byte_counts_once(bytes: Seq<u8>, byte: u8)
    ensures
        byte_sum(Seq::empty()) == 0,
        byte_sum(bytes.push(byte)) == byte_sum(bytes) + byte,
{
    assert(bytes.push(byte).drop_last() =~= bytes);
}

/// A packet starts with six fixed bytes. Its type follows, then the length of what is behind the
/// length, then the payload and the sum of all that stands between the fixed bytes and the sum.
/// Numbers have their high byte first.
pub proof fn law_packet_has_this_layout(kind: u8, payload: Seq<u8>)
    requires
        payload.len() + 2 <= 0xffff,
    ensures
        ({
            let bytes = packet(kind, payload);
            let end = 9 + payload.len() as int;
            &&& bytes.len() == end + 2
            &&& bytes[0] == 0xef && bytes[1] == 0x01
            &&& bytes[2] == 0xff && bytes[3] == 0xff && bytes[4] == 0xff && bytes[5] == 0xff
            &&& bytes[6] == kind
            &&& bytes[7] * 256 + bytes[8] == payload.len() + 2
            &&& bytes.subrange(9, end) == payload
            &&& bytes[end] * 256 + bytes[end + 1] == byte_sum(bytes.subrange(6, end)) % 65536
        }),
{
    let body = packet_body(kind, payload);
    let bytes = packet(kind, payload);
    let end = 9 + payload.len() as int;
    assert(bytes.subrange(9, end) =~= payload);
    assert(bytes.subrange(6, end) =~= body.skip(6));
    let length = (payload.len() + 2) as u16;
    let sum = packet_checksum(body);
    assert(bytes[7] == (length / 256) as u8 && bytes[8] == (length % 256) as u8);
    assert(bytes[end] == (sum / 256) as u8 && bytes[end + 1] == (sum % 256) as u8);
    assert((length / 256) * 256 + length % 256 == length);
    assert((sum / 256) * 256 + sum % 256 == sum);
}

/// An answer is refused for the first of these: it is too short for one or starts otherwise, it is
/// of another type, its length is not what it says, its sum is wrong. Else its payload is what
/// stands between its length and its sum.
pub proof fn law_answer_is_checked(bytes: Seq<u8>)
    ensures
        ({
            let outcome = answer_outcome(bytes);
            let end = bytes.len() - 2;
            let length = bytes[7] * 256 + bytes[8];
            let actual = byte_sum(bytes.subrange(6, end)) % 65536;
            let expected = bytes[end] * 256 + bytes[end + 1];
            if bytes.len() < 12 || bytes[0] != 0xef || bytes[1] != 0x01 || bytes[2] != 0xff
                || bytes[3] != 0xff || bytes[4] != 0xff || bytes[5] != 0xff {
                outcome == Err::<Seq<u8>, ProtocolError>(ProtocolError::InvalidHeader)
            } else if bytes[6] != 0x07 {
                outcome == Err::<Seq<u8>, ProtocolError>(ProtocolError::UnexpectedType(bytes[6]))
            } else if bytes.len() != 9 + length {
                outcome == Err::<Seq<u8>, ProtocolError>(ProtocolError::InvalidLength)
            } else if actual != expected {
                outcome == Err::<Seq<u8>, ProtocolError>(
                    ProtocolError::ChecksumMismatch {
                        actual: actual as u16,
                        expected: expected as u16,
                    },
                )
            } else {
                outcome == Ok::<Seq<u8>, ProtocolError>(bytes.subrange(9, end))
            }
        }),
{
    let end = bytes.len() - 2;
    let header = packet_header();
    if bytes.len() >= 12 {
        assert(bytes.subrange(6, end) =~= bytes.take(end).skip(6));
        if bytes[0] == 0xef && bytes[1] == 0x01 && bytes[2] == 0xff && bytes[3] == 0xff && bytes[4]
            == 0xff && bytes[5] == 0xff {
            assert(bytes.take(6) =~= header);
        } else if bytes.take(6) == header {
            assert(forall|i: int| 0 <= i < 6 ==> bytes[i] == #[trigger] bytes.take(6)[i]);
            assert(header[0] == 0xef && header[1] == 0x01 && header[2] == 0xff && header[3] == 0xff
                && header[4] == 0xff && header[5] == 0xff);
        }
    }
}

/// What has been received is a whole packet as soon as there is as much behind the length as it
/// says, and not before. It ends there, whatever follows.
pub proof fn law_packet_is_whole_in_time(received: Seq<u8>, more: Seq<u8>)
    ensures
        packet_end(received) is Some <==> received.len() >= 9 && received.len() >= 9 + received[7]
            * 256 + received[8],
        packet_end(received) matches Some(end) ==> end == 9 + received[7] * 256 + received[8]
            && packet_end(received + more) == Some(end),
{
}

/// A command has succeeded exactly where the first byte of its answer is zero. There is a finger
/// exactly where the first byte of the answer about an image is zero. Without a byte neither is
/// told.
pub proof fn law_first_byte_tells(command: u8, first: u8, rest: Seq<u8>)
    ensures
        success_outcome(command, Seq::empty()) == Err::<(), ProtocolError>(
            ProtocolError::EmptyResponse { command },
        ),
        presence_outcome(Seq::empty()) == Err::<bool, ProtocolError>(ProtocolError::EmptyPresence),
        success_outcome(command, seq![first] + rest) == if first == 0 {
            Ok::<(), ProtocolError>(())
        } else {
            Err(ProtocolError::CommandFailed { command, result: first })
        },
        presence_outcome(seq![first] + rest) == Ok::<bool, ProtocolError>(first == 0),
{
}

/// A packet was sent as a whole exactly where as many bytes were sent as it has.
pub proof fn law_short_write_is_noticed(written: usize, length: usize)
    ensures
        written_outcome(written, length) is Ok <==> written == length,
        written_outcome(written, length) matches Err(error) ==> error == (
        ProtocolError::ShortWrite { written, length }),
{
}

/// Hexadecimal digits are the decimal ones and the first six letters, small or capital, in
/// ascending order of their values.
pub proof fn law_hexadecimal_digits_have_values(digit: u16, c: char)
    ensures
        digit < 10 ==> hex_digit_value(('0' as u32 + digit) as char) == Some(digit),
        digit < 6 ==> hex_digit_value(('a' as u32 + digit) as char) == Some((10 + digit) as u16),
        digit < 6 ==> hex_digit_value(('A' as u32 + digit) as char) == Some((10 + digit) as u16),
        hex_digit_value(c) is Some <==> '0' <= c <= '9' || 'a' <= c <= 'f' || 'A' <= c <= 'F',
{
}

/// A further digit makes sixteen times the number plus its value, as long as that is a 16-bit
/// number. The first character that does not go stays the fault.
pub proof fn law_digits_are_taken_in_turn(digits: Seq<char>, c: char)
    ensures
        digits_outcome(Seq::empty()) == Ok::<u16, NumberError>(0),
        digits_outcome(digits) matches Err(error) ==> digits_outcome(digits.push(c)) == Err::<
            u16,
            NumberError,
        >(error),
        digits_outcome(digits) matches Ok(number) ==> digits_outcome(
            digits.push(c),
        ) == match hex_digit_value(c) {
            None => Err::<u16, NumberError>(NumberError::InvalidDigit),
            Some(digit) => if number * 16 + digit >= 65536 {
                Err(NumberError::Overflow)
            } else {
                Ok((number * 16 + digit) as u16)
            },
        },
{
    assert(digits.push(c).drop_last() =~= digits);
}

/// A plus sign in front of digits changes nothing, and by itself is no digit. Nothing is no number.
pub proof fn law_sign_may_be_written(digits: Seq<char>)
    ensures
        hex_outcome(Seq::empty()) == Err::<u16, NumberError>(NumberError::Empty),
        hex_outcome(seq!['+']) == Err::<u16, NumberError>(NumberError::InvalidDigit),
        digits.len() > 0 ==> hex_outcome(seq!['+'] + digits) == digits_outcome(digits),
        digits.len() > 0 && digits[0] != '+' ==> hex_outcome(digits) == digits_outcome(digits),
{
    assert((seq!['+'] + digits).skip(1) =~= digits);
    assert(seq!['+'].drop_last() =~= Seq::<char>::empty());
}

/// An identifier has the vendor before its first colon and the product behind it. The fault of the
/// vendor goes before that of the product. Without a colon it is none.
pub proof fn law_first_colon_parts_the_numbers(vendor: Seq<char>, product: Seq<char>)
    requires
        !vendor.contains(':'),
    ensures
        usb_id_outcome(vendor) == Err::<(u16, u16), UsbIdError>(UsbIdError::Format),
        usb_id_outcome(vendor + seq![':'] + product) == match (
            hex_outcome(vendor),
            hex_outcome(product),
        ) {
            (Err(error), _) => Err::<(u16, u16), UsbIdError>(UsbIdError::Number(error)),
            (_, Err(error)) => Err(UsbIdError::Number(error)),
            (Ok(vid), Ok(pid)) => Ok((vid, pid)),
        },
{
    let id = vendor + seq![':'] + product;
    lemma_position(id, ':', 0);
    lemma_position(vendor, ':', 0);
    assert forall|i: int| 0 <= i < vendor.len() implies #[trigger] vendor[i] != ':' && id[i]
        == vendor[i] by {
        assert(vendor.contains(vendor[i]));
    }
    assert(id[vendor.len() as int] == ':');
    assert(position_from(id, ':', 0) == vendor.len());
    assert(id.take(vendor.len() as int) =~= vendor);
    assert(id.skip(vendor.len() as int + 1) =~= product);
    if position_from(vendor, ':', 0) < vendor.len() {
        assert(vendor[position_from(vendor, ':', 0)] != ':');
    }
}

/// Each fault is told by a message of its own, with the numbers that belong to it.
pub proof fn law_protocol_faults_are_told(a: u8, b: u8, c: u16, d: u16, e: usize, f: usize)
    ensures
        protocol_fault_text(ProtocolError::CommandTooLarge) == "fingerprint command is too large"@,
        protocol_fault_text(ProtocolError::ShortWrite { written: e, length: f })
            == "short fingerprint command write: "@ + decimal_text(e as nat) + "/"@ + decimal_text(
            f as nat,
        ) + " bytes"@,
        protocol_fault_text(ProtocolError::InvalidHeader) == "invalid fingerprint response header"@,
        protocol_fault_text(ProtocolError::UnexpectedType(a))
            == "unexpected fingerprint response type 0x"@ + hex_byte_text(a),
        protocol_fault_text(ProtocolError::InvalidLength) == "invalid fingerprint response length"@,
        protocol_fault_text(ProtocolError::ChecksumMismatch { actual: c, expected: d })
            == "fingerprint response checksum mismatch: "@ + hex_word_text(c) + " != "@
            + hex_word_text(d),
        protocol_fault_text(ProtocolError::CommandFailed { command: a, result: b })
            == "fingerprint command 0x"@ + hex_byte_text(a) + " failed with 0x"@ + hex_byte_text(b),
        protocol_fault_text(ProtocolError::EmptyResponse { command: a })
            == "empty fingerprint command 0x"@ + hex_byte_text(a) + " response"@,
        protocol_fault_text(ProtocolError::EmptyPresence) == "empty fingerprint presence response"@,
        usb_id_fault_text(UsbIdError::Format) == "expected fingerprint USB ID in vid:pid format"@,
        usb_id_fault_text(UsbIdError::Number(NumberError::Empty))
            == "cannot parse integer from empty string"@,
        usb_id_fault_text(UsbIdError::Number(NumberError::InvalidDigit))
            == "invalid digit found in string"@,
        usb_id_fault_text(UsbIdError::Number(NumberError::Overflow))
            == "number too large to fit in target type"@,
{
}

/// A command goes out in a packet of its own type, with the command before its data, as long as the
/// length of both and of the sum is a 16-bit number.
pub proof fn law_command_goes_before_its_data(command: u8, data: Seq<u8>)
    ensures
        data.len() > 65532 ==> command_outcome(command, data) == Err::<Seq<u8>, ProtocolError>(
            ProtocolError::CommandTooLarge,
        ),
        data.len() <= 65532 ==> {
            let bytes = command_outcome(command, data)->Ok_0;
            &&& command_outcome(command, data) is Ok
            &&& bytes.len() == 12 + data.len()
            &&& bytes[6] == 0x01
            &&& bytes[7] * 256 + bytes[8] == data.len() + 3
            &&& bytes[9] == command
            &&& bytes.subrange(10, 10 + data.len() as int) == data
        },
{
    if data.len() <= 65532 {
        let payload = seq![command] + data;
        law_packet_has_this_layout(0x01, payload);
        let bytes = packet(PACKET_COMMAND, payload);
        let end = 9 + payload.len() as int;
        assert(bytes[9] == bytes.subrange(9, end)[0]);
        assert(bytes.subrange(10, end) =~= bytes.subrange(9, end).skip(1));
        assert(payload.skip(1) =~= data);
    }
}

/// The numbers that the device is addressed with, and those that its packets are made of.
pub proof fn law_numbers_are_those_of_the_device()
    ensures
        BULK_OUT == 0x03 && BULK_IN == 0x83 && INTERRUPT_IN == 0x82 && INTERFACE == 0,
        PACKET_COMMAND == 0x01 && PACKET_ANSWER == 0x07,
        COMMAND_HANDSHAKE == 0x35 && COMMAND_INIT_STATUS == 0x88,
        COMMAND_GET_IMAGE == 0x01 && COMMAND_SLEEP == 0x33,
        RESULT_FINGER_PRESENT == 0x00 && RESULT_NO_FINGER == 0x02,
        SLEEP_INTERRUPT_WAIT == 0 && SLEEP_INTERRUPT_CHECK == 1,
        REQUEST_INTERRUPT_ENABLE == 0x89,
{
}

} // verus!
