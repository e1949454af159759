//! Encoding commands into datagrams and decoding datagrams into commands.
//!
//! The protocol crate writes and reads the packets; this module decides which
//! commands have a frame, which datagrams are commands, and says why not.

use vstd::prelude::*;
use artnet_protocol::{ArtCommand, Output, PortAddress};
use crate::command::{Command, CommandModel, DecodeError, EncodeError, MAX_PAYLOAD, MAX_UNIVERSE};
use crate::wire::{
    decoded, encoded, has_magic, length_of, magic, opcode_of, output_frame, universe_of, word,
    HEADER_LEN, OPCODE_END, OP_OUTPUT, PROTOCOL_VERSION,
};

verus! {

/// The fields of an output packet as the protocol crate read them.
struct OutputFields {
    universe: u16,
    length: u16,
    data: Vec<u8>,
}

/// Calls `artnet_protocol::ArtCommand::write_to_buffer` on an `Output` with
/// default version, sequence and physical port, whose port address comes
/// from `artnet_protocol::PortAddress::try_from`.
///
/// Trusted: the crate refuses a port address above 32767, an empty payload
/// and one of more than 512 bytes; otherwise it writes the identifier, the
/// opcode, the version, two zero bytes, the port address, the even length and
/// the data, padded with a zero byte to that length.
#[verifier::external_body]
fn write_output(universe: u16, data: &Vec<u8>) -> (frame: Option<Vec<u8>>)
    ensures
        frame.is_some() == (universe <= MAX_UNIVERSE && 1 <= data@.len() <= MAX_PAYLOAD),
        frame.is_some() ==> frame.unwrap()@ == output_frame(universe, data@),
{
    let port_address = PortAddress::try_from(universe).ok()?;
    let output = Output { port_address, data: data.clone().into(), ..Output::default() };
    ArtCommand::Output(output).write_to_buffer().ok()
}

/// Calls `artnet_protocol::ArtCommand::from_buffer` and keeps an `Output`.
///
/// Trusted: the crate returns an `Output` exactly for a datagram of at least
/// eighteen bytes that opens with the identifier, has the output opcode and a
/// port address of at most 32767. It checks neither the version nor the
/// length field, and takes every byte after the header as data.
#[verifier::external_body]
fn read_output(bytes: &[u8]) -> (fields: Option<OutputFields>)
    ensures
        fields.is_some() == (bytes@.len() >= HEADER_LEN && has_magic(bytes@) && opcode_of(bytes@)
            == OP_OUTPUT && universe_of(bytes@) <= MAX_UNIVERSE),
        fields.is_some() ==> fields.unwrap().universe == universe_of(bytes@),
        fields.is_some() ==> fields.unwrap().length == length_of(bytes@),
        fields.is_some() ==> fields.unwrap().data@ == bytes@.subrange(
            HEADER_LEN as int,
            bytes@.len() as int,
        ),
{
    match ArtCommand::from_buffer(bytes) {
        Ok(ArtCommand::Output(output)) => Some(
            OutputFields {
                universe: output.port_address.into(),
                length: *output.length,
                data: output.data.as_ref().clone(),
            },
        ),
        _ => None,
    }
}

/// The frame of a command without data: the header alone, with a length
/// of zero. The protocol crate writes no such packet.
fn bare_header(universe: u16) -> (frame: Vec<u8>)
    ensures
        frame@ == output_frame(universe, Seq::<u8>::empty()),
{
    let mut frame: Vec<u8> = Vec::new();
    frame.push(0x41);
    frame.push(0x72);
    frame.push(0x74);
    frame.push(0x2d);
    frame.push(0x4e);
    frame.push(0x65);
    frame.push(0x74);
    frame.push(0x00);
    frame.push((OP_OUTPUT % 256) as u8);
    frame.push((OP_OUTPUT / 256) as u8);
    frame.push((PROTOCOL_VERSION / 256) as u8);
    frame.push((PROTOCOL_VERSION % 256) as u8);
    frame.push(0);
    frame.push(0);
    frame.push((universe % 256) as u8);
    frame.push((universe / 256) as u8);
    frame.push(0);
    frame.push(0);
    assert(frame@ =~= output_frame(universe, Seq::<u8>::empty()));
    frame
}

/// The frame of a command, or the reason why it has none.
///
/// Fails on a payload of more than [`MAX_PAYLOAD`] bytes and on a universe
/// above [`MAX_UNIVERSE`], in this order; every other command has a frame,
/// the one without data too.
pub fn encode(command: &Command) -> (result: Result<Vec<u8>, EncodeError>)
    ensures
        match result {
            Ok(frame) => encoded(command@) == Ok::<Seq<u8>, EncodeError>(frame@),
            Err(error) => encoded(command@) == Err::<Seq<u8>, EncodeError>(error),
        },
        command@.channel_data().len() > MAX_PAYLOAD ==> result is Err,
        command@.channel_data().len() <= MAX_PAYLOAD && command@.universe() <= MAX_UNIVERSE
            ==> result is Ok,
{
    let data = command.channel_data();
    let universe = command.universe();
    if data.len() == 0 {
        if universe > MAX_UNIVERSE {
            Err(EncodeError::UniverseOutOfRange)
        } else {
            Ok(bare_header(universe))
        }
    } else {
        match write_output(universe, data) {
            Some(frame) => Ok(frame),
            None => {
                if data.len() > MAX_PAYLOAD {
                    Err(EncodeError::PayloadTooLarge)
                } else {
                    Err(EncodeError::UniverseOutOfRange)
                }
            },
        }
    }
}

/// Whether a datagram of at least eight bytes opens with the identifier.
fn starts_with_magic(bytes: &[u8]) -> (found: bool)
    requires
        bytes@.len() >= 8,
    ensures
        found == has_magic(bytes@),
{
    let found = bytes[0] == 0x41 && bytes[1] == 0x72 && bytes[2] == 0x74 && bytes[3] == 0x2d
        && bytes[4] == 0x4e && bytes[5] == 0x65 && bytes[6] == 0x74 && bytes[7] == 0x00;
    proof {
        let head = bytes@.subrange(0, 8);
        if found {
            assert(head =~= magic());
        } else {
            assert(head[0] == bytes@[0] && head[1] == bytes@[1] && head[2] == bytes@[2]
                && head[3] == bytes@[3] && head[4] == bytes@[4] && head[5] == bytes@[5]
                && head[6] == bytes@[6] && head[7] == bytes@[7]);
        }
    }
    found
}

/// The 16-bit value of two bytes, the low one first.
fn join(low: u8, high: u8) -> (value: u16)
    ensures
        value == word(low, high),
{
    low as u16 + 256 * (high as u16)
}

/// The command that a datagram carries, or the first reason, in the order of
/// the fields, why it carries none.
///
/// Accepts exactly the datagrams that open with the identifier, the output
/// opcode, version 14 and a port address of at most [`MAX_UNIVERSE`], and
/// that hold at least the data bytes that their length field, of at most
/// [`MAX_PAYLOAD`], announces. Bytes after those are ignored.
pub fn decode(bytes: &[u8]) -> (result: Result<Command, DecodeError>)
    ensures
        match result {
            Ok(command) => decoded(bytes@) == Ok::<CommandModel, DecodeError>(command@),
            Err(error) => decoded(bytes@) == Err::<CommandModel, DecodeError>(error),
        },
        bytes@.len() < HEADER_LEN ==> result is Err,
{
    if bytes.len() < OPCODE_END {
        return Err(DecodeError::Truncated);
    }
    if !starts_with_magic(bytes) {
        return Err(DecodeError::BadMagic);
    }
    let opcode = join(bytes[8], bytes[9]);
    if opcode != OP_OUTPUT {
        return Err(DecodeError::UnknownOpcode(opcode));
    }
    if bytes.len() < HEADER_LEN {
        return Err(DecodeError::Truncated);
    }
    if join(bytes[11], bytes[10]) != PROTOCOL_VERSION {
        return Err(DecodeError::BadVersion);
    }
    match read_output(bytes) {
        None => Err(DecodeError::UniverseOutOfRange),
        Some(fields) => {
            let OutputFields { universe, length, data } = fields;
            let mut channel_data = data;
            let announced = length as usize;
            if announced > MAX_PAYLOAD {
                Err(DecodeError::LengthOutOfRange)
            } else if channel_data.len() < announced {
                Err(DecodeError::Truncated)
            } else {
                channel_data.truncate(announced);
                assert(channel_data@ =~= bytes@.subrange(
                    HEADER_LEN as int,
                    HEADER_LEN + length_of(bytes@),
                ));
                Ok(Command::Output { universe, channel_data })
            }
        },
    }
}

} // verus!
