//! The wire format of an output packet, as a model over byte sequences.
//!
//! ```text
//! offset  size  field
//!      0     8  "Art-Net\0"
//!      8     2  opcode, little-endian (0x5000)
//!     10     2  protocol version, big-endian (14)
//!     12     1  sequence
//!     13     1  physical port
//!     14     2  port address (SubUni, Net), little-endian
//!     16     2  data length, big-endian, even
//!     18     n  data
//! ```

use vstd::prelude::*;
use crate::command::{CommandModel, DecodeError, EncodeError, MAX_PAYLOAD, MAX_UNIVERSE};

verus! {

/// Bytes before the data of an output packet.
pub const HEADER_LEN: usize = 18;

/// The longest frame: a header and a full payload.
pub const MAX_FRAME: usize = 530;

/// Size of the buffer that a datagram is received into.
pub const RECEIVE_BUFFER: usize = 1024;

/// The UDP port of the protocol.
pub const ARTNET_PORT: u16 = 6454;

/// Bytes up to and including the opcode.
pub const OPCODE_END: usize = 10;

/// Opcode of an output packet.
pub const OP_OUTPUT: u16 = 0x5000;

/// The protocol version that this codec speaks.
pub const PROTOCOL_VERSION: u16 = 14;

/// The identifier that opens every packet: `Art-Net` and a zero byte.
pub open spec fn magic() -> Seq<u8> {
    seq![0x41u8, 0x72u8, 0x74u8, 0x2du8, 0x4eu8, 0x65u8, 0x74u8, 0x00u8]
}

/// The low eight bits of a 16-bit value.
pub open spec fn low_byte(value: int) -> u8 {
    (value % 256) as u8
}

/// The high eight bits of a 16-bit value.
pub open spec fn high_byte(value: int) -> u8 {
    ((value / 256) % 256) as u8
}

/// The 16-bit value whose low byte is `low` and whose high byte is `high`.
pub open spec fn word(low: u8, high: u8) -> int {
    low as int + 256 * (high as int)
}

/// `data`, with a zero byte appended where its length is odd.
pub open spec fn padded(data: Seq<u8>) -> Seq<u8> {
    if data.len() % 2 == 1 {
        data.push(0u8)
    } else {
        data
    }
}

/// The eighteen bytes before the data of an output packet for `universe`
/// that announces `length` data bytes.
pub open spec fn output_header(universe: u16, length: int) -> Seq<u8> {
    magic() + seq![
        low_byte(OP_OUTPUT as int),
        high_byte(OP_OUTPUT as int),
        high_byte(PROTOCOL_VERSION as int),
        low_byte(PROTOCOL_VERSION as int),
        0u8,
        0u8,
        low_byte(universe as int),
        high_byte(universe as int),
        high_byte(length),
        low_byte(length),
    ]
}

/// The packet that carries `data` to `universe`.
pub open spec fn output_frame(universe: u16, data: Seq<u8>) -> Seq<u8> {
    output_header(universe, padded(data).len() as int) + padded(data)
}

/// The opcode field of a datagram of at least ten bytes.
pub open spec fn opcode_of(bytes: Seq<u8>) -> int {
    word(bytes[8], bytes[9])
}

/// The version field of a datagram of at least twelve bytes.
pub open spec fn version_of(bytes: Seq<u8>) -> int {
    word(bytes[11], bytes[10])
}

/// The port address field of a datagram of at least sixteen bytes.
pub open spec fn universe_of(bytes: Seq<u8>) -> int {
    word(bytes[14], bytes[15])
}

/// The length field of a datagram of at least eighteen bytes.
pub open spec fn length_of(bytes: Seq<u8>) -> int {
    word(bytes[17], bytes[16])
}

/// The datagram opens with the protocol's identifier.
pub open spec fn has_magic(bytes: Seq<u8>) -> bool {
    bytes.len() >= 8 && bytes.subrange(0, 8) == magic()
}

/// What encoding a command gives: its frame, or the reason why it has none.
pub open spec fn encoded(command: CommandModel) -> Result<Seq<u8>, EncodeError> {
    if command.channel_data().len() > MAX_PAYLOAD {
        Err(EncodeError::PayloadTooLarge)
    } else if command.universe() > MAX_UNIVERSE {
        Err(EncodeError::UniverseOutOfRange)
    } else {
        Ok(output_frame(command.universe(), command.channel_data()))
    }
}

/// What decoding a datagram gives: the command it carries, or the first
/// reason, in the order of the fields, why it carries none. Bytes after the
/// announced data are ignored.
pub open spec fn decoded(bytes: Seq<u8>) -> Result<CommandModel, DecodeError> {
    if bytes.len() < OPCODE_END {
        Err(DecodeError::Truncated)
    } else if !has_magic(bytes) {
        Err(DecodeError::BadMagic)
    } else if opcode_of(bytes) != OP_OUTPUT {
        Err(DecodeError::UnknownOpcode(opcode_of(bytes) as u16))
    } else if bytes.len() < HEADER_LEN {
        Err(DecodeError::Truncated)
    } else if version_of(bytes) != PROTOCOL_VERSION {
        Err(DecodeError::BadVersion)
    } else if universe_of(bytes) > MAX_UNIVERSE {
        Err(DecodeError::UniverseOutOfRange)
    } else if length_of(bytes) > MAX_PAYLOAD {
        Err(DecodeError::LengthOutOfRange)
    } else if bytes.len() < HEADER_LEN + length_of(bytes) {
        Err(DecodeError::Truncated)
    } else {
        Ok(
            CommandModel::Output {
                universe: universe_of(bytes) as u16,
                channel_data: bytes.subrange(HEADER_LEN as int, HEADER_LEN + length_of(bytes)),
            },
        )
    }
}

/// A frame opens with its header: the fields read back as they were written.
pub proof fn lemma_frame_fields(universe: u16, data: Seq<u8>)
    requires
        data.len() <= MAX_PAYLOAD,
    ensures
        output_frame(universe, data).len() == HEADER_LEN + padded(data).len(),
        has_magic(output_frame(universe, data)),
        opcode_of(output_frame(universe, data)) == OP_OUTPUT,
        version_of(output_frame(universe, data)) == PROTOCOL_VERSION,
        universe_of(output_frame(universe, data)) == universe,
        length_of(output_frame(universe, data)) == padded(data).len(),
        output_frame(universe, data).subrange(
            HEADER_LEN as int,
            HEADER_LEN + padded(data).len(),
        ) == padded(data),
{
    let body = padded(data);
    let header = output_header(universe, body.len() as int);
    let frame = output_frame(universe, data);
    assert(header.len() == 18);
    assert(frame.subrange(0, 8) =~= magic());
    assert(frame[8] == header[8] && frame[9] == header[9] && frame[10] == header[10]
        && frame[11] == header[11]);
    assert(frame[14] == header[14] && frame[15] == header[15] && frame[16] == header[16]
        && frame[17] == header[17]);
    assert(frame.subrange(HEADER_LEN as int, HEADER_LEN + body.len()) =~= body);
}

/// No frame is longer than [`MAX_FRAME`], so each fits into a receive
/// buffer of [`RECEIVE_BUFFER`] bytes in one piece.
pub proof fn lemma_frame_fits_buffer(command: CommandModel)
    requires
        encoded(command) is Ok,
    ensures
        HEADER_LEN <= encoded(command)->Ok_0.len() <= MAX_FRAME <= RECEIVE_BUFFER,
        encoded(command)->Ok_0.len() % 2 == 0,
{
}

/// Decoding the frame of a command gives the command back, its data padded
/// to an even length: every command that has a frame survives the wire up to
/// that zero byte.
pub proof fn lemma_decode_inverts_encode(command: CommandModel)
    requires
        command.channel_data().len() <= MAX_PAYLOAD,
        command.universe() <= MAX_UNIVERSE,
    ensures
        encoded(command) is Ok,
        decoded(encoded(command)->Ok_0) == Ok::<CommandModel, DecodeError>(
            CommandModel::Output {
                universe: command.universe(),
                channel_data: padded(command.channel_data()),
            },
        ),
{
    lemma_frame_fields(command.universe(), command.channel_data());
}

/// Round trip: a command with an even payload of at most
/// [`MAX_PAYLOAD`] bytes and a universe of at most [`MAX_UNIVERSE`] decodes
/// from its frame to itself.
pub proof fn lemma_round_trip(command: CommandModel)
    requires
        command.channel_data().len() <= MAX_PAYLOAD,
        command.channel_data().len() % 2 == 0,
        command.universe() <= MAX_UNIVERSE,
    ensures
        encoded(command) is Ok,
        decoded(encoded(command)->Ok_0) == Ok::<CommandModel, DecodeError>(command),
{
    lemma_decode_inverts_encode(command);
}

/// A payload of more than [`MAX_PAYLOAD`] bytes has no frame, whatever the
/// universe.
pub proof fn lemma_oversize_has_no_frame(command: CommandModel)
    requires
        command.channel_data().len() > MAX_PAYLOAD,
    ensures
        encoded(command) == Err::<Seq<u8>, EncodeError>(EncodeError::PayloadTooLarge),
{
}

/// A datagram shorter than the header of an output packet is no command.
pub proof fn lemma_short_datagram_is_refused(bytes: Seq<u8>)
    requires
        bytes.len() < HEADER_LEN,
    ensures
        decoded(bytes) is Err,
{
}

/// Whatever decodes fits into one packet and addresses a valid universe.
pub proof fn lemma_decoded_is_valid(bytes: Seq<u8>)
    requires
        decoded(bytes) is Ok,
    ensures
        decoded(bytes)->Ok_0.fits(),
        decoded(bytes)->Ok_0.universe() <= MAX_UNIVERSE,
{
}

} // verus!
