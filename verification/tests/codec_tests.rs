use artnet_protocol::{ArtCommand, Output, PortAddress};
use pixelmap_artnet::wire::{HEADER_LEN, MAX_FRAME, RECEIVE_BUFFER};
use pixelmap_artnet::{decode, encode, Command, DecodeError, EncodeError, MAX_PAYLOAD, MAX_UNIVERSE};

fn frame_for(universe: u16, length: u16, data: &[u8]) -> Vec<u8> {
    let mut frame = b"Art-Net\0".to_vec();
    frame.extend_from_slice(&[0x00, 0x50, 0, 14, 0, 0]);
    frame.extend_from_slice(&universe.to_le_bytes());
    frame.extend_from_slice(&length.to_be_bytes());
    frame.extend_from_slice(data);
    frame
}

fn ramp(length: usize) -> Vec<u8> {
    (0..length).map(|i| (i * 7 + 1) as u8).collect()
}

#[test]
fn encode_writes_every_field_of_the_frame() {
    let frame = encode(&Command::output(0x0102, vec![1, 2, 3, 4])).unwrap();
    assert_eq!(
        frame,
        vec![
            b'A', b'r', b't', b'-', b'N', b'e', b't', 0, // identifier
            0x00, 0x50, // opcode, low byte first
            0, 14, // version, high byte first
            0, 0, // sequence, physical
            0x02, 0x01, // port address, low byte first
            0, 4, // length, high byte first
            1, 2, 3, 4,
        ]
    );
}

#[test]
fn encode_writes_a_two_byte_length() {
    let frame = encode(&Command::output(7, ramp(512))).unwrap();
    assert_eq!(frame.len(), 18 + 512);
    assert_eq!(&frame[16..18], &[2, 0]);
    assert_eq!(&frame[18..], &ramp(512)[..]);
    let frame = encode(&Command::output(7, ramp(300))).unwrap();
    assert_eq!(&frame[16..18], &[1, 44]);
}

#[test]
fn the_longest_frame_fits_the_receive_buffer() {
    let longest = encode(&Command::output(MAX_UNIVERSE, ramp(MAX_PAYLOAD))).unwrap();
    assert_eq!(longest.len(), MAX_FRAME);
    assert_eq!(MAX_FRAME, HEADER_LEN + MAX_PAYLOAD);
    assert!(MAX_FRAME <= RECEIVE_BUFFER);
    let mut buffer = [0u8; RECEIVE_BUFFER];
    buffer[..longest.len()].copy_from_slice(&longest);
    assert_eq!(
        decode(&buffer[..longest.len()]),
        Ok(Command::output(MAX_UNIVERSE, ramp(MAX_PAYLOAD)))
    );
}

#[test]
fn encode_pads_an_odd_payload_with_a_zero() {
    let frame = encode(&Command::output(1, vec![7])).unwrap();
    assert_eq!(frame, frame_for(1, 2, &[7, 0]));
    let frame = encode(&Command::output(1, ramp(511))).unwrap();
    assert_eq!(frame.len(), 18 + 512);
    assert_eq!(&frame[16..18], &[2, 0]);
    assert_eq!(frame[18 + 511], 0);
}

#[test]
fn encode_refuses_more_than_the_payload_limit() {
    for length in [513usize, 514, 1000, 70_000] {
        assert_eq!(
            encode(&Command::output(1, vec![9; length])),
            Err(EncodeError::PayloadTooLarge)
        );
    }
    assert!(encode(&Command::output(1, vec![9; MAX_PAYLOAD])).is_ok());
}

#[test]
fn encode_writes_the_header_alone_for_an_empty_payload() {
    let frame = encode(&Command::output(0x0102, vec![])).unwrap();
    assert_eq!(
        frame,
        vec![
            b'A', b'r', b't', b'-', b'N', b'e', b't', 0, // identifier
            0x00, 0x50, // opcode, low byte first
            0, 14, // version, high byte first
            0, 0, // sequence, physical
            0x02, 0x01, // port address, low byte first
            0, 0, // length
        ]
    );
    assert_eq!(frame, frame_for(0x0102, 0, &[]));
    assert_eq!(encode(&Command::output(0, vec![])).unwrap(), frame_for(0, 0, &[]));
    assert_eq!(
        encode(&Command::output(MAX_UNIVERSE, vec![])).unwrap(),
        frame_for(MAX_UNIVERSE, 0, &[])
    );
}

#[test]
fn encode_succeeds_on_every_length_up_to_the_limit() {
    for length in 0..=MAX_PAYLOAD {
        let frame = encode(&Command::output(5, ramp(length))).unwrap();
        assert_eq!(frame.len(), 18 + length + length % 2);
        assert_eq!(&frame[..16], &frame_for(5, 0, &[])[..16]);
        assert_eq!(frame[16] as usize * 256 + frame[17] as usize, length + length % 2);
        assert_eq!(&frame[18..18 + length], &ramp(length)[..]);
    }
}

#[test]
fn the_protocol_crate_reads_the_frame_without_data() {
    let frame = encode(&Command::output(300, vec![])).unwrap();
    match ArtCommand::from_buffer(&frame) {
        Ok(ArtCommand::Output(output)) => {
            assert_eq!(u16::from(output.port_address), 300);
            assert!(output.data.as_ref().is_empty());
            assert_eq!(output.version, [0, 14]);
        }
        other => panic!("no output packet: {:?}", other),
    }
}

#[test]
fn encode_refuses_a_universe_beyond_fifteen_bits() {
    assert_eq!(
        encode(&Command::output(MAX_UNIVERSE + 1, vec![1, 2])),
        Err(EncodeError::UniverseOutOfRange)
    );
    assert_eq!(
        encode(&Command::output(u16::MAX, vec![1, 2])),
        Err(EncodeError::UniverseOutOfRange)
    );
    assert!(encode(&Command::output(MAX_UNIVERSE, vec![1, 2])).is_ok());
    assert!(encode(&Command::output(0, vec![1, 2])).is_ok());
}

#[test]
fn encode_reports_the_payload_before_the_universe() {
    assert_eq!(
        encode(&Command::output(u16::MAX, vec![0; 600])),
        Err(EncodeError::PayloadTooLarge)
    );
    assert_eq!(
        encode(&Command::output(u16::MAX, vec![])),
        Err(EncodeError::UniverseOutOfRange)
    );
}

#[test]
fn encode_agrees_with_the_protocol_crate() {
    for (universe, length) in [(0u16, 2usize), (1, 5), (300, 64), (32767, 512)] {
        let data = ramp(length);
        let theirs = ArtCommand::Output(Output {
            port_address: PortAddress::try_from(universe).unwrap(),
            data: data.clone().into(),
            ..Output::default()
        })
        .write_to_buffer()
        .unwrap();
        assert_eq!(encode(&Command::output(universe, data)).unwrap(), theirs);
    }
}

#[test]
fn round_trip_of_even_payloads() {
    for universe in [0u16, 1, 255, 256, 4660, MAX_UNIVERSE] {
        for length in [0usize, 2, 4, 16, 170, 510, 512] {
            let command = Command::output(universe, ramp(length));
            let frame = encode(&command).unwrap();
            assert_eq!(decode(&frame), Ok(command));
        }
    }
}

#[test]
fn round_trip_of_odd_payloads_gains_the_padding() {
    for length in [1usize, 3, 15, 511] {
        let frame = encode(&Command::output(9, ramp(length))).unwrap();
        let mut padded = ramp(length);
        padded.push(0);
        assert_eq!(decode(&frame), Ok(Command::output(9, padded)));
    }
}

#[test]
fn decode_refuses_every_proper_prefix_of_the_header() {
    let frame = encode(&Command::output(3, vec![1, 2, 3, 4])).unwrap();
    for length in 0..18 {
        assert_eq!(decode(&frame[..length]), Err(DecodeError::Truncated));
    }
    assert_eq!(decode(&[]), Err(DecodeError::Truncated));
    assert_eq!(decode(&[0xff; 9]), Err(DecodeError::Truncated));
}

#[test]
fn decode_refuses_data_shorter_than_announced() {
    let frame = frame_for(3, 4, &[1, 2, 3, 4]);
    assert_eq!(decode(&frame[..18]), Err(DecodeError::Truncated));
    assert_eq!(decode(&frame[..21]), Err(DecodeError::Truncated));
    assert_eq!(decode(&frame), Ok(Command::output(3, vec![1, 2, 3, 4])));
}

#[test]
fn decode_refuses_a_wrong_identifier() {
    for position in 0..8 {
        let mut frame = frame_for(3, 2, &[1, 2]);
        frame[position] ^= 0x20;
        assert_eq!(decode(&frame), Err(DecodeError::BadMagic));
    }
    assert_eq!(decode(&[0u8; 40]), Err(DecodeError::BadMagic));
}

#[test]
fn decode_refuses_other_opcodes() {
    let mut poll = b"Art-Net\0".to_vec();
    poll.extend_from_slice(&[0x00, 0x20, 0, 14, 0, 0]);
    assert_eq!(decode(&poll), Err(DecodeError::UnknownOpcode(0x2000)));
    let mut frame = frame_for(3, 2, &[1, 2]);
    frame[8] = 0x34;
    frame[9] = 0x12;
    assert_eq!(decode(&frame), Err(DecodeError::UnknownOpcode(0x1234)));
    frame[8] = 0x00;
    frame[9] = 0x51;
    assert_eq!(decode(&frame), Err(DecodeError::UnknownOpcode(0x5100)));
}

#[test]
fn decode_refuses_other_versions() {
    for version in [[0u8, 13], [0, 15], [14, 0], [1, 14], [0, 0]] {
        let mut frame = frame_for(3, 2, &[1, 2]);
        frame[10] = version[0];
        frame[11] = version[1];
        assert_eq!(decode(&frame), Err(DecodeError::BadVersion));
    }
}

#[test]
fn decode_refuses_a_port_address_beyond_fifteen_bits() {
    assert_eq!(
        decode(&frame_for(0x8000, 2, &[1, 2])),
        Err(DecodeError::UniverseOutOfRange)
    );
    assert_eq!(
        decode(&frame_for(0xffff, 2, &[1, 2])),
        Err(DecodeError::UniverseOutOfRange)
    );
    assert_eq!(
        decode(&frame_for(0x7fff, 2, &[1, 2])),
        Ok(Command::output(0x7fff, vec![1, 2]))
    );
}

#[test]
fn decode_refuses_a_length_beyond_the_payload_limit() {
    let data = ramp(600);
    assert_eq!(decode(&frame_for(3, 514, &data)), Err(DecodeError::LengthOutOfRange));
    assert_eq!(decode(&frame_for(3, 513, &data)), Err(DecodeError::LengthOutOfRange));
    assert_eq!(decode(&frame_for(3, 0xffff, &data)), Err(DecodeError::LengthOutOfRange));
    assert_eq!(
        decode(&frame_for(3, 512, &data)),
        Ok(Command::output(3, data[..512].to_vec()))
    );
}

#[test]
fn decode_reports_the_first_fault_in_field_order() {
    // wrong identifier and wrong opcode
    let mut frame = frame_for(3, 2, &[1, 2]);
    frame[0] = b'a';
    frame[9] = 0x20;
    assert_eq!(decode(&frame), Err(DecodeError::BadMagic));
    // wrong opcode and wrong version
    let mut frame = frame_for(3, 2, &[1, 2]);
    frame[9] = 0x20;
    frame[11] = 3;
    assert_eq!(decode(&frame), Err(DecodeError::UnknownOpcode(0x2000)));
    // wrong version and port address out of range
    let mut frame = frame_for(0x9000, 2, &[1, 2]);
    frame[11] = 3;
    assert_eq!(decode(&frame), Err(DecodeError::BadVersion));
    // port address out of range and length out of range
    assert_eq!(
        decode(&frame_for(0x9000, 600, &[1, 2])),
        Err(DecodeError::UniverseOutOfRange)
    );
    // length out of range and data missing
    assert_eq!(decode(&frame_for(3, 600, &[1, 2])), Err(DecodeError::LengthOutOfRange));
}

#[test]
fn decode_ignores_what_follows_the_announced_data() {
    assert_eq!(
        decode(&frame_for(3, 2, &[1, 2, 3, 4, 5])),
        Ok(Command::output(3, vec![1, 2]))
    );
}

#[test]
fn decode_accepts_an_empty_and_an_odd_payload() {
    assert_eq!(decode(&frame_for(3, 0, &[])), Ok(Command::output(3, vec![])));
    assert_eq!(decode(&frame_for(3, 3, &[1, 2, 3])), Ok(Command::output(3, vec![1, 2, 3])));
}

#[test]
fn decode_drops_sequence_and_physical_port() {
    let mut frame = frame_for(3, 2, &[1, 2]);
    frame[12] = 200;
    frame[13] = 3;
    assert_eq!(decode(&frame), Ok(Command::output(3, vec![1, 2])));
}

#[test]
fn decode_reads_what_the_protocol_crate_wrote() {
    let theirs = ArtCommand::Output(Output {
        port_address: PortAddress::try_from(513u16).unwrap(),
        data: vec![10, 20, 30, 40].into(),
        sequence: 5,
        ..Output::default()
    })
    .write_to_buffer()
    .unwrap();
    assert_eq!(decode(&theirs), Ok(Command::output(513, vec![10, 20, 30, 40])));
}

#[test]
fn decode_never_panics_on_noise() {
    let mut state: u32 = 0x2545_f491;
    for round in 0..2000usize {
        let length = round % 64;
        let mut noise = Vec::with_capacity(length);
        for _ in 0..length {
            state ^= state << 13;
            state ^= state >> 17;
            state ^= state << 5;
            noise.push(state as u8);
        }
        assert!(decode(&noise).is_err());
    }
}

#[test]
fn command_accessors_and_clone() {
    let command = Command::output(12, vec![1, 2, 3]);
    assert_eq!(command.universe(), 12);
    assert_eq!(command.channel_data(), &vec![1, 2, 3]);
    assert!(command.fits());
    assert!(!Command::output(12, vec![0; 513]).fits());
    assert_eq!(command.clone(), command);
    assert_eq!(command, Command::Output { universe: 12, channel_data: vec![1, 2, 3] });
}
