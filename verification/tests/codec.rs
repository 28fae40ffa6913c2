use mycobot_rs::Command;
use mycobot_rs::Packet;

#[test]
fn test_to_bytes() {
    let packet = Packet::new(Command::GetAngles, vec![]);
    // Header(2) + Len(2: Cmd+Footer) + Cmd(0x20) + Footer(0xFA)
    let bytes = packet.to_bytes();
    assert_eq!(bytes, vec![0xFE, 0xFE, 0x02, 0x20, 0xFA]);
}

#[test]
fn test_parse() {
    let data = vec![0xFE, 0xFE, 0x02, 0x20, 0xFA];
    let (packet, consumed) = Packet::parse(&data).unwrap().unwrap();
    assert_eq!(consumed, 5);
    assert_eq!(packet.command, Command::GetAngles);
    assert_eq!(packet.payload.len(), 0);
}

#[test]
fn decode_of_encode_round_trips() {
    let payload: Vec<u8> = (0..=252).map(|i| (i % 256) as u8).collect();
    assert_eq!(payload.len(), 253);
    let packet = Packet::new(Command::WriteAngles, payload);
    let bytes = packet.to_bytes();
    assert_eq!(bytes.len(), 258);
    let (decoded, consumed) = Packet::parse(&bytes).unwrap().unwrap();
    assert_eq!(consumed, bytes.len());
    assert_eq!(decoded, packet);
}

#[test]
fn unknown_opcode_round_trips() {
    let packet = Packet::new(Command::Unknown(0x77), vec![1, 2, 3]);
    let bytes = packet.to_bytes();
    assert_eq!(bytes, vec![0xFE, 0xFE, 0x05, 0x77, 1, 2, 3, 0xFA]);
    let (decoded, consumed) = Packet::parse(&bytes).unwrap().unwrap();
    assert_eq!(consumed, 8);
    assert_eq!(decoded.command, Command::Unknown(0x77));
    assert_eq!(decoded.payload, vec![1, 2, 3]);
}

#[test]
fn strict_prefixes_are_incomplete() {
    let packet = Packet::new(Command::SetSpeed, vec![0x40, 0x41]);
    let bytes = packet.to_bytes();
    for i in 0..bytes.len() {
        let r = Packet::parse(&bytes[..i]);
        assert!(matches!(r, Ok(None)), "prefix of {} bytes was not Incomplete", i);
    }
}

#[test]
fn bad_header_is_invalid() {
    let r = Packet::parse(&[0x00, 0x00, 0x02, 0x20, 0xFA]);
    assert_eq!(r.unwrap_err(), "Invalid header".to_string());
}

#[test]
fn bad_footer_is_invalid() {
    // Header, length, command and payload in place, wrong final byte.
    let r = Packet::parse(&[0xFE, 0xFE, 0x03, 0x20, 0x55, 0x00]);
    assert_eq!(r.unwrap_err(), "Invalid footer".to_string());
}

#[test]
fn too_small_length_field_is_invalid() {
    // A length field of 1 would leave no room for command and footer; the
    // byte where the frame must end happens to hold the footer value.
    let r = Packet::parse(&[0xFE, 0xFE, 0x01, 0xFA]);
    assert_eq!(r.unwrap_err(), "Invalid length field".to_string());
    // A length field of 0 fails at the footer position already.
    let r = Packet::parse(&[0xFE, 0xFE, 0x00, 0x20]);
    assert_eq!(r.unwrap_err(), "Invalid footer".to_string());
}

#[test]
fn concatenated_frames_decode_one_by_one() {
    let frame_a = Packet::new(Command::GetAngles, vec![]).to_bytes();
    let frame_b = Packet::new(Command::SetSpeed, vec![0x32]).to_bytes();
    let garbage = vec![0x13, 0x37];
    let mut buf = Vec::new();
    buf.extend_from_slice(&frame_a);
    buf.extend_from_slice(&frame_b);
    buf.extend_from_slice(&garbage);

    let (packet_a, consumed_a) = Packet::parse(&buf).unwrap().unwrap();
    assert_eq!(consumed_a, frame_a.len());
    assert_eq!(packet_a.command, Command::GetAngles);
    assert_eq!(packet_a.payload, Vec::<u8>::new());

    let rest = &buf[consumed_a..];
    let (packet_b, consumed_b) = Packet::parse(rest).unwrap().unwrap();
    assert_eq!(consumed_b, frame_b.len());
    assert_eq!(packet_b.command, Command::SetSpeed);
    assert_eq!(packet_b.payload, vec![0x32]);
}

#[test]
fn resync_recovers_frame_after_dropping_noise() {
    let frame = Packet::new(Command::IsPoweredOn, vec![0x01]).to_bytes();
    let mut buf = vec![0x01, 0x02];
    buf.extend_from_slice(&frame);

    // Dropping exactly one leading byte per Invalid outcome reaches the frame.
    let mut drops = 0;
    loop {
        match Packet::parse(&buf) {
            Err(_) => {
                buf.remove(0);
                drops += 1;
            }
            Ok(Some((packet, consumed))) => {
                assert_eq!(drops, 2);
                assert_eq!(consumed, frame.len());
                assert_eq!(packet.command, Command::IsPoweredOn);
                assert_eq!(packet.payload, vec![0x01]);
                break;
            }
            Ok(None) => panic!("unexpected Incomplete during resync"),
        }
    }
}

#[test]
fn twelve_byte_response_decodes() {
    // A full response for GetAngles: twelve zero payload bytes.
    let mut buf = vec![0xFE, 0xFE, 0x0E, 0x20];
    for _ in 0..12 {
        buf.push(0);
    }
    buf.push(0xFA);
    let (packet, consumed) = Packet::parse(&buf).unwrap().unwrap();
    assert_eq!(consumed, 17);
    assert_eq!(consumed, buf.len());
    assert_eq!(packet.command, Command::GetAngles);
    assert_eq!(packet.payload, vec![0u8; 12]);
}

#[test]
fn unknown_alias_of_known_opcode_decodes_as_the_known_command() {
    // Unknown(0x10) encodes to the same frame as PowerOn, so decoding hands
    // back the known command: the command value itself does not round-trip,
    // though the opcode byte does.
    let bytes = Packet::new(Command::Unknown(0x10), vec![]).to_bytes();
    assert_eq!(bytes, vec![0xFE, 0xFE, 0x02, 0x10, 0xFA]);
    let (decoded, _) = Packet::parse(&bytes).unwrap().unwrap();
    assert_eq!(decoded.command, Command::PowerOn);
}
