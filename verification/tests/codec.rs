use flashboy::codec::{Opcode, decode_response, encode_command, encode_payload};

#[test]
fn opcode_values() {
    assert_eq!(Opcode::Erase.value(), 0xA1);
    assert_eq!(Opcode::StartProg.value(), 0xB0);
    assert_eq!(Opcode::Write1024.value(), 0xB4);
}

#[test]
fn command_packet_layout() {
    for op in [Opcode::Erase, Opcode::StartProg, Opcode::Write1024] {
        let pkt = encode_command(op);
        assert_eq!(pkt.len(), 65);
        assert_eq!(pkt[0], 0);
        assert_eq!(pkt[1], op.value());
        for i in 2..65 {
            assert_eq!(pkt[i], 0);
        }
    }
}

#[test]
fn payload_packet_layout() {
    let mut data = Vec::new();
    for i in 0..64u8 {
        data.push(i.wrapping_mul(3).wrapping_add(7));
    }
    let pkt = encode_payload(&data);
    assert_eq!(pkt.len(), 65);
    assert_eq!(pkt[0], 0);
    for i in 0..64 {
        assert_eq!(pkt[i + 1], data[i]);
    }
}

#[test]
fn response_echo_decodes_ok() {
    for op in [Opcode::Erase, Opcode::StartProg, Opcode::Write1024] {
        let mut resp = vec![0u8; 65];
        resp[0] = op.value();
        assert!(decode_response(&resp, op).is_ok());
    }
}

#[test]
fn response_mismatch_carries_actual_byte() {
    for op in [Opcode::Erase, Opcode::StartProg, Opcode::Write1024] {
        for b in [0x00u8, 0x42, 0xA1, 0xB0, 0xB4, 0xFF] {
            if b == op.value() {
                continue;
            }
            let mut resp = vec![0u8; 65];
            resp[0] = b;
            assert_eq!(decode_response(&resp, op), Err(b));
        }
    }
}

#[test]
fn encoded_command_does_not_echo_itself() {
    // Byte 0 of a command packet is the report id, not the opcode: a command
    // buffer read back as if it were a response does not acknowledge itself.
    let pkt = encode_command(Opcode::Erase);
    assert_eq!(decode_response(&pkt, Opcode::Erase), Err(0));
}
