//! Framing and decoding of the fixed-size reports exchanged with the device.
//!
//! Every transfer is a 65-byte report: one report-id byte (always zero)
//! followed by 64 payload bytes. Control packets carry an opcode in byte 1;
//! payload packets carry 64 raw data bytes in bytes 1..65. The device answers
//! a command by echoing the accepted opcode in byte 0 of its response.

use vstd::prelude::*;

verus! {

/// Size of every report written to or read from the device:
/// one report-id byte followed by 64 payload bytes.
pub const REPORT_LEN: usize = 65;

/// Number of data bytes carried by one payload packet.
pub const PAYLOAD_LEN: usize = 64;

/// Command opcodes understood by the device.
#[derive(Clone, Copy, Debug)]
pub enum Opcode {
    Erase,
    StartProg,
    Write1024,
}

impl Opcode {
    /// The byte value that carries this opcode on the wire.
    pub open spec fn spec_value(self) -> u8 {
        match self {
            Opcode::Erase => 0xA1,
            Opcode::StartProg => 0xB0,
            Opcode::Write1024 => 0xB4,
        }
    }

    /// The byte value that carries this opcode on the wire.
    #[verifier::when_used_as_spec(spec_value)]
    pub fn value(self) -> (r: u8)
        ensures
            r == self.spec_value(),
    {
        match self {
            Opcode::Erase => 0xA1,
            Opcode::StartProg => 0xB0,
            Opcode::Write1024 => 0xB4,
        }
    }
}

/// The 65-byte control packet for `op`: report id 0, opcode in byte 1,
/// zero everywhere else.
pub open spec fn command_packet(op: Opcode) -> Seq<u8> {
    Seq::new(65, |i: int| if i == 1 { op.spec_value() } else { 0u8 })
}

/// The 65-byte payload packet carrying `data`: report id 0, then the
/// 64 data bytes in bytes 1..65.
pub open spec fn payload_packet(data: Seq<u8>) -> Seq<u8>
    recommends
        data.len() == 64,
{
    Seq::new(65, |i: int| if i == 0 { 0u8 } else { data[i - 1] })
}

/// Whether a response buffer acknowledges `expected`: the device echoes the
/// opcode of the command it accepted in byte 0 of its response.
pub open spec fn response_matches(resp: Seq<u8>, expected: Opcode) -> bool {
    resp[0] == expected.spec_value()
}

/// Builds the control packet for `op`.
pub fn encode_command(op: Opcode) -> (r: Vec<u8>)
    ensures
        r@ == command_packet(op),
{
    let mut r: Vec<u8> = Vec::new();
    r.push(0u8);
    r.push(op.value());
    while r.len() < 65
        invariant
            2 <= r@.len() <= 65,
            forall|i: int| 0 <= i < r@.len() ==> r@[i] == command_packet(op)[i],
        decreases 65 - r@.len(),
    {
        r.push(0u8);
    }
    proof {
        assert(r@ =~= command_packet(op));
    }
    r
}

/// Builds the payload packet carrying the 64 bytes of `data`.
pub fn encode_payload(data: &[u8]) -> (r: Vec<u8>)
    requires
        data@.len() == 64,
    ensures
        r@ == payload_packet(data@),
{
    let mut r: Vec<u8> = Vec::new();
    r.push(0u8);
    let mut k: usize = 0;
    while k < 64
        invariant
            data@.len() == 64,
            k <= 64,
            r@.len() == k + 1,
            forall|i: int| 0 <= i < r@.len() ==> r@[i] == payload_packet(data@)[i],
        decreases 64 - k,
    {
        r.push(data[k]);
        k += 1;
    }
    proof {
        assert(r@ =~= payload_packet(data@));
    }
    r
}

/// Decodes a response packet against the opcode whose echo is expected.
/// Succeeds exactly when byte 0 of the response equals the expected opcode
/// value; a mismatch yields `Err(b)` carrying the actual echo byte `b`.
pub fn decode_response(resp: &[u8], expected: Opcode) -> (r: Result<(), u8>)
    requires
        resp@.len() >= 1,
    ensures
        r.is_ok() <==> response_matches(resp@, expected),
        r matches Err(code) ==> code == resp@[0] && code != expected.spec_value(),
{
    let b = resp[0];
    if b == expected.value() {
        Ok(())
    } else {
        Err(b)
    }
}

/// The 17 reports that transmit one 1024-byte chunk: one `Write1024` control
/// packet, then sixteen payload packets of 64 bytes each.
pub open spec fn chunk_reports(b: Seq<u8>) -> Seq<Seq<u8>>
    recommends
        b.len() == 1024,
{
    seq![command_packet(Opcode::Write1024)]
        + Seq::new(16, |k: int| payload_packet(b.subrange(64 * k, 64 * k + 64)))
}

/// Round trip over the wire. The host transport strips the report-id byte
/// before the command reaches the device, so the opcode written in byte 1 of
/// an encoded command is the first byte the device sees; on success the device
/// echoes that opcode in byte 0 of its response. Any response that echoes the
/// opcode carried by an encoded command therefore decodes successfully
/// against that same opcode.
pub proof fn lemma_command_echo_round_trip(op: Opcode, resp: Seq<u8>)
    requires
        resp.len() >= 1,
        resp[0] == command_packet(op)[1],
    ensures
        response_matches(resp, op),
{
}

/// A response whose echo byte differs from the expected opcode value never
/// decodes as a success, whatever the rest of the buffer holds.
pub proof fn lemma_mismatch_detected(resp: Seq<u8>, expected: Opcode)
    requires
        resp.len() >= 1,
        resp[0] != expected.spec_value(),
    ensures
        !response_matches(resp, expected),
{
}

} // verus!
