//! The frame codec: pure, stateless encode and decode of a single packet
//! against the fixed byte-stream grammar
//!
//! | header | length          | command | payload            | footer |
//! |--------|-----------------|---------|--------------------|--------|
//! | FE FE  | payload len + 2 | opcode  | `length - 2` bytes | FA     |
//!
//! Decoding inspects only a prefix of the buffer and reports either a
//! complete frame (with the number of bytes it occupies), that more bytes
//! are needed, or that the prefix cannot start a frame.

use vstd::prelude::*;

use crate::commands::Command;
use crate::commands::command_of;
use crate::commands::is_canonical;
use crate::commands::opcode_of;

verus! {

/// Why a buffer prefix cannot start a frame.
pub enum InvalidReason {
    /// The first two bytes are not `FE FE`.
    BadHeader,
    /// The byte where the frame must end is not `FA`.
    BadFooter,
    /// The length field is below 2, too small to cover command and footer.
    LengthTooSmall,
}

/// What decoding a buffer prefix yields.
pub enum DecodeResult {
    /// A full frame: its command opcode, its payload, and how many bytes of
    /// the buffer it occupies.
    Complete { command: u8, payload: Seq<u8>, consumed: int },
    /// The buffer holds a proper prefix of a frame: more bytes are needed.
    Incomplete,
    /// The buffer cannot start a frame; the caller should drop one leading
    /// byte and retry.
    Invalid { reason: InvalidReason },
}

/// The wire frame for a command opcode and a payload.
pub open spec fn frame_bytes(command: u8, payload: Seq<u8>) -> Seq<u8> {
    seq![0xFEu8, 0xFEu8, (payload.len() + 2) as u8, command] + payload + seq![0xFAu8]
}

/// Decoding as a pure function over the buffer prefix.
pub open spec fn decode(buf: Seq<u8>) -> DecodeResult {
    if buf.len() < 2 {
        DecodeResult::Incomplete
    } else if !(buf[0] == 0xFE && buf[1] == 0xFE) {
        DecodeResult::Invalid { reason: InvalidReason::BadHeader }
    } else if buf.len() < 3 {
        DecodeResult::Incomplete
    } else {
        let len_field = buf[2] as int;
        let total = 3 + len_field;
        if buf.len() < total {
            DecodeResult::Incomplete
        } else if buf[total - 1] != 0xFA {
            DecodeResult::Invalid { reason: InvalidReason::BadFooter }
        } else if len_field < 2 {
            DecodeResult::Invalid { reason: InvalidReason::LengthTooSmall }
        } else {
            DecodeResult::Complete {
                command: buf[3],
                payload: buf.subrange(4, 2 + len_field),
                consumed: total,
            }
        }
    }
}

/// The message that `Packet::parse` returns for each reason.
pub open spec fn invalid_message(reason: InvalidReason) -> Seq<char> {
    match reason {
        InvalidReason::BadHeader => "Invalid header"@,
        InvalidReason::BadFooter => "Invalid footer"@,
        InvalidReason::LengthTooSmall => "Invalid length field"@,
    }
}

/// The unit of exchange: a command and its payload bytes.
///
/// The payload length is capped at 253 so that the on-wire length field,
/// `payload.len() + 2`, fits in one byte.
#[derive(Debug, Clone)]
pub struct Packet {
    pub command: Command,
    pub payload: Vec<u8>,
}

impl PartialEq for Packet {
    fn eq(&self, other: &Packet) -> (r: bool) {
        let commands_equal = self.command == other.command;
        let payloads_equal = self.payload == other.payload;
        proof {
            if self.payload@ == other.payload@ {
                assert(vstd::std_specs::cmp::PartialEqSpec::eq_spec(&self.payload, &other.payload));
            }
            if vstd::std_specs::cmp::PartialEqSpec::eq_spec(&self.payload, &other.payload) {
                assert(self.payload@ =~= other.payload@);
            }
        }
        commands_equal && payloads_equal
    }
}

impl vstd::std_specs::cmp::PartialEqSpecImpl for Packet {
    open spec fn obeys_eq_spec() -> bool {
        true
    }

    open spec fn eq_spec(&self, other: &Packet) -> bool {
        self.command == other.command && self.payload@ == other.payload@
    }
}

impl Packet {
    /// A packet with the given command and payload.
    pub fn new(command: Command, payload: Vec<u8>) -> (r: Packet)
        ensures
            r.command == command,
            r.payload == payload,
    {
        Packet { command, payload }
    }

    /// Encode this packet as a wire frame.
    ///
    /// Always succeeds for payloads of at most 253 bytes; longer payloads
    /// are a caller contract violation and are excluded here.
    pub fn to_bytes(&self) -> (r: Vec<u8>)
        requires
            self.payload@.len() <= 253,
        ensures
            r@ == frame_bytes(opcode_of(self.command), self.payload@),
            r@.len() == self.payload@.len() + 5,
    {
        let mut bytes: Vec<u8> = Vec::new();
        bytes.push(0xFE);
        bytes.push(0xFE);
        let len: u8 = (self.payload.len() + 2) as u8;
        bytes.push(len);
        bytes.push(self.command.opcode());
        let mut i: usize = 0;
        while i < self.payload.len()
            invariant
                i <= self.payload@.len() <= 253,
                bytes@.len() == 4 + i,
                bytes@ == seq![
                    0xFEu8,
                    0xFEu8,
                    (self.payload@.len() + 2) as u8,
                    opcode_of(self.command),
                ] + self.payload@.subrange(0, i as int),
            decreases self.payload@.len() - i,
        {
            bytes.push(self.payload[i]);
            assert(self.payload@.subrange(0, i + 1) == self.payload@.subrange(0, i as int).push(
                self.payload@[i as int],
            ));
            i += 1;
        }
        bytes.push(0xFA);
        proof {
            assert(self.payload@.subrange(0, self.payload@.len() as int) == self.payload@);
            assert(bytes@ =~= frame_bytes(opcode_of(self.command), self.payload@));
        }
        bytes
    }

    /// Try to decode one packet from the front of `buffer`.
    ///
    /// Returns `Ok(Some((packet, bytes_consumed)))` for a full frame,
    /// `Ok(None)` when more bytes are needed, and `Err(reason)` when the
    /// buffer cannot start a frame and the caller should drop one leading
    /// byte to resynchronize.
    pub fn parse(buffer: &[u8]) -> (r: Result<Option<(Packet, usize)>, String>)
        ensures
            match decode(buffer@) {
                DecodeResult::Complete { command, payload, consumed } => {
                    &&& r matches Ok(Some((p, n)))
                    &&& p.command == command_of(command)
                    &&& p.payload@ == payload
                    &&& n == consumed
                },
                DecodeResult::Incomplete => r matches Ok(None),
                DecodeResult::Invalid { reason } => {
                    &&& r matches Err(m)
                    &&& m@ == invalid_message(reason)
                },
            },
    {
        if buffer.len() < 2 {
            return Ok(None);
        }
        if buffer[0] != 0xFE || buffer[1] != 0xFE {
            return Err(String::from_str("Invalid header"));
        }
        if buffer.len() < 3 {
            return Ok(None);
        }
        let len_field: usize = buffer[2] as usize;
        let total_frame_len: usize = 3 + len_field;
        if buffer.len() < total_frame_len {
            return Ok(None);
        }
        if buffer[total_frame_len - 1] != 0xFA {
            return Err(String::from_str("Invalid footer"));
        }
        if len_field < 2 {
            return Err(String::from_str("Invalid length field"));
        }
        let command_byte = buffer[3];
        let mut payload: Vec<u8> = Vec::new();
        let mut i: usize = 4;
        while i < 2 + len_field
            invariant
                4 <= i <= 2 + len_field,
                2 <= len_field <= 255,
                2 + len_field <= buffer@.len(),
                payload@ == buffer@.subrange(4, i as int),
            decreases 2 + len_field - i,
        {
            payload.push(buffer[i]);
            assert(buffer@.subrange(4, i + 1) == buffer@.subrange(4, i as int).push(
                buffer@[i as int],
            ));
            i += 1;
        }
        Ok(Some((Packet { command: Command::from_byte(command_byte), payload }, total_frame_len)))
    }
}

/// Law: a frame decodes to the packet it encodes, consuming the whole frame,
/// whatever bytes follow it.
pub proof fn lemma_decode_frame(command: u8, payload: Seq<u8>, rest: Seq<u8>)
    requires
        payload.len() <= 253,
    ensures
        decode(frame_bytes(command, payload) + rest) == (DecodeResult::Complete {
            command,
            payload,
            consumed: payload.len() + 5int,
        }),
{
    let frame = frame_bytes(command, payload);
    let buf = frame + rest;
    assert(frame.len() == payload.len() + 5);
    assert(buf[0] == 0xFE && buf[1] == 0xFE);
    assert(buf[2] == (payload.len() + 2) as u8);
    let len_field = buf[2] as int;
    assert(len_field == payload.len() + 2);
    let total = 3 + len_field;
    assert(buf.len() >= total);
    assert(buf[total - 1] == frame[total - 1]);
    assert(frame[total - 1] == 0xFA);
    assert(buf[3] == command);
    assert(buf.subrange(4, 2 + len_field) =~= payload);
}

/// Round trip: decoding an encoded frame yields exactly the packet that was
/// encoded, and consumes exactly the frame's length.
pub proof fn lemma_round_trip(command: u8, payload: Seq<u8>)
    requires
        payload.len() <= 253,
    ensures
        decode(frame_bytes(command, payload)) == (DecodeResult::Complete {
            command,
            payload,
            consumed: payload.len() + 5int,
        }),
{
    assert(frame_bytes(command, payload) + Seq::<u8>::empty() =~= frame_bytes(command, payload));
    lemma_decode_frame(command, payload, Seq::<u8>::empty());
}

/// Round trip at the packet level: for every canonical command and every
/// payload of at most 253 bytes, decoding the encoded frame yields the same
/// command and payload and consumes the whole frame.
///
/// A command is canonical unless it is `Unknown(b)` for a byte `b` inside
/// the known set; such a value encodes to `b` but decodes to the known
/// command that `b` stands for.
pub proof fn lemma_packet_round_trip(c: Command, payload: Seq<u8>)
    requires
        payload.len() <= 253,
        is_canonical(c),
    ensures
        decode(frame_bytes(opcode_of(c), payload)) matches DecodeResult::Complete {
            command,
            payload: decoded,
            consumed,
        } && command_of(command) == c && decoded == payload && consumed == payload.len() + 5,
{
    lemma_round_trip(opcode_of(c), payload);
}

/// Round trip with trailing bytes, at the packet level: whatever bytes
/// follow the frame, decoding yields the encoded packet's command and
/// payload and consumes exactly the frame. Canonicity is needed as in
/// `lemma_packet_round_trip`.
pub proof fn lemma_packet_decode_with_tail(c: Command, payload: Seq<u8>, rest: Seq<u8>)
    requires
        payload.len() <= 253,
        is_canonical(c),
    ensures
        decode(frame_bytes(opcode_of(c), payload) + rest) matches DecodeResult::Complete {
            command,
            payload: decoded,
            consumed,
        } && command_of(command) == c && decoded == payload && consumed == payload.len() + 5,
{
    lemma_decode_frame(opcode_of(c), payload, rest);
}

/// Frame concatenation at the packet level: in a buffer holding two frames
/// and trailing garbage, decoding yields the first packet and consumes
/// exactly its frame, and decoding the remaining suffix independently
/// yields the second packet.
pub proof fn lemma_packet_frame_concatenation(
    cmd_a: Command,
    pay_a: Seq<u8>,
    cmd_b: Command,
    pay_b: Seq<u8>,
    garbage: Seq<u8>,
)
    requires
        pay_a.len() <= 253,
        pay_b.len() <= 253,
        is_canonical(cmd_a),
        is_canonical(cmd_b),
    ensures
        ({
            let buf = frame_bytes(opcode_of(cmd_a), pay_a) + frame_bytes(opcode_of(cmd_b), pay_b)
                + garbage;
            let frame_a_len = pay_a.len() + 5;
            &&& decode(buf) matches DecodeResult::Complete { command, payload, consumed }
                && command_of(command) == cmd_a && payload == pay_a && consumed == frame_a_len
            &&& decode(buf.skip(frame_a_len as int)) matches DecodeResult::Complete {
                command,
                payload,
                consumed,
            } && command_of(command) == cmd_b && payload == pay_b && consumed == pay_b.len() + 5
        }),
{
    lemma_frame_concatenation(opcode_of(cmd_a), pay_a, opcode_of(cmd_b), pay_b, garbage);
}

/// Incomplete monotonicity: every strict prefix of a valid frame decodes to
/// `Incomplete`, never to `Invalid` or `Complete`.
pub proof fn lemma_prefix_incomplete(command: u8, payload: Seq<u8>, i: int)
    requires
        payload.len() <= 253,
        0 <= i < frame_bytes(command, payload).len(),
    ensures
        decode(frame_bytes(command, payload).take(i)) == DecodeResult::Incomplete,
{
    let frame = frame_bytes(command, payload);
    let t = frame.take(i);
    assert(frame.len() == payload.len() + 5);
    if i >= 2 {
        assert(t[0] == frame[0] && t[1] == frame[1]);
        assert(frame[0] == 0xFE && frame[1] == 0xFE);
    }
    if i >= 3 {
        assert(t[2] == frame[2]);
        assert(frame[2] == (payload.len() + 2) as u8);
        assert(t[2] as int == payload.len() + 2);
        assert(t.len() < 3 + (t[2] as int));
    }
}

/// An invalid decode is stable under appending bytes: a prefix that cannot
/// start a frame stays so, for the same reason, however the buffer grows.
pub proof fn lemma_decode_invalid_extend(buf: Seq<u8>, ext: Seq<u8>)
    requires
        decode(buf) matches DecodeResult::Invalid { .. },
    ensures
        decode(buf + ext) == decode(buf),
{
    let long = buf + ext;
    assert(long[0] == buf[0] && long[1] == buf[1]);
    if buf[0] == 0xFE && buf[1] == 0xFE {
        assert(long[2] == buf[2]);
        let len_field = buf[2] as int;
        let total = 3 + len_field;
        assert(buf.len() >= total);
        assert(long[total - 1] == buf[total - 1]);
    }
}

/// A complete decode is stable under appending bytes: once a buffer prefix
/// holds a full frame, later arrivals do not change what is decoded.
pub proof fn lemma_decode_complete_extend(buf: Seq<u8>, ext: Seq<u8>)
    requires
        decode(buf) matches DecodeResult::Complete { .. },
    ensures
        decode(buf + ext) == decode(buf),
{
    let long = buf + ext;
    assert(long[0] == buf[0] && long[1] == buf[1] && long[2] == buf[2]);
    let len_field = buf[2] as int;
    let total = 3 + len_field;
    assert(buf.len() >= total);
    assert(long[total - 1] == buf[total - 1]);
    assert(long[3] == buf[3]);
    assert(long.subrange(4, 2 + len_field) =~= buf.subrange(4, 2 + len_field));
}

/// Frame concatenation: in a buffer holding two frames and trailing garbage,
/// decoding yields the first frame and consumes exactly its length, and
/// decoding the remaining suffix independently yields the second frame.
pub proof fn lemma_frame_concatenation(
    cmd_a: u8,
    pay_a: Seq<u8>,
    cmd_b: u8,
    pay_b: Seq<u8>,
    garbage: Seq<u8>,
)
    requires
        pay_a.len() <= 253,
        pay_b.len() <= 253,
    ensures
        ({
            let buf = frame_bytes(cmd_a, pay_a) + frame_bytes(cmd_b, pay_b) + garbage;
            let frame_a_len = pay_a.len() + 5;
            &&& decode(buf) == (DecodeResult::Complete {
                command: cmd_a,
                payload: pay_a,
                consumed: frame_a_len as int,
            })
            &&& decode(buf.skip(frame_a_len as int)) == (DecodeResult::Complete {
                command: cmd_b,
                payload: pay_b,
                consumed: pay_b.len() + 5int,
            })
        }),
{
    let frame_a = frame_bytes(cmd_a, pay_a);
    let frame_b = frame_bytes(cmd_b, pay_b);
    let buf = frame_a + frame_b + garbage;
    assert(buf =~= frame_a + (frame_b + garbage));
    lemma_decode_frame(cmd_a, pay_a, frame_b + garbage);
    assert(buf.skip(frame_a.len() as int) =~= frame_b + garbage);
    lemma_decode_frame(cmd_b, pay_b, garbage);
}

} // verus!
