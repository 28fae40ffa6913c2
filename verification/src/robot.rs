//! The exchange engine: send one request over an owned transport and block
//! until its matching response, a timeout, or an I/O failure.
//!
//! The engine drives the frame codec against an accumulating read buffer.
//! An undecodable buffer prefix costs exactly one leading byte (resync); a
//! complete frame for a different command is removed whole and skipped;
//! noise and mismatched traffic are invisible to the caller.

use vstd::prelude::*;

use crate::commands::Command;
use crate::commands::lemma_opcode_round_trip;
use crate::commands::opcode_of;
use crate::io::ReadOutcome;
use crate::io::SerialPort;
use crate::protocol::DecodeResult;
use crate::protocol::Packet;
use crate::protocol::decode;
use crate::protocol::frame_bytes;
use crate::commands::command_of;
use crate::protocol::lemma_decode_complete_extend;
use crate::protocol::lemma_decode_invalid_extend;

verus! {

/// What a call of the exchange engine can fail with.
#[derive(Debug)]
pub enum Error {
    /// The transport failed to read, write or flush; fatal, never retried.
    Io,
    /// A decoded, matched response had an unexpected payload shape.
    Protocol(String),
    /// No matching response arrived before the deadline.
    Timeout,
    /// A caller-supplied parameter was rejected before any transfer.
    InvalidParameter(String),
}

/// The incoming stream holds, from position `i` on, a complete frame whose
/// command byte is `opcode` and whose payload is `resp`.
pub open spec fn response_at(stream: Seq<u8>, i: int, opcode: u8, resp: Seq<u8>) -> bool {
    decode(stream.skip(i)) matches DecodeResult::Complete { command, payload, .. }
        && command == opcode && payload == resp
}

/// Somewhere on the incoming stream stands a complete frame carrying
/// `opcode` with payload `resp`.
pub open spec fn stream_holds_response(stream: Seq<u8>, opcode: u8, resp: Seq<u8>) -> bool {
    exists|i: int| 0 <= i <= stream.len() && #[trigger] response_at(stream, i, opcode, resp)
}

/// The outcome of the engine's scan over an accumulated buffer.
pub enum ScanOutcome {
    /// The payload of the first reachable frame for the wanted command.
    Found { payload: Seq<u8> },
    /// No such frame is reachable yet; `rest` is what the scan keeps, a
    /// proper frame prefix awaiting more bytes.
    NeedMore { rest: Seq<u8> },
}

/// What scanning `buf` for a frame of command `want` yields, following the
/// engine's discipline exactly: a complete frame whose command matches ends
/// the scan with its payload; a complete frame for another command is
/// consumed whole and skipped; a prefix that cannot start a frame costs
/// exactly one leading byte; scanning stops at a proper frame prefix.
pub open spec fn scan_outcome(buf: Seq<u8>, want: Command) -> ScanOutcome
    decreases buf.len(),
{
    match decode(buf) {
        DecodeResult::Complete { command, payload, consumed } => {
            if command_of(command) == want {
                ScanOutcome::Found { payload }
            } else {
                proof {
                    assert(5 <= consumed <= buf.len());
                }
                scan_outcome(buf.skip(consumed), want)
            }
        },
        DecodeResult::Incomplete => ScanOutcome::NeedMore { rest: buf },
        DecodeResult::Invalid { .. } => {
            proof {
                assert(buf.len() >= 2);
            }
            scan_outcome(buf.skip(1), want)
        },
    }
}

/// Scanning some prefix of the incoming stream, exactly as the engine
/// does, yields `resp` as the payload of the first frame for `want`.
pub open spec fn stream_scan_finds(stream: Seq<u8>, want: Command, resp: Seq<u8>) -> bool {
    exists|n: int|
        0 <= n <= stream.len() && (#[trigger] scan_outcome(stream.take(n), want))
            == (ScanOutcome::Found { payload: resp })
}

/// Scanning is stable as bytes arrive: a buffer whose scan is still
/// waiting keeps only `rest`, and scanning the buffer extended by new
/// bytes is scanning `rest` extended by the same bytes.
pub proof fn lemma_scan_extend(buf: Seq<u8>, ext: Seq<u8>, want: Command)
    requires
        scan_outcome(buf, want) matches ScanOutcome::NeedMore { .. },
    ensures
        scan_outcome(buf + ext, want) == scan_outcome(
            scan_outcome(buf, want)->NeedMore_rest + ext,
            want,
        ),
    decreases buf.len(),
{
    match decode(buf) {
        DecodeResult::Complete { consumed, .. } => {
            lemma_decode_complete_extend(buf, ext);
            assert((buf + ext).skip(consumed) =~= buf.skip(consumed) + ext);
            lemma_scan_extend(buf.skip(consumed), ext, want);
        },
        DecodeResult::Incomplete => {
            assert(scan_outcome(buf, want)->NeedMore_rest + ext =~= buf + ext);
        },
        DecodeResult::Invalid { .. } => {
            lemma_decode_invalid_extend(buf, ext);
            assert((buf + ext).skip(1) =~= buf.skip(1) + ext);
            lemma_scan_extend(buf.skip(1), ext, want);
        },
    }
}

#[verifier::external_type_specification]
#[verifier::external_body]
pub struct ExInstant(std::time::Instant);

/// Relies on std::time::Instant::now: a reading of a monotonic clock.
/// Nothing is assumed of its value.
#[verifier::external_body]
fn clock_now() -> std::time::Instant {
    std::time::Instant::now()
}

/// Relies on std::time::Instant::elapsed: the time since `start`.
/// Nothing is assumed of its value.
#[verifier::external_body]
fn clock_elapsed(start: &std::time::Instant) -> std::time::Duration {
    start.elapsed()
}

/// Relies on std::time::Duration::as_millis: this duration in whole
/// milliseconds. Nothing is assumed of its value.
#[verifier::external_body]
fn duration_as_millis(d: &std::time::Duration) -> u128 {
    d.as_millis()
}

/// Scan the accumulated buffer for one frame matching `command`.
///
/// Frames for other commands are removed whole and skipped; a prefix that
/// cannot start a frame costs exactly one leading byte. Returns the matching
/// payload, or `None` once the rest of the buffer is a proper frame prefix,
/// together with the position in the original buffer that was reached.
fn scan_buffer(buffer: &mut Vec<u8>, command: Command) -> (r: (Option<Vec<u8>>, Ghost<int>))
    ensures
        match r.0 {
            Some(resp) => {
                &&& 0 <= r.1@ <= old(buffer)@.len()
                &&& response_at(old(buffer)@, r.1@, opcode_of(command), resp@)
                &&& scan_outcome(old(buffer)@, command) == (ScanOutcome::Found {
                    payload: resp@,
                })
            },
            None => {
                &&& 0 <= r.1@ <= old(buffer)@.len()
                &&& final(buffer)@ == old(buffer)@.skip(r.1@)
                &&& decode(final(buffer)@) is Incomplete
                &&& scan_outcome(old(buffer)@, command) == (ScanOutcome::NeedMore {
                    rest: final(buffer)@,
                })
            },
        },
{
    let ghost orig = buffer@;
    let ghost mut j: int = 0;
    loop
        invariant
            orig == old(buffer)@,
            0 <= j <= orig.len(),
            buffer@ == orig.skip(j),
            scan_outcome(orig, command) == scan_outcome(buffer@, command),
        decreases buffer@.len(),
    {
        match Packet::parse(buffer.as_slice()) {
            Ok(Some((packet, consumed))) => {
                proof {
                    assert(decode(buffer@) matches DecodeResult::Complete { consumed: c, .. }
                        && c == consumed && 5 <= c <= buffer@.len());
                }
                if packet.command == command {
                    proof {
                        let cb = decode(buffer@)->Complete_command;
                        lemma_opcode_round_trip(cb);
                        assert(response_at(orig, j, opcode_of(command), packet.payload@));
                        assert(scan_outcome(buffer@, command) == (ScanOutcome::Found {
                            payload: packet.payload@,
                        }));
                    }
                    return (Some(packet.payload), Ghost(j));
                }
                let ghost prev = buffer@;
                let tail = buffer.split_off(consumed);
                *buffer = tail;
                proof {
                    j = j + consumed as int;
                    assert(buffer@ =~= orig.skip(j));
                    assert(buffer@ =~= prev.skip(consumed as int));
                    assert(scan_outcome(prev, command) == scan_outcome(buffer@, command));
                }
            },
            Ok(None) => {
                proof {
                    assert(scan_outcome(buffer@, command) == (ScanOutcome::NeedMore {
                        rest: buffer@,
                    }));
                }
                return (None, Ghost(j));
            },
            Err(_) => {
                let ghost prev = buffer@;
                proof {
                    assert(buffer@.len() >= 2);
                }
                let _ = buffer.remove(0);
                proof {
                    j = j + 1;
                    assert(buffer@ =~= orig.skip(j));
                    assert(buffer@ =~= prev.skip(1));
                    assert(scan_outcome(prev, command) == scan_outcome(buffer@, command));
                }
            },
        }
    }
}

/// The robot arm controller driver: owns its transport exclusively and
/// supports one outstanding request at a time.
pub struct MyCobot<P: SerialPort> {
    pub port: P,
    pub debug_mode: bool,
}

impl<P: SerialPort> MyCobot<P> {
    /// A driver over the given port, with diagnostics off.
    pub fn new(port: P) -> (r: MyCobot<P>)
        ensures
            r.port == port,
            !r.debug_mode,
    {
        MyCobot { port, debug_mode: false }
    }

    /// Request verbose diagnostics.
    pub fn set_debug_mode(&mut self, debug: bool)
        ensures
            final(self).debug_mode == debug,
            final(self).port == old(self).port,
    {
        self.debug_mode = debug;
    }

    /// Write one command frame and flush, without waiting for a response.
    ///
    /// A payload longer than 253 bytes cannot be framed and is rejected
    /// before any transfer.
    pub fn write_command(&mut self, command: Command, payload: Vec<u8>) -> (r: Result<(), Error>)
        ensures
            (r matches Err(Error::InvalidParameter(_))) <==> payload@.len() > 253,
            r matches Ok(()) ==> {
                &&& final(self).port.outgoing() == old(self).port.outgoing() + frame_bytes(
                    opcode_of(command),
                    payload@,
                )
                &&& final(self).port.incoming() == old(self).port.incoming()
            },
            r matches Err(e) ==> e matches Error::Io || e matches Error::InvalidParameter(_),
            r matches Err(Error::InvalidParameter(_)) ==> *final(self) == *old(self),
    {
        if payload.len() > 253 {
            return Err(
                Error::InvalidParameter(String::from_str("payload longer than 253 bytes")),
            );
        }
        let packet = Packet::new(command, payload);
        let bytes = packet.to_bytes();
        if !self.port.write_all(bytes.as_slice()) {
            return Err(Error::Io);
        }
        if !self.port.flush() {
            return Err(Error::Io);
        }
        Ok(())
    }

    /// Send `command` with `payload`, then block until a response frame for
    /// the same command arrives (the protocol reuses the request opcode in
    /// the reply), the deadline passes, or the transport fails.
    ///
    /// The deadline is measured from immediately after the request bytes
    /// are written and flushed. A payload longer than 253 bytes is rejected
    /// before any transfer. A poll budget additionally bounds the read loop
    /// so that it provably terminates even against a clock that never
    /// advances; the budget is far beyond what any deadline outlasts.
    ///
    /// On success, the returned payload is exactly the payload of a frame
    /// that arrived on the incoming stream carrying this command's opcode.
    pub fn request(&mut self, command: Command, payload: Vec<u8>, timeout_ms: u64) -> (r: Result<
        Vec<u8>,
        Error,
    >)
        ensures
            (r matches Err(Error::InvalidParameter(_))) <==> payload@.len() > 253,
            r matches Err(e) ==> e matches Error::Io || e matches Error::Timeout
                || e matches Error::InvalidParameter(_),
            r matches Err(Error::InvalidParameter(_)) ==> *final(self) == *old(self),
            r matches Err(Error::Timeout) ==> final(self).port.outgoing() == old(
                self,
            ).port.outgoing() + frame_bytes(opcode_of(command), payload@),
            r matches Ok(resp) ==> {
                &&& final(self).port.outgoing() == old(self).port.outgoing() + frame_bytes(
                    opcode_of(command),
                    payload@,
                )
                &&& stream_holds_response(
                    old(self).port.incoming(),
                    opcode_of(command),
                    resp@,
                )
                &&& stream_scan_finds(old(self).port.incoming(), command, resp@)
            },
    {
        if payload.len() > 253 {
            return Err(
                Error::InvalidParameter(String::from_str("payload longer than 253 bytes")),
            );
        }
        let ghost stream = self.port.incoming();
        let ghost sent = self.port.outgoing() + frame_bytes(opcode_of(command), payload@);
        match self.write_command(command, payload) {
            Ok(()) => {},
            Err(e) => {
                return Err(e);
            },
        }
        let start = clock_now();
        let mut buffer: Vec<u8> = Vec::new();
        let ghost mut offset: int = 0;
        let mut fuel: u64 = u64::MAX;
        proof {
            assert(stream.skip(0) =~= stream);
            assert(buffer@ =~= stream.subrange(0, 0));
            assert(stream.take(0) =~= buffer@);
        }
        while fuel > 0
            invariant
                payload@.len() <= 253,
                self.port.outgoing() == sent,
                sent == old(self).port.outgoing() + frame_bytes(opcode_of(command), payload@),
                stream == old(self).port.incoming(),
                0 <= offset,
                offset + buffer@.len() <= stream.len(),
                buffer@ == stream.subrange(offset, offset + buffer@.len()),
                self.port.incoming() == stream.skip(offset + buffer@.len()),
                decode(buffer@) is Incomplete,
                scan_outcome(stream.take(offset + buffer@.len()), command) == scan_outcome(
                    buffer@,
                    command,
                ),
            decreases fuel,
        {
            fuel = fuel - 1;
            let elapsed_time = clock_elapsed(&start);
            let elapsed = duration_as_millis(&elapsed_time);
            if elapsed > timeout_ms as u128 {
                return Err(Error::Timeout);
            }
            match self.port.read_byte() {
                ReadOutcome::Byte(b) => {
                    let ghost prev = buffer@;
                    let ghost read = offset + buffer@.len();
                    proof {
                        assert(stream.skip(read)[0] == stream[read]);
                        assert(stream.skip(read).skip(1) =~= stream.skip(read + 1));
                    }
                    buffer.push(b);
                    proof {
                        assert(buffer@ =~= stream.subrange(offset, offset + buffer@.len()));
                        assert(scan_outcome(prev, command) == (ScanOutcome::NeedMore {
                            rest: prev,
                        }));
                        lemma_scan_extend(stream.take(read), seq![b], command);
                        assert(stream.take(read + 1) =~= stream.take(read) + seq![b]);
                        assert(buffer@ =~= prev + seq![b]);
                        assert(scan_outcome(stream.take(read + 1), command) == scan_outcome(
                            buffer@,
                            command,
                        ));
                    }
                    let ghost snap = buffer@;
                    let (outcome, j) = scan_buffer(&mut buffer, command);
                    match outcome {
                        Some(resp) => {
                            proof {
                                let tail = stream.skip(offset + snap.len());
                                assert(stream.skip(offset + j@) =~= snap.skip(j@) + tail);
                                lemma_decode_complete_extend(snap.skip(j@), tail);
                                assert(response_at(stream, offset + j@, opcode_of(command), resp@));
                                assert(stream_holds_response(
                                    stream,
                                    opcode_of(command),
                                    resp@,
                                ));
                                assert(scan_outcome(stream.take(offset + snap.len()), command)
                                    == (ScanOutcome::Found { payload: resp@ }));
                                assert(stream_scan_finds(stream, command, resp@));
                            }
                            return Ok(resp);
                        },
                        None => {
                            proof {
                                offset = offset + j@;
                                assert(buffer@ =~= stream.subrange(offset, offset + buffer@.len()));
                            }
                        },
                    }
                },
                ReadOutcome::Pending => {},
                ReadOutcome::Failed => {
                    return Err(Error::Io);
                },
            }
        }
        Err(Error::Timeout)
    }

    // --- Basic control ---

    /// Power the arm on; fire-and-forget.
    pub fn power_on(&mut self) -> (r: Result<(), Error>)
        ensures
            r matches Ok(()) ==> {
                &&& final(self).port.outgoing() == old(self).port.outgoing() + frame_bytes(
                    opcode_of(Command::PowerOn),
                    Seq::<u8>::empty(),
                )
                &&& final(self).port.incoming() == old(self).port.incoming()
            },
            r matches Err(e) ==> e matches Error::Io,
    {
        self.write_command(Command::PowerOn, Vec::new())
    }

    /// Power the arm off; fire-and-forget.
    pub fn power_off(&mut self) -> (r: Result<(), Error>)
        ensures
            r matches Ok(()) ==> {
                &&& final(self).port.outgoing() == old(self).port.outgoing() + frame_bytes(
                    opcode_of(Command::PowerOff),
                    Seq::<u8>::empty(),
                )
                &&& final(self).port.incoming() == old(self).port.incoming()
            },
            r matches Err(e) ==> e matches Error::Io,
    {
        self.write_command(Command::PowerOff, Vec::new())
    }

    /// Ask the controller whether the arm is powered.
    ///
    /// The matched response must carry exactly one payload byte; `1` means
    /// powered. Any other payload shape is a protocol error.
    pub fn is_powered_on(&mut self) -> (r: Result<bool, Error>)
        ensures
            r matches Err(e) ==> e matches Error::Io || e matches Error::Timeout
                || e matches Error::Protocol(_),
            r matches Err(Error::Timeout) ==> final(self).port.outgoing() == old(
                self,
            ).port.outgoing() + frame_bytes(opcode_of(Command::IsPoweredOn), Seq::<u8>::empty()),
            r matches Ok(on) ==> {
                &&& final(self).port.outgoing() == old(self).port.outgoing() + frame_bytes(
                    opcode_of(Command::IsPoweredOn),
                    Seq::<u8>::empty(),
                )
                &&& exists|resp: Seq<u8>|
                    {
                        &&& #[trigger] stream_scan_finds(
                            old(self).port.incoming(),
                            Command::IsPoweredOn,
                            resp,
                        )
                        &&& stream_holds_response(
                            old(self).port.incoming(),
                            opcode_of(Command::IsPoweredOn),
                            resp,
                        )
                        &&& resp.len() == 1
                        &&& on == (resp[0] == 1)
                    }
            },
            r matches Err(Error::Protocol(_)) ==> {
                &&& final(self).port.outgoing() == old(self).port.outgoing() + frame_bytes(
                    opcode_of(Command::IsPoweredOn),
                    Seq::<u8>::empty(),
                )
                &&& exists|resp: Seq<u8>|
                    {
                        &&& #[trigger] stream_scan_finds(
                            old(self).port.incoming(),
                            Command::IsPoweredOn,
                            resp,
                        )
                        &&& resp.len() != 1
                    }
            },
    {
        let response = match self.request(Command::IsPoweredOn, Vec::new(), 500) {
            Ok(p) => p,
            Err(e) => {
                return Err(e);
            },
        };
        proof {
            assert(stream_scan_finds(
                old(self).port.incoming(),
                Command::IsPoweredOn,
                response@,
            ));
            assert(stream_holds_response(
                old(self).port.incoming(),
                opcode_of(Command::IsPoweredOn),
                response@,
            ));
        }
        if response.len() == 1 {
            let on = response[0] == 1;
            Ok(on)
        } else {
            Err(Error::Protocol(String::from_str("Invalid payload length for IsPoweredOn")))
        }
    }

    // --- Atom IO ---

    /// Set the RGB LED on the arm's head; fire-and-forget.
    pub fn set_led_color(&mut self, r: u8, g: u8, b: u8) -> (res: Result<(), Error>)
        ensures
            res matches Ok(()) ==> {
                &&& final(self).port.outgoing() == old(self).port.outgoing() + frame_bytes(
                    opcode_of(Command::SetLedRgb),
                    seq![r, g, b],
                )
                &&& final(self).port.incoming() == old(self).port.incoming()
            },
            res matches Err(e) ==> e matches Error::Io,
    {
        let mut payload: Vec<u8> = Vec::new();
        payload.push(r);
        payload.push(g);
        payload.push(b);
        proof {
            assert(payload@ =~= seq![r, g, b]);
        }
        self.write_command(Command::SetLedRgb, payload)
    }
}

} // verus!
