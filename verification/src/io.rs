//! The byte transport capability, and a mock implementation for tests.
//!
//! A transport is modelled by two byte sequences: `incoming()`, the bytes
//! the port has yet to deliver (front first), and `outgoing()`, the bytes
//! written to it so far. Reading pops the front of `incoming()`; writing
//! appends to `outgoing()`.

use vstd::prelude::*;

verus! {

/// The outcome of one read attempt.
pub enum ReadOutcome {
    /// The next byte of the stream.
    Byte(u8),
    /// No data available yet: a non-fatal, transient condition.
    Pending,
    /// A fatal transport error.
    Failed,
}

/// Serial port communication capability, abstract to allow mocking.
///
/// An implementation decides for itself when a read yields a byte, reports
/// `Pending`, or fails, and when a write or flush succeeds; the contracts
/// only pin what each outcome means for the modelled byte streams.
pub trait SerialPort: Sized {
    /// The bytes this port has yet to deliver, front first. For a port that
    /// does not say otherwise, nothing is modelled as arriving.
    open spec fn incoming(&self) -> Seq<u8> {
        Seq::<u8>::empty()
    }

    /// The bytes written to this port so far. For a port that does not say
    /// otherwise, nothing written is modelled.
    open spec fn outgoing(&self) -> Seq<u8> {
        Seq::<u8>::empty()
    }

    /// Try to read the next byte of the incoming stream.
    fn read_byte(&mut self) -> (r: ReadOutcome)
        ensures
            match r {
                ReadOutcome::Byte(b) => {
                    &&& old(self).incoming().len() > 0
                    &&& b == old(self).incoming()[0]
                    &&& final(self).incoming() == old(self).incoming().skip(1)
                    &&& final(self).outgoing() == old(self).outgoing()
                },
                ReadOutcome::Pending => {
                    &&& final(self).incoming() == old(self).incoming()
                    &&& final(self).outgoing() == old(self).outgoing()
                },
                ReadOutcome::Failed => true,
            },
    ;

    /// Write all of `data`; `true` means every byte was accepted.
    fn write_all(&mut self, data: &[u8]) -> (ok: bool)
        ensures
            ok ==> {
                &&& final(self).outgoing() == old(self).outgoing() + data@
                &&& final(self).incoming() == old(self).incoming()
            },
    ;

    /// Push any buffered written bytes out; `true` means success.
    fn flush(&mut self) -> (ok: bool)
        ensures
            ok ==> {
                &&& final(self).outgoing() == old(self).outgoing()
                &&& final(self).incoming() == old(self).incoming()
            },
    ;
}

/// A mock serial port for testing: reads come from a preloaded buffer and
/// writes accumulate for later inspection.
pub struct MockSerial {
    pub read_buffer: Vec<u8>,
    pub written_data: Vec<u8>,
}

impl MockSerial {
    /// A mock port with nothing to read and nothing written.
    pub fn new() -> (r: MockSerial)
        ensures
            r.read_buffer@ == Seq::<u8>::empty(),
            r.written_data@ == Seq::<u8>::empty(),
    {
        MockSerial { read_buffer: Vec::new(), written_data: Vec::new() }
    }

    /// Append `data` to the bytes the port will deliver.
    pub fn push_read(&mut self, data: &[u8])
        ensures
            final(self).read_buffer@ == old(self).read_buffer@ + data@,
            final(self).written_data == old(self).written_data,
    {
        self.read_buffer.extend_from_slice(data);
    }

    /// Take the bytes written so far, leaving the written log empty.
    pub fn pop_write(&mut self) -> (r: Vec<u8>)
        ensures
            r@ == old(self).written_data@,
            final(self).written_data@ == Seq::<u8>::empty(),
            final(self).read_buffer == old(self).read_buffer,
    {
        let mut data: Vec<u8> = Vec::new();
        let mut i: usize = 0;
        while i < self.written_data.len()
            invariant
                i <= self.written_data@.len(),
                data@ == self.written_data@.subrange(0, i as int),
            decreases self.written_data@.len() - i,
        {
            data.push(self.written_data[i]);
            assert(self.written_data@.subrange(0, i + 1) == self.written_data@.subrange(
                0,
                i as int,
            ).push(self.written_data@[i as int]));
            i += 1;
        }
        assert(data@ == self.written_data@.subrange(0, self.written_data@.len() as int));
        assert(self.written_data@.subrange(0, self.written_data@.len() as int)
            == self.written_data@);
        self.written_data.clear();
        data
    }
}

impl SerialPort for MockSerial {
    open spec fn incoming(&self) -> Seq<u8> {
        self.read_buffer@
    }

    open spec fn outgoing(&self) -> Seq<u8> {
        self.written_data@
    }

    fn read_byte(&mut self) -> (r: ReadOutcome)
        ensures
            old(self).read_buffer@.len() == 0 ==> r is Pending && *final(self) == *old(self),
            old(self).read_buffer@.len() > 0 ==> {
                &&& r matches ReadOutcome::Byte(b) && b == old(self).read_buffer@[0]
                &&& final(self).read_buffer@ == old(self).read_buffer@.skip(1)
                &&& final(self).written_data == old(self).written_data
            },
    {
        if self.read_buffer.len() == 0 {
            ReadOutcome::Pending
        } else {
            let b = self.read_buffer.remove(0);
            assert(old(self).read_buffer@.remove(0) == old(self).read_buffer@.skip(1));
            ReadOutcome::Byte(b)
        }
    }

    fn write_all(&mut self, data: &[u8]) -> (ok: bool)
        ensures
            ok,
            final(self).written_data@ == old(self).written_data@ + data@,
            final(self).read_buffer == old(self).read_buffer,
    {
        self.written_data.extend_from_slice(data);
        true
    }

    fn flush(&mut self) -> (ok: bool)
        ensures
            ok,
            *final(self) == *old(self),
    {
        true
    }
}

} // verus!
