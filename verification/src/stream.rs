//! Byte endpoints: the traits that describe a source and a sink of raw
//! bytes, and the in-memory implementations the crate supplies.

use vstd::prelude::*;

verus! {

/// The failures an endpoint can report.
#[derive(Debug, Clone, Copy, PartialEq, Eq, Structural)]
pub enum IoError {
    /// Fewer bytes were available than a read required.
    ShortRead,
    /// Any other fault of the underlying endpoint.
    Io,
}

/// A stream of bytes to read from.
///
/// `remaining()` is the sequence of bytes the source still holds;
/// `is_reliable()` says whether reads within `remaining()` are guaranteed to
/// succeed. An in-memory source is reliable; an implementation over a device
/// need not be, and may fail any read.
pub trait ByteSource {
    /// The bytes this source still holds, in the order they will be read.
    spec fn remaining(self) -> Seq<u8>;

    /// Whether a read within `remaining()` cannot fail.
    spec fn is_reliable(self) -> bool;

    /// Reads and consumes exactly the next `n` bytes, or fails and leaves
    /// the source in an unspecified position.
    fn read_exact_bytes(&mut self, n: usize) -> (r: Result<Vec<u8>, IoError>)
        ensures
            final(self).is_reliable() == old(self).is_reliable(),
            match r {
                Ok(bytes) => {
                    &&& n <= old(self).remaining().len()
                    &&& bytes@ == old(self).remaining().take(n as int)
                    &&& final(self).remaining() == old(self).remaining().skip(n as int)
                },
                Err(_) => !(old(self).is_reliable() && n <= old(self).remaining().len()),
            },
    ;
}

/// A stream of bytes to write to.
///
/// `written()` is the sequence of bytes the sink has accepted so far;
/// `is_reliable()` says whether writes are guaranteed to succeed.
pub trait ByteSink {
    /// The bytes this sink has accepted, in the order they arrived.
    spec fn written(self) -> Seq<u8>;

    /// Whether a write cannot fail.
    spec fn is_reliable(self) -> bool;

    /// Writes all of `buf`, or fails and leaves the sink's contents
    /// unspecified.
    fn write_all_bytes(&mut self, buf: &[u8]) -> (r: Result<(), IoError>)
        ensures
            final(self).is_reliable() == old(self).is_reliable(),
            match r {
                Ok(_) => final(self).written() == old(self).written() + buf@,
                Err(_) => !old(self).is_reliable(),
            },
    ;
}

/// An in-memory byte source: a buffer and a cursor over it.
#[derive(Debug)]
pub struct ByteReader {
    data: Vec<u8>,
    pos: usize,
}

impl ByteReader {
    /// The cursor never runs past the end of the buffer.
    #[verifier::type_invariant]
    spec fn wf(self) -> bool {
        self.pos <= self.data@.len()
    }

    /// Creates a source that reads the given bytes from the start.
    pub fn new(data: Vec<u8>) -> (r: ByteReader)
        ensures
            r.remaining() == data@,
            r.is_reliable(),
    {
        let r = ByteReader { data, pos: 0 };
        proof {
            assert(r.remaining() =~= r.data@);
        }
        r
    }

    /// How many bytes are left to read.
    pub fn remaining_len(&self) -> (r: usize)
        ensures
            r == self.remaining().len(),
    {
        proof {
            use_type_invariant(self);
        }
        self.data.len() - self.pos
    }
}

impl ByteSource for ByteReader {
    closed spec fn remaining(self) -> Seq<u8> {
        self.data@.skip(self.pos as int)
    }

    closed spec fn is_reliable(self) -> bool {
        true
    }

    fn read_exact_bytes(&mut self, n: usize) -> (r: Result<Vec<u8>, IoError>) {
        proof {
            use_type_invariant(&*self);
        }
        if n > self.data.len() - self.pos {
            return Err(IoError::ShortRead);
        }
        let end = self.pos + n;
        let mut out: Vec<u8> = Vec::new();
        let mut i: usize = self.pos;
        while i < end
            invariant
                self.pos <= i <= end,
                end <= self.data@.len(),
                out@ == self.data@.subrange(self.pos as int, i as int),
            decreases end - i,
        {
            let b = self.data[i];
            out.push(b);
            i += 1;
        }
        proof {
            assert(out@ =~= old(self).remaining().take(n as int));
        }
        self.pos = end;
        proof {
            assert(self.remaining() =~= old(self).remaining().skip(n as int));
        }
        Ok(out)
    }
}

/// An in-memory byte sink: a growing buffer.
#[derive(Debug)]
pub struct ByteWriter {
    data: Vec<u8>,
}

impl ByteWriter {
    /// Creates an empty sink.
    pub fn new() -> (r: ByteWriter)
        ensures
            r.written() == Seq::<u8>::empty(),
            r.is_reliable(),
    {
        let r = ByteWriter { data: Vec::new() };
        proof {
            assert(r.written() =~= Seq::<u8>::empty());
        }
        r
    }

    /// Hands the accepted bytes out, consuming the sink.
    pub fn into_vec(self) -> (r: Vec<u8>)
        ensures
            r@ == self.written(),
    {
        self.data
    }

    /// How many bytes the sink has accepted.
    pub fn written_len(&self) -> (r: usize)
        ensures
            r == self.written().len(),
    {
        self.data.len()
    }
}

impl ByteSink for ByteWriter {
    closed spec fn written(self) -> Seq<u8> {
        self.data@
    }

    closed spec fn is_reliable(self) -> bool {
        true
    }

    fn write_all_bytes(&mut self, buf: &[u8]) -> (r: Result<(), IoError>) {
        let ghost orig: Seq<u8> = self.data@;
        let mut i: usize = 0;
        while i < buf.len()
            invariant
                i <= buf@.len(),
                self.data@ == orig + buf@.take(i as int),
            decreases buf@.len() - i,
        {
            let b = buf[i];
            self.data.push(b);
            proof {
                assert(self.data@ =~= orig + buf@.take(i + 1));
            }
            i += 1;
        }
        proof {
            assert(orig + buf@.take(i as int) =~= orig + buf@);
        }
        Ok(())
    }
}

} // verus!
