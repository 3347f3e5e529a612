//! Byte streams of the syscall client library: the sink and source traits
//! its users implement, a buffered wrapper, and an in-memory stream.
//!
//! The stream that really crosses the trap boundary lives outside this
//! crate: its reads and writes are raw syscalls. The traits carry the
//! contracts; the in-memory stream is the verified reference
//! implementation, and what the tests run against.

use vstd::prelude::*;

verus! {

/// A byte sink. Writing appends the given bytes, in order, to everything
/// written before.
pub trait StreamWrite {
    /// Every byte this sink has accepted, in order.
    spec fn spec_written(&self) -> Seq<u8>;

    fn write(&mut self, data: &[u8])
        ensures
            final(self).spec_written() == old(self).spec_written() + data@,
    ;
}

/// A byte source. A read hands back at most the requested number of bytes.
pub trait StreamRead {
    fn read(&mut self, count: usize) -> (r: Vec<u8>)
        ensures
            r@.len() <= count,
    ;
}

/// A stream held entirely in memory: bytes written are appended to a
/// buffer, bytes read are taken from its front.
pub struct MemoryStream {
    data: Vec<u8>,
}

impl MemoryStream {
    pub fn new() -> (s: MemoryStream)
        ensures
            s.spec_written() == Seq::<u8>::empty(),
    {
        MemoryStream { data: Vec::new() }
    }

    /// The bytes currently held, for inspection.
    pub fn contents(&self) -> (r: Vec<u8>)
        ensures
            r@ == self.spec_written(),
    {
        self.data.clone()
    }
}

impl StreamWrite for MemoryStream {
    closed spec fn spec_written(&self) -> Seq<u8> {
        self.data@
    }

    fn write(&mut self, data: &[u8]) {
        let mut i: usize = 0;
        while i < data.len()
            invariant
                i <= data@.len(),
                self.data@ == old(self).data@ + data@.take(i as int),
            decreases data@.len() - i,
        {
            self.data.push(data[i]);
            proof {
                assert(old(self).data@ + data@.take(i + 1) =~= (old(self).data@ + data@.take(
                    i as int,
                )).push(data@[i as int]));
            }
            i = i + 1;
        }
        proof {
            assert(data@.take(data@.len() as int) =~= data@);
        }
    }
}

impl StreamRead for MemoryStream {
    fn read(&mut self, count: usize) -> (r: Vec<u8>) {
        let take = if count < self.data.len() {
            count
        } else {
            self.data.len()
        };
        let mut r: Vec<u8> = Vec::new();
        let mut i: usize = 0;
        while i < take
            invariant
                i <= take,
                take <= self.data@.len(),
                r@.len() == i,
            decreases take - i,
        {
            r.push(self.data[i]);
            i = i + 1;
        }
        r
    }
}

/// A sink wrapper that keeps a fixed staging buffer and sends the whole
/// buffer downstream on demand.
pub struct BufferedStream<S, const SIZE: usize> {
    inner: S,
    buffer: [u8; SIZE],
}

impl<S: StreamWrite + StreamRead, const SIZE: usize> BufferedStream<S, SIZE> {
    /// The staging buffer's bytes.
    pub closed spec fn spec_buffer(&self) -> Seq<u8> {
        self.buffer@
    }

    /// The wrapped stream.
    pub closed spec fn spec_inner(&self) -> S {
        self.inner
    }

    /// Wraps a stream with a zeroed staging buffer.
    pub fn new(inner: S) -> (s: BufferedStream<S, SIZE>)
        ensures
            s.spec_inner() == inner,
            s.spec_buffer().len() == SIZE,
            forall|i: int| 0 <= i < SIZE ==> s.spec_buffer()[i] == 0,
    {
        BufferedStream { inner, buffer: [0; SIZE] }
    }

    /// Sends the whole staging buffer downstream, leaving it in place.
    pub fn flush(&mut self)
        ensures
            final(self).spec_inner().spec_written() == old(self).spec_inner().spec_written() + old(
                self,
            ).spec_buffer(),
            final(self).spec_buffer() == old(self).spec_buffer(),
    {
        self.inner.write(self.buffer.as_slice())
    }
}

impl<S: StreamWrite + StreamRead, const SIZE: usize> StreamWrite for BufferedStream<S, SIZE> {
    open spec fn spec_written(&self) -> Seq<u8> {
        self.spec_inner().spec_written()
    }

    fn write(&mut self, data: &[u8]) {
        self.inner.write(data)
    }
}

impl<S: StreamWrite + StreamRead, const SIZE: usize> StreamRead for BufferedStream<S, SIZE> {
    fn read(&mut self, count: usize) -> (r: Vec<u8>) {
        self.inner.read(count)
    }
}

} // verus!
