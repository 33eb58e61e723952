//! The bounded byte buffer behind one direction of an in-process stream.
//! Writes take what fits and reads drain from the front; a caller waits for
//! room when the buffer is full, and for data when it is empty.
use vstd::prelude::*;
use bytes::BytesMut;

verus! {

#[verifier::external_type_specification]
#[verifier::external_body]
pub struct ExBytesMut(BytesMut);

/// The bytes that a `BytesMut` holds, first to last.
pub uninterp spec fn buffer_bytes(b: BytesMut) -> Seq<u8>;

/// Relies on `BytesMut::with_capacity`: the new buffer is empty.
#[verifier::external_body]
fn new_buffer(capacity: usize) -> (r: BytesMut)
    ensures
        buffer_bytes(r) == Seq::<u8>::empty(),
{
    BytesMut::with_capacity(capacity)
}

/// Relies on `BytesMut::len`: the number of bytes held.
#[verifier::external_body]
fn buffer_len(b: &BytesMut) -> (r: usize)
    ensures
        r == buffer_bytes(*b).len(),
{
    b.len()
}

/// Relies on `BytesMut::extend_from_slice`: appends `data` at the end.
#[verifier::external_body]
fn buffer_append(b: &mut BytesMut, data: &[u8])
    ensures
        buffer_bytes(*final(b)) == buffer_bytes(*old(b)) + data@,
{
    b.extend_from_slice(data)
}

/// Relies on `BytesMut::split_to`: the first `n` bytes leave the buffer and
/// are returned; it panics where `n` exceeds the length.
#[verifier::external_body]
fn buffer_take_front(b: &mut BytesMut, n: usize) -> (r: Vec<u8>)
    requires
        n <= buffer_bytes(*old(b)).len(),
    ensures
        r@ == buffer_bytes(*old(b)).subrange(0, n as int),
        buffer_bytes(*final(b)) == buffer_bytes(*old(b)).subrange(
            n as int,
            buffer_bytes(*old(b)).len() as int,
        ),
{
    b.split_to(n).to_vec()
}

/// A byte buffer that never holds more than its capacity.
pub struct PipeBuffer {
    buf: BytesMut,
    max_buf_size: usize,
}

impl PipeBuffer {
    /// The bytes waiting to be read, oldest first.
    pub closed spec fn contents(&self) -> Seq<u8> {
        buffer_bytes(self.buf)
    }

    pub closed spec fn capacity(&self) -> nat {
        self.max_buf_size as nat
    }

    pub open spec fn wf(&self) -> bool {
        self.contents().len() <= self.capacity()
    }

    pub fn new(max_buf_size: usize) -> (r: Self)
        ensures
            r.wf(),
            r.contents() == Seq::<u8>::empty(),
            r.capacity() == max_buf_size,
    {
        PipeBuffer { buf: new_buffer(max_buf_size), max_buf_size }
    }

    pub fn len(&self) -> (r: usize)
        ensures
            r == self.contents().len(),
    {
        buffer_len(&self.buf)
    }

    /// No byte is waiting: a reader has to wait for a writer.
    pub fn is_empty(&self) -> (r: bool)
        ensures
            r == (self.contents().len() == 0),
    {
        buffer_len(&self.buf) == 0
    }

    /// No room is left: a writer has to wait for a reader.
    pub fn is_full(&self) -> (r: bool)
        requires
            self.wf(),
        ensures
            r == (self.contents().len() == self.capacity()),
    {
        buffer_len(&self.buf) == self.max_buf_size
    }

    /// Appends as much of `data` as there is room for and returns how much
    /// that was.
    pub fn write(&mut self, data: &[u8]) -> (r: usize)
        requires
            old(self).wf(),
        ensures
            final(self).wf(),
            final(self).capacity() == old(self).capacity(),
            r == if data@.len() <= old(self).capacity() - old(self).contents().len() {
                data@.len() as int
            } else {
                old(self).capacity() - old(self).contents().len()
            },
            final(self).contents() == old(self).contents() + data@.subrange(0, r as int),
    {
        let available = self.max_buf_size - buffer_len(&self.buf);
        let n = if data.len() <= available { data.len() } else { available };
        buffer_append(&mut self.buf, &data[0..n]);
        n
    }

    /// Removes and returns up to `max` bytes from the front.
    pub fn read(&mut self, max: usize) -> (r: Vec<u8>)
        requires
            old(self).wf(),
        ensures
            final(self).wf(),
            final(self).capacity() == old(self).capacity(),
            r@.len() == if max <= old(self).contents().len() {
                max as int
            } else {
                old(self).contents().len() as int
            },
            old(self).contents() == r@ + final(self).contents(),
    {
        let len = buffer_len(&self.buf);
        let n = if max <= len { max } else { len };
        let out = buffer_take_front(&mut self.buf, n);
        assert(old(self).contents() =~= out@ + self.contents());
        out
    }
}

} // verus!
