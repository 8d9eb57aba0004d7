//! Byte queues between two streams.

use crate::failure::{is_would_block, IoError, IoErrorKind};
use std::collections::VecDeque;
use vstd::prelude::*;

verus! {

broadcast use vstd::std_specs::vecdeque::group_vec_dequeue_axioms;

/// The capacity of the queues of a session and of a bridge.
pub const BUF_CAPACITY: usize = 8192;

/// A queue of bytes with a capacity that was set when it was made.
#[derive(Debug)]
pub struct ByteQueue {
    bytes: VecDeque<u8>,
    capacity: usize,
}

/// A queue, with a sequence for its bytes.
pub struct QueueView {
    /// The bytes, oldest first.
    pub bytes: Seq<u8>,
    /// The number of bytes that it can hold.
    pub capacity: usize,
}

impl View for ByteQueue {
    type V = QueueView;

    closed spec fn view(&self) -> QueueView {
        QueueView { bytes: self.bytes@, capacity: self.capacity }
    }
}

impl ByteQueue {
    /// An empty queue with this capacity.
    pub fn with_capacity(capacity: usize) -> (buf: ByteQueue)
        requires
            capacity <= isize::MAX,
        ensures
            buf@.bytes == Seq::<u8>::empty(),
            buf@.capacity == capacity,
    {
        ByteQueue { bytes: VecDeque::with_capacity(capacity), capacity }
    }

    /// The number of bytes that the queue can hold.
    pub fn capacity(&self) -> (n: usize)
        ensures
            n == self@.capacity,
    {
        self.capacity
    }

    /// The number of bytes that the queue holds.
    pub fn len(&self) -> (n: usize)
        ensures
            n == self@.bytes.len(),
    {
        self.bytes.len()
    }

    /// Drops all bytes.
    pub fn clear(&mut self)
        ensures
            final(self)@.bytes == Seq::<u8>::empty(),
            final(self)@.capacity == old(self)@.capacity,
    {
        self.bytes.clear();
    }
}

/// A new, empty queue for a stream.
pub fn new_buf() -> (buf: ByteQueue)
    ensures
        buf@.bytes == Seq::<u8>::empty(),
        buf@.capacity == BUF_CAPACITY,
{
    ByteQueue::with_capacity(BUF_CAPACITY)
}

/// How many more bytes `buf` can take.
pub fn room(buf: &ByteQueue) -> (n: usize)
    requires
        buf@.bytes.len() <= buf@.capacity,
    ensures
        n == buf@.capacity - buf@.bytes.len(),
{
    buf.capacity - buf.len()
}

/// The bytes that wait in `buf`, oldest first.
pub fn pending(buf: &ByteQueue) -> (bytes: Vec<u8>)
    ensures
        bytes@ == buf@.bytes,
{
    let mut bytes: Vec<u8> = Vec::new();
    let mut i: usize = 0;
    while i < buf.len()
        invariant
            i <= buf@.bytes.len(),
            bytes@ == buf@.bytes.take(i as int),
        decreases buf@.bytes.len() - i,
    {
        bytes.push(buf.bytes[i]);
        assert(buf@.bytes.take(i as int + 1) == buf@.bytes.take(i as int).push(buf@.bytes[i as int]));
        i += 1;
    }
    assert(buf@.bytes.take(i as int) == buf@.bytes);
    bytes
}

/// What a queue holds after a write of its bytes came to `written`.
pub open spec fn after_write(buf: Seq<u8>, written: Result<usize, IoError>) -> Seq<u8> {
    match written {
        Ok(len) => buf.skip(len as int),
        Err(_) => buf,
    }
}

/// Whether a transfer with this result failed. One that would have had to wait did not.
pub open spec fn failed<T>(result: Result<T, IoError>) -> bool {
    result is Err && !result->Err_0.would_block()
}

/// Takes from `buf` what a write of its bytes, all of them offered, has taken: `written` is what
/// the write returned. A write that would have had to wait took nothing and is no error.
pub fn write_from_buf(written: Result<usize, IoError>, buf: &mut ByteQueue) -> (r: Result<
    (),
    IoError,
>)
    requires
        written matches Ok(len) ==> len <= old(buf)@.bytes.len(),
    ensures
        final(buf)@.bytes == after_write(old(buf)@.bytes, written),
        final(buf)@.capacity == old(buf)@.capacity,
        r is Err <==> failed(written),
        r is Err ==> r->Err_0 == written->Err_0,
{
    match written {
        Ok(len) => {
            let mut rest = buf.bytes.split_off(len);
            buf.bytes.clear();
            buf.bytes.append(&mut rest);
            assert(buf@.bytes == old(buf)@.bytes.skip(len as int));
            Ok(())
        },
        Err(err) => {
            if is_would_block(&err) {
                return Ok(());
            }
            Err(err)
        },
    }
}

/// What a queue holds after a read into its free room gave `read`.
pub open spec fn after_read(buf: Seq<u8>, read: Result<Vec<u8>, IoError>) -> Seq<u8> {
    match read {
        Ok(data) => buf + data@,
        Err(_) => buf,
    }
}

/// Whether a read with this result ended the stream: it failed, or gave no byte.
pub open spec fn ended(read: Result<Vec<u8>, IoError>) -> bool {
    match read {
        Ok(data) => data@.len() == 0,
        Err(err) => !err.would_block(),
    }
}

/// Adds to `buf` what a read into its free room has given: `read` is what the read returned. A
/// read of no byte is the end of the stream. A read that would have had to wait gave nothing and
/// is no error.
pub fn read_into_buf(read: Result<Vec<u8>, IoError>, buf: &mut ByteQueue) -> (r: Result<
    (),
    IoError,
>)
    requires
        read matches Ok(data) ==> old(buf)@.bytes.len() + data@.len() <= old(buf)@.capacity,
    ensures
        final(buf)@.bytes == after_read(old(buf)@.bytes, read),
        final(buf)@.capacity == old(buf)@.capacity,
        r is Err <==> ended(read),
        r is Err && read is Ok ==> r->Err_0.is_eof(),
        r is Err && read is Err ==> r->Err_0 == read->Err_0,
{
    match read {
        Ok(data) => {
            let mut i: usize = 0;
            while i < data.len()
                invariant
                    i <= data@.len(),
                    buf@.bytes == old(buf)@.bytes + data@.take(i as int),
                    buf@.capacity == old(buf)@.capacity,
                decreases data@.len() - i,
            {
                buf.bytes.push_back(data[i]);
                assert(data@.take(i as int + 1) == data@.take(i as int).push(data@[i as int]));
                i += 1;
            }
            assert(data@.take(i as int) == data@);
            if data.len() == 0 {
                Err(IoError { kind: IoErrorKind::UnexpectedEof, message: "EOF".to_owned() })
            } else {
                Ok(())
            }
        },
        Err(err) => {
            if is_would_block(&err) {
                return Ok(());
            }
            Err(err)
        },
    }
}

/// First in, first out: what a successful write took, followed by what stays, is what was there.
pub proof fn law_write_takes_from_the_front(buf: Seq<u8>, written: Result<usize, IoError>)
    requires
        written matches Ok(len) ==> len <= buf.len(),
    ensures
        written matches Ok(len) ==> buf.take(len as int) + after_write(buf, written) == buf,
        written is Err ==> after_write(buf, written) == buf,
{
    if let Ok(len) = written {
        assert(buf.take(len as int) + after_write(buf, written) == buf);
    }
}

/// What a read gave is what later writes take, once all that waited before it has gone.
pub proof fn law_read_then_write(
    buf: Seq<u8>,
    read: Result<Vec<u8>, IoError>,
    written: Result<usize, IoError>,
)
    requires
        read is Ok,
        written == Result::<usize, IoError>::Ok(buf.len() as usize),
        buf.len() <= usize::MAX,
    ensures
        after_write(after_read(buf, read), written) == read->Ok_0@,
{
    assert(after_write(after_read(buf, read), written) == read->Ok_0@);
}

/// The bytes that a read gave.
pub open spec fn bytes_read(read: Result<Vec<u8>, IoError>) -> Seq<u8> {
    match read {
        Ok(data) => data@,
        Err(_) => Seq::empty(),
    }
}

/// The bytes that a write of `offered` took.
pub open spec fn bytes_taken(offered: Seq<u8>, written: Result<usize, IoError>) -> Seq<u8> {
    match written {
        Ok(len) => offered.take(len as int),
        Err(_) => Seq::empty(),
    }
}

/// What has passed through a queue since it was made.
#[verifier::ext_equal]
pub struct StreamTrace {
    /// All bytes that were read into it.
    pub taken_in: Seq<u8>,
    /// All bytes that were written from it.
    pub given_out: Seq<u8>,
}

impl StreamTrace {
    /// After a read into the queue.
    pub open spec fn read(self, read: Result<Vec<u8>, IoError>) -> StreamTrace {
        StreamTrace { taken_in: self.taken_in + bytes_read(read), ..self }
    }

    /// After a write from the queue, which held `buf`.
    pub open spec fn wrote(self, buf: Seq<u8>, written: Result<usize, IoError>) -> StreamTrace {
        StreamTrace { given_out: self.given_out + bytes_taken(buf, written), ..self }
    }

    /// Whether a queue that holds `buf` is faithful: what was written from it, followed by what it
    /// holds, is what was read into it.
    pub open spec fn faithful(self, buf: Seq<u8>) -> bool {
        self.given_out + buf == self.taken_in
    }
}

/// A new queue is faithful, and a read into a faithful queue keeps it so. What was written from a
/// faithful queue is a prefix of what was read into it.
pub proof fn law_read_keeps_the_queue_faithful(
    trace: StreamTrace,
    buf: Seq<u8>,
    read: Result<Vec<u8>, IoError>,
)
    requires
        trace.faithful(buf),
    ensures
        (StreamTrace { taken_in: Seq::empty(), given_out: Seq::empty() }).faithful(Seq::empty()),
        trace.read(read).faithful(after_read(buf, read)),
        trace.given_out.is_prefix_of(trace.taken_in),
{
    assert(trace.given_out + after_read(buf, read) =~= trace.read(read).taken_in);
    assert(Seq::<u8>::empty() + Seq::<u8>::empty() =~= Seq::<u8>::empty());
}

/// A write from a faithful queue keeps it so.
pub proof fn law_write_keeps_the_queue_faithful(
    trace: StreamTrace,
    buf: Seq<u8>,
    written: Result<usize, IoError>,
)
    requires
        trace.faithful(buf),
        written matches Ok(len) ==> len <= buf.len(),
    ensures
        trace.wrote(buf, written).faithful(after_write(buf, written)),
{
    assert(trace.wrote(buf, written).given_out + after_write(buf, written) =~= trace.taken_in);
}

/// A read ends the stream where it gave no byte, and where it failed otherwise than by having had to
/// wait; a write fails where it failed otherwise than by having had to wait. A transfer that failed in
/// any way leaves the queue as it is.
pub proof fn law_when_transfers_fail(
    buf: Seq<u8>,
    data: Vec<u8>,
    len: usize,
    err: IoError,
)
    ensures
        ended(Ok(data)) <==> data@.len() == 0,
        ended(Err(err)) <==> !err.would_block(),
        !failed::<usize>(Ok(len)),
        failed::<usize>(Err(err)) <==> !err.would_block(),
        after_read(buf, Ok(data)) == buf + data@,
        after_read(buf, Err(err)) == buf,
        len <= buf.len() ==> after_write(buf, Ok(len)) == buf.subrange(
            len as int,
            buf.len() as int,
        ),
        after_write(buf, Err(err)) == buf,
        bytes_read(Ok(data)) == data@,
        bytes_read(Err(err)) == Seq::<u8>::empty(),
        len <= buf.len() ==> bytes_taken(buf, Ok(len)) == buf.subrange(0, len as int),
        bytes_taken(buf, Err(err)) == Seq::<u8>::empty(),
{
}

} // verus!
