use vstd::prelude::*;
use crate::errno::SysError;
use crate::file::{default_kstat, Kstat, S_IFIFO};

verus! {

/// The number of bytes a pipe can hold.
pub const RING_BUFFER_SIZE: usize = 256;

/// Whether a ring buffer is full, empty, or neither.
#[derive(Debug, Clone, Copy, PartialEq, Eq, Structural)]
pub enum RingBufferStatus {
    Full,
    Empty,
    Normal,
}

/// The byte queue shared by the two ends of a pipe.
///
/// `head` is where the next byte is read, `tail` where the next byte is
/// written; when they meet, `status` tells a full buffer from an empty one.
pub struct PipeRingBuffer {
    arr: Vec<u8>,
    head: usize,
    tail: usize,
    status: RingBufferStatus,
}

impl PipeRingBuffer {
    /// The number of bytes held.
    pub closed spec fn count(&self) -> nat {
        match self.status {
            RingBufferStatus::Empty => 0,
            RingBufferStatus::Full => RING_BUFFER_SIZE as nat,
            RingBufferStatus::Normal => if self.tail > self.head {
                (self.tail - self.head) as nat
            } else {
                (self.tail + RING_BUFFER_SIZE - self.head) as nat
            },
        }
    }

    /// The buffer's internal consistency: indices in range, and the status
    /// agrees with the distance from `head` to `tail`.
    pub closed spec fn wf(&self) -> bool {
        &&& self.arr@.len() == RING_BUFFER_SIZE
        &&& self.head < RING_BUFFER_SIZE
        &&& self.tail < RING_BUFFER_SIZE
        &&& (self.status == RingBufferStatus::Empty ==> self.head == self.tail)
        &&& (self.status == RingBufferStatus::Full ==> self.head == self.tail)
        &&& (self.status == RingBufferStatus::Normal ==> self.head != self.tail)
    }
}

impl View for PipeRingBuffer {
    type V = Seq<u8>;

    /// The bytes held, oldest first.
    closed spec fn view(&self) -> Seq<u8> {
        Seq::new(self.count(), |i: int| self.arr@[(self.head + i) % (RING_BUFFER_SIZE as int)])
    }
}

impl PipeRingBuffer {
    /// An empty buffer.
    pub fn new() -> (rb: Self)
        ensures
            rb.wf(),
            rb@ == Seq::<u8>::empty(),
    {
        let rb = Self { arr: vec![0u8; RING_BUFFER_SIZE], head: 0, tail: 0, status: RingBufferStatus::Empty };
        assert(rb@ =~= Seq::<u8>::empty());
        rb
    }

    proof fn lemma_tail(&self)
        requires
            self.wf(),
        ensures
            self.tail == (self.head + self.count()) % (RING_BUFFER_SIZE as int),
            self.count() <= RING_BUFFER_SIZE,
            self@.len() == self.count(),
    {
    }

    /// Appends one byte.
    pub fn write_byte(&mut self, byte: u8)
        requires
            old(self).wf(),
            old(self)@.len() < RING_BUFFER_SIZE,
        ensures
            final(self).wf(),
            final(self)@ == old(self)@.push(byte),
    {
        proof { self.lemma_tail(); }
        let ghost old_self = *self;
        self.status = RingBufferStatus::Normal;
        self.arr.set(self.tail, byte);
        self.tail = (self.tail + 1) % RING_BUFFER_SIZE;
        if self.tail == self.head {
            self.status = RingBufferStatus::Full;
        }
        proof {
            let n = old_self.count();
            assert(self.count() == n + 1);
            assert forall|i: int| 0 <= i < n + 1 implies #[trigger] self@[i] == old_self@.push(byte)[i] by {
                if i < n {
                    assert((old_self.head + i) % 256 != old_self.tail);
                }
            }
            assert(self@ =~= old_self@.push(byte));
        }
    }

    /// Removes and returns the oldest byte.
    pub fn read_byte(&mut self) -> (c: u8)
        requires
            old(self).wf(),
            old(self)@.len() > 0,
        ensures
            final(self).wf(),
            c == old(self)@[0],
            final(self)@ == old(self)@.drop_first(),
    {
        proof { self.lemma_tail(); }
        let ghost old_self = *self;
        self.status = RingBufferStatus::Normal;
        let c = self.arr[self.head];
        self.head = (self.head + 1) % RING_BUFFER_SIZE;
        if self.head == self.tail {
            self.status = RingBufferStatus::Empty;
        }
        proof {
            let n = old_self.count();
            assert(self.count() == n - 1);
            assert forall|i: int| 0 <= i < n - 1 implies #[trigger] self@[i] == old_self@.drop_first()[i] by {
                assert((self.head + i) % 256 == (old_self.head + (i + 1)) % 256);
            }
            assert(self@ =~= old_self@.drop_first());
        }
        c
    }

    /// The number of bytes that can be read.
    pub fn available_read(&self) -> (n: usize)
        requires
            self.wf(),
        ensures
            n == self@.len(),
    {
        proof { self.lemma_tail(); }
        if matches!(self.status, RingBufferStatus::Empty) {
            0
        } else if self.tail > self.head {
            self.tail - self.head
        } else {
            self.tail + RING_BUFFER_SIZE - self.head
        }
    }

    /// The number of bytes that can be written.
    pub fn available_write(&self) -> (n: usize)
        requires
            self.wf(),
        ensures
            n == RING_BUFFER_SIZE - self@.len(),
    {
        proof { self.lemma_tail(); }
        if matches!(self.status, RingBufferStatus::Full) {
            0
        } else {
            RING_BUFFER_SIZE - self.available_read()
        }
    }
}

} // verus!

verus! {

/// Whether a file can be read or written without blocking.
#[derive(Debug, Clone, Copy, PartialEq, Eq, Structural)]
pub struct PollState {
    pub readable: bool,
    pub writable: bool,
}

/// One end of a pipe: the read end or the write end.
///
/// The byte queue the two ends share is held by the caller, which locks it
/// and hands it to each operation; whether the other end is gone
/// (`closed`) is told by the caller too.
#[derive(Debug, Clone, Copy, PartialEq, Eq, Structural)]
pub struct Pipe {
    readable: bool,
}

/// The outcome of one attempt to read from a pipe.
#[derive(Debug, PartialEq, Eq)]
pub enum PipeRead {
    /// The read is over: the bytes read, or the error.
    Ready(Result<Vec<u8>, SysError>),
    /// Nothing to read yet: yield, lock the buffer again, and retry.
    Blocked,
}

/// The outcome of one attempt to write to a pipe.
#[derive(Debug, Clone, Copy, PartialEq, Eq, Structural)]
pub enum PipeWrite {
    /// The write is over, with this many bytes written in all.
    Done(usize),
    /// This many bytes are written so far and the buffer is full: yield,
    /// lock the buffer again, and retry.
    Blocked(usize),
    /// This many bytes are written so far: lock the buffer again and go on.
    Again(usize),
}

impl Pipe {
    /// The read end and the write end of a new pipe.
    pub fn new() -> (ends: (Pipe, Pipe))
        ensures
            ends.0.readable(),
            !ends.1.readable(),
    {
        (Pipe { readable: true }, Pipe { readable: false })
    }

    pub closed spec fn spec_readable(&self) -> bool {
        self.readable
    }

    /// Whether this is the read end.
    #[verifier::when_used_as_spec(spec_readable)]
    pub fn readable(&self) -> (r: bool)
        ensures
            r == self.spec_readable(),
    {
        self.readable
    }

    /// Whether this is the write end.
    pub fn writable(&self) -> (r: bool)
        ensures
            r == !self.spec_readable(),
    {
        !self.readable
    }

    /// One attempt to read at most `buf_len` bytes from the shared buffer.
    ///
    /// The write end refuses with `EPERM`; an empty request reads nothing.
    /// Otherwise as many bytes as are held, up to `buf_len`, are taken; when
    /// none is held, the read ends with nothing if the write end is gone, and
    /// waits otherwise.
    pub fn read_step(&self, rb: &mut PipeRingBuffer, buf_len: usize, closed: bool) -> (r: PipeRead)
        requires
            old(rb).wf(),
        ensures
            final(rb).wf(),
            !self.spec_readable() ==> r == PipeRead::Ready(Err(SysError::EPERM)) && final(rb)@ == old(rb)@,
            self.spec_readable() && buf_len == 0 ==> r is Ready && r->Ready_0 is Ok && r->Ready_0->Ok_0@
                == Seq::<u8>::empty() && final(rb)@ == old(rb)@,
            self.spec_readable() && buf_len > 0 && old(rb)@.len() == 0 ==> final(rb)@ == old(rb)@ && (if closed {
                r is Ready && r->Ready_0 is Ok && r->Ready_0->Ok_0@ == Seq::<u8>::empty()
            } else {
                r is Blocked
            }),
            self.spec_readable() && buf_len > 0 && old(rb)@.len() > 0 ==> {
                let n = if old(rb)@.len() < buf_len { old(rb)@.len() } else { buf_len as nat };
                &&& r is Ready
                &&& r->Ready_0 is Ok
                &&& r->Ready_0->Ok_0@ == old(rb)@.take(n as int)
                &&& final(rb)@ == old(rb)@.skip(n as int)
            },
    {
        if !self.readable() {
            return PipeRead::Ready(Err(SysError::EPERM));
        }
        if buf_len == 0 {
            return PipeRead::Ready(Ok(Vec::new()));
        }
        let avail = rb.available_read();
        let read_size = if avail < buf_len { avail } else { buf_len };
        if read_size == 0 {
            if closed {
                return PipeRead::Ready(Ok(Vec::new()));
            }
            return PipeRead::Blocked;
        }
        let ghost old_view = rb@;
        let mut out: Vec<u8> = Vec::new();
        let mut i: usize = 0;
        while i < read_size
            invariant
                rb.wf(),
                i <= read_size,
                read_size <= old_view.len(),
                out@ == old_view.take(i as int),
                rb@ == old_view.skip(i as int),
            decreases read_size - i,
        {
            let c = rb.read_byte();
            out.push(c);
            i = i + 1;
            assert(out@ =~= old_view.take(i as int));
            assert(rb@ =~= old_view.skip(i as int));
        }
        PipeRead::Ready(Ok(out))
    }

    /// Whether a write may start: the read end refuses with `EPERM`, a pipe
    /// whose read end is gone refuses with `EPIPE`, and an empty write is
    /// over at once with nothing written. `None` means: go on with
    /// [`Pipe::write_step`].
    pub fn write_check(&self, buf_len: usize, closed: bool) -> (r: Option<Result<usize, SysError>>)
        ensures
            self.spec_readable() ==> r == Some(Err::<usize, SysError>(SysError::EPERM)),
            !self.spec_readable() && closed ==> r == Some(Err::<usize, SysError>(SysError::EPIPE)),
            !self.spec_readable() && !closed && buf_len == 0 ==> r == Some(Ok::<usize, SysError>(0)),
            !self.spec_readable() && !closed && buf_len > 0 ==> r is None,
    {
        if !self.writable() {
            return Some(Err(SysError::EPERM));
        }
        if closed {
            return Some(Err(SysError::EPIPE));
        }
        if buf_len == 0 {
            return Some(Ok(0));
        }
        None
    }

    /// One attempt to go on writing `buf`, of which the first `written` bytes
    /// are written already.
    ///
    /// When the buffer is full, the write ends if the read end is gone and
    /// waits otherwise. Else bytes are appended until either `buf` is used up,
    /// which ends the write, or the buffer's free space is used up, after
    /// which the caller locks again and goes on.
    pub fn write_step(&self, rb: &mut PipeRingBuffer, buf: &[u8], written: usize, closed: bool) -> (r: PipeWrite)
        requires
            old(rb).wf(),
            written <= buf@.len(),
        ensures
            final(rb).wf(),
            ({
                let free = RING_BUFFER_SIZE - old(rb)@.len();
                let rest = buf@.len() - written;
                if free == 0 {
                    &&& final(rb)@ == old(rb)@
                    &&& r == if closed { PipeWrite::Done(written) } else { PipeWrite::Blocked(written) }
                } else if rest < free {
                    &&& final(rb)@ == old(rb)@ + buf@.subrange(written as int, buf@.len() as int)
                    &&& r == PipeWrite::Done(buf@.len() as usize)
                } else {
                    &&& final(rb)@ == old(rb)@ + buf@.subrange(written as int, written + free)
                    &&& r == PipeWrite::Again((written + free) as usize)
                }
            }),
    {
        let loop_write = rb.available_write();
        let total_len = buf.len();
        if loop_write == 0 {
            if closed {
                return PipeWrite::Done(written);
            }
            return PipeWrite::Blocked(written);
        }
        let ghost old_view = rb@;
        let mut write_size = written;
        let mut i: usize = 0;
        while i < loop_write
            invariant
                rb.wf(),
                old_view == old(rb)@,
                i <= loop_write,
                loop_write == RING_BUFFER_SIZE - old_view.len(),
                write_size == written + i,
                write_size <= total_len,
                total_len == buf@.len(),
                rb@ == old_view + buf@.subrange(written as int, write_size as int),
            decreases loop_write - i,
        {
            if write_size == total_len {
                assert(buf@.len() - written < RING_BUFFER_SIZE - old_view.len());
                return PipeWrite::Done(write_size);
            }
            rb.write_byte(buf[write_size]);
            write_size = write_size + 1;
            i = i + 1;
            assert(rb@ =~= old_view + buf@.subrange(written as int, write_size as int));
        }
        PipeWrite::Again(write_size)
    }

    /// Whether this end can be used without blocking: the read end when bytes
    /// are held, the write end when there is free space.
    pub fn poll(&self, rb: &PipeRingBuffer) -> (p: PollState)
        requires
            rb.wf(),
        ensures
            p.readable == (self.spec_readable() && rb@.len() > 0),
            p.writable == (!self.spec_readable() && rb@.len() < RING_BUFFER_SIZE),
    {
        PollState {
            readable: self.readable() && rb.available_read() > 0,
            writable: self.writable() && rb.available_write() > 0,
        }
    }

    /// The status of a pipe: a FIFO readable and writable by its owner.
    pub fn stat(&self) -> (s: Kstat)
        ensures
            s == (Kstat { mode: S_IFIFO | 0o600u32, ..default_kstat() }),
    {
        let d = Kstat::default();
        Kstat { mode: S_IFIFO | 0o600u32, ..d }
    }
}

} // verus!

verus! {

/// What a pipe gives back of a write: bytes come out in the order they went
/// in, those already held first, and reading as many bytes as are held
/// empties the buffer.
pub proof fn lemma_read_returns_written(held: Seq<u8>, data: Seq<u8>)
    ensures
        (held + data).take(held.len() as int) == held,
        (held + data).skip(held.len() as int) == data,
        (held + data).take((held.len() + data.len()) as int) == held + data,
        (held + data).skip((held.len() + data.len()) as int) == Seq::<u8>::empty(),
{
    assert((held + data).take(held.len() as int) =~= held);
    assert((held + data).skip(held.len() as int) =~= data);
    assert((held + data).take((held.len() + data.len()) as int) =~= held + data);
    assert((held + data).skip((held.len() + data.len()) as int) =~= Seq::<u8>::empty());
}

} // verus!

verus! {

/// What a pipe keeps of a write in progress: the bytes read out of the
/// buffer since the write began, followed by those it still holds, are the
/// bytes it held when the write began followed by the first `written` bytes
/// of `buf`.
pub open spec fn stream_kept(read: Seq<u8>, held: Seq<u8>, start: Seq<u8>, buf: Seq<u8>, written: int) -> bool {
    read + held == start + buf.take(written)
}

/// A write begins with nothing read and nothing of `buf` written.
pub proof fn lemma_stream_begins(start: Seq<u8>, buf: Seq<u8>)
    ensures
        stream_kept(Seq::empty(), start, start, buf, 0),
{
    assert(Seq::<u8>::empty() + start =~= start + buf.take(0));
}

/// A write step, which appends `buf`'s bytes from `written` to `next` to the
/// buffer (`Pipe::write_step`), keeps the stream: no byte of `buf` is lost,
/// doubled or moved.
pub proof fn lemma_write_step_keeps_stream(
    read: Seq<u8>,
    held: Seq<u8>,
    start: Seq<u8>,
    buf: Seq<u8>,
    written: int,
    next: int,
)
    requires
        stream_kept(read, held, start, buf, written),
        0 <= written <= next <= buf.len(),
    ensures
        stream_kept(read, held + buf.subrange(written, next), start, buf, next),
{
    let mid = buf.subrange(written, next);
    assert(buf.take(next) =~= buf.take(written) + mid);
    assert(read + (held + mid) =~= (read + held) + mid);
    assert((start + buf.take(written)) + mid =~= start + (buf.take(written) + mid));
}

/// A read step, which takes the first `n` bytes the buffer holds
/// (`Pipe::read_step`), keeps the stream.
pub proof fn lemma_read_step_keeps_stream(
    read: Seq<u8>,
    held: Seq<u8>,
    start: Seq<u8>,
    buf: Seq<u8>,
    written: int,
    n: int,
)
    requires
        stream_kept(read, held, start, buf, written),
        0 <= n <= held.len(),
    ensures
        stream_kept(read + held.take(n), held.skip(n), start, buf, written),
{
    assert(read + held.take(n) + held.skip(n) =~= read + held);
}

/// When the write is done, `Done(buf.len())`, and the reads have emptied the
/// buffer, they gave back what it held when the write began, then all of
/// `buf`, in order.
pub proof fn lemma_stream_done(read: Seq<u8>, start: Seq<u8>, buf: Seq<u8>)
    requires
        stream_kept(read, Seq::empty(), start, buf, buf.len() as int),
    ensures
        read == start + buf,
{
    assert(buf.take(buf.len() as int) =~= buf);
    assert(read + Seq::<u8>::empty() =~= read);
}

} // verus!

verus! {

/// What happens to a pipe's buffer while a write is in progress: a write
/// step that brings the bytes written up to the given count
/// (`Pipe::write_step`), or a read step that takes the given number of the
/// oldest bytes (`Pipe::read_step`).
pub ghost enum StreamEvent {
    Wrote(int),
    Read(int),
}

/// The bytes read and the bytes held after `events`, from `read` and `held`
/// with the first `written` bytes of `buf` written; `None` when an event is
/// not one the steps can make (a write that goes back or past `buf`'s end, a
/// read of more than is held).
pub open spec fn stream_run(read: Seq<u8>, held: Seq<u8>, buf: Seq<u8>, written: int, events: Seq<StreamEvent>) -> Option<
    (Seq<u8>, Seq<u8>, int),
>
    decreases events.len(),
{
    if events.len() == 0 {
        Some((read, held, written))
    } else {
        match events[0] {
            StreamEvent::Wrote(next) => if written <= next <= buf.len() {
                stream_run(read, held + buf.subrange(written, next), buf, next, events.drop_first())
            } else {
                None
            },
            StreamEvent::Read(n) => if 0 <= n <= held.len() {
                stream_run(read + held.take(n), held.skip(n), buf, written, events.drop_first())
            } else {
                None
            },
        }
    }
}

/// A whole write, the reads between its steps included: from a buffer that
/// holds `start`, any run of write and read steps keeps the stream; and when
/// the write has written all of `buf` and the reads have emptied the buffer,
/// they gave back `start` and then `buf`, with no byte lost, doubled or moved.
pub proof fn lemma_write_run(start: Seq<u8>, buf: Seq<u8>, events: Seq<StreamEvent>)
    requires
        stream_run(Seq::empty(), start, buf, 0, events) is Some,
    ensures
        ({
            let (read, held, written) = stream_run(Seq::empty(), start, buf, 0, events)->Some_0;
            &&& stream_kept(read, held, start, buf, written)
            &&& written == buf.len() && held.len() == 0 ==> read == start + buf
        }),
{
    lemma_stream_begins(start, buf);
    lemma_stream_run_keeps(Seq::empty(), start, start, buf, 0, events);
    let (read, held, written) = stream_run(Seq::empty(), start, buf, 0, events)->Some_0;
    if written == buf.len() && held.len() == 0 {
        assert(held =~= Seq::<u8>::empty());
        lemma_stream_done(read, start, buf);
    }
}

proof fn lemma_stream_run_keeps(
    read: Seq<u8>,
    held: Seq<u8>,
    start: Seq<u8>,
    buf: Seq<u8>,
    written: int,
    events: Seq<StreamEvent>,
)
    requires
        stream_kept(read, held, start, buf, written),
        0 <= written <= buf.len(),
        stream_run(read, held, buf, written, events) is Some,
    ensures
        ({
            let (r, h, w) = stream_run(read, held, buf, written, events)->Some_0;
            stream_kept(r, h, start, buf, w) && 0 <= w <= buf.len()
        }),
    decreases events.len(),
{
    if events.len() > 0 {
        match events[0] {
            StreamEvent::Wrote(next) => {
                lemma_write_step_keeps_stream(read, held, start, buf, written, next);
                lemma_stream_run_keeps(
                    read,
                    held + buf.subrange(written, next),
                    start,
                    buf,
                    next,
                    events.drop_first(),
                );
            },
            StreamEvent::Read(n) => {
                lemma_read_step_keeps_stream(read, held, start, buf, written, n);
                lemma_stream_run_keeps(read + held.take(n), held.skip(n), start, buf, written, events.drop_first());
            },
        }
    }
}

} // verus!
