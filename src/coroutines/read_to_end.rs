//! I/O-free coroutine to read bytes into a buffer until the end of the
//! stream.

use vstd::prelude::*;

use crate::coroutines::read::{read_step, ReadStream, ReadStreamError, ReadStreamResult, ReadView};
use crate::io::{append_bytes, arg_view, arg_wf, zeros, IoView, OutputView, StreamIo};
use crate::runtimes::serve_from;

verus! {

/// Errors that can occur during the coroutine progression.
#[derive(Clone, Debug)]
pub enum ReadStreamToEndError {
    /// Error from the inner read coroutine.
    Read(ReadStreamError),
}

/// Output emitted after a coroutine made progress.
#[derive(Clone, Debug)]
pub enum ReadStreamToEndResult {
    /// The stream ended; all the bytes read.
    Done(Vec<u8>),
    /// A read needs to be performed to make the coroutine progress.
    Io(StreamIo),
    /// An error occurred during the coroutine progression.
    Error(ReadStreamToEndError),
}

/// What a [`ReadStreamToEndResult`] holds, as mathematical values. An
/// error is represented by the response that the inner read refused.
pub enum ToEndResultView {
    Done(Seq<u8>),
    Io(IoView),
    Error(IoView),
}

impl View for ReadStreamToEndResult {
    type V = ToEndResultView;

    open spec fn view(&self) -> ToEndResultView {
        match self {
            ReadStreamToEndResult::Done(b) => ToEndResultView::Done(b@),
            ReadStreamToEndResult::Io(io) => ToEndResultView::Io(io@),
            ReadStreamToEndResult::Error(
                ReadStreamToEndError::Read(ReadStreamError::InvalidArgument(_, io)),
            ) => ToEndResultView::Error(io@),
        }
    }
}

/// The state of a [`ReadStreamToEnd`]: the bytes gathered so far and
/// the capacity of the inner read.
pub struct ToEndView {
    pub buffer: Seq<u8>,
    pub capacity: nat,
}

/// A fresh coroutine: nothing gathered yet.
pub open spec fn to_end_init(capacity: nat) -> ToEndView {
    ToEndView { buffer: Seq::empty(), capacity }
}

/// One step of the coroutine: the next state and what it hands back.
///
/// The inner read is resumed: read bytes are gathered, their buffer is
/// recycled and a new read is requested; the end of the stream hands
/// out every byte gathered; requests and errors are passed on.
pub open spec fn to_end_step(s: ToEndView, arg: Option<IoView>) -> (ToEndView, ToEndResultView) {
    match read_step(s.capacity, arg) {
        ReadView::Done(o) => (
            ToEndView { buffer: s.buffer + o.bytes(), capacity: o.buffer.len() },
            ToEndResultView::Io(IoView::Read(Err(zeros(o.buffer.len())))),
        ),
        ReadView::Io(io) => (s, ToEndResultView::Io(io)),
        ReadView::Eof => (
            ToEndView { buffer: Seq::empty(), capacity: s.capacity },
            ToEndResultView::Done(s.buffer),
        ),
        ReadView::Error(io) => (s, ToEndResultView::Error(io)),
    }
}

/// Drives the coroutine from state `s`, resumed with `arg`, against a
/// runtime reading from the in-memory source `src`, which reads at most
/// `chunks[i]` bytes on the `i`-th request. Gives what the coroutine
/// finally hands back other than a request, and what is left of the
/// source; `None` when the chunks run out first.
pub open spec fn drive_to_end(s: ToEndView, arg: Option<IoView>, src: Seq<u8>, chunks: Seq<nat>) -> Option<
    (ToEndResultView, Seq<u8>),
>
    decreases chunks.len(),
{
    let (next, r) = to_end_step(s, arg);
    match r {
        ToEndResultView::Io(io) => if chunks.len() == 0 {
            None
        } else {
            let (resp, rest) = serve_from(src, io, chunks[0]);
            drive_to_end(next, Some(resp), rest, chunks.drop_first())
        },
        _ => Some((r, src)),
    }
}

/// Reading to the end neither loses nor duplicates a byte: however the
/// runtime splits the source into reads, a run that ends with the bytes
/// handed out gives the bytes the coroutine was seeded with followed by
/// exactly the part of the source that was read, and the rest of the
/// source is untouched.
pub proof fn lemma_read_to_end_conserves(seed: Seq<u8>, capacity: nat, src: Seq<u8>, chunks: Seq<nat>)
    ensures
        match drive_to_end(ToEndView { buffer: seed, capacity }, None, src, chunks) {
            Some((ToEndResultView::Done(out), rest)) => {
                &&& rest.len() <= src.len()
                &&& rest == src.subrange(src.len() - rest.len(), src.len() as int)
                &&& out == seed + src.subrange(0, src.len() - rest.len())
            },
            _ => true,
        },
    decreases chunks.len(),
{
    let s = ToEndView { buffer: seed, capacity };
    let req = IoView::Read(Err(zeros(capacity)));
    assert(to_end_step(s, None) == (s, ToEndResultView::Io(req)));
    if chunks.len() > 0 {
        let (resp, rest) = serve_from(src, req, chunks[0]);
        let n = src.len() - rest.len();
        let tail = chunks.drop_first();
        if n == 0 {
            assert(src.subrange(0, 0) =~= Seq::<u8>::empty());
            assert(seed + Seq::<u8>::empty() =~= seed);
            assert(src.subrange(0, src.len() as int) =~= src);
        } else {
            let next = ToEndView { buffer: seed + src.subrange(0, n), capacity };
            let o = OutputView {
                buffer: src.subrange(0, n) + zeros(capacity).subrange(n, capacity as int),
                bytes_count: n as nat,
            };
            assert(o.bytes() =~= src.subrange(0, n));
            assert(to_end_step(s, Some(resp)) == (next, ToEndResultView::Io(req)));
            assert(drive_to_end(s, Some(resp), rest, tail) == drive_to_end(next, None, rest, tail));
            lemma_read_to_end_conserves(seed + src.subrange(0, n), capacity, rest, tail);
            match drive_to_end(next, None, rest, tail) {
                Some((ToEndResultView::Done(out), rest2)) => {
                    assert(rest2 =~= src.subrange(src.len() - rest2.len(), src.len() as int));
                    assert(out =~= seed + src.subrange(0, src.len() - rest2.len()));
                },
                _ => {},
            }
        }
    }
}

/// Reading to the end reads the whole source: when the runtime reads
/// at least one byte while the source has any, and is asked often
/// enough, a coroutine whose read buffer is not empty hands out the
/// bytes it was seeded with followed by the whole source.
pub proof fn lemma_read_to_end_reads_all(seed: Seq<u8>, capacity: nat, src: Seq<u8>, chunks: Seq<nat>)
    requires
        capacity > 0,
        chunks.len() > src.len(),
        forall|i: int| 0 <= i < chunks.len() ==> chunks[i] > 0,
    ensures
        drive_to_end(ToEndView { buffer: seed, capacity }, None, src, chunks) == Some(
            (ToEndResultView::Done(seed + src), Seq::<u8>::empty()),
        ),
    decreases chunks.len(),
{
    let s = ToEndView { buffer: seed, capacity };
    let req = IoView::Read(Err(zeros(capacity)));
    assert(to_end_step(s, None) == (s, ToEndResultView::Io(req)));
    let (resp, rest) = serve_from(src, req, chunks[0]);
    let n = src.len() - rest.len();
    let tail = chunks.drop_first();
    if n == 0 {
        assert(seed + src =~= seed);
        assert(rest =~= Seq::<u8>::empty());
    } else {
        let next = ToEndView { buffer: seed + src.subrange(0, n), capacity };
        let o = OutputView {
            buffer: src.subrange(0, n) + zeros(capacity).subrange(n, capacity as int),
            bytes_count: n as nat,
        };
        assert(o.bytes() =~= src.subrange(0, n));
        assert(to_end_step(s, Some(resp)) == (next, ToEndResultView::Io(req)));
        assert(drive_to_end(s, Some(resp), rest, tail) == drive_to_end(next, None, rest, tail));
        assert forall|i: int| 0 <= i < tail.len() implies tail[i] > 0 by {
            assert(tail[i] == chunks[i + 1]);
        }
        lemma_read_to_end_reads_all(seed + src.subrange(0, n), capacity, rest, tail);
        assert(seed + src.subrange(0, n) + rest =~= seed + src);
    }
}

/// I/O-free coroutine to read bytes into a buffer until the end of the
/// stream.
#[derive(Debug)]
pub struct ReadStreamToEnd {
    read: ReadStream,
    buffer: Vec<u8>,
}

impl View for ReadStreamToEnd {
    type V = ToEndView;

    closed spec fn view(&self) -> ToEndView {
        ToEndView { buffer: self.buffer@, capacity: self.read@ }
    }
}

impl ReadStreamToEnd {
    /// The inner read coroutine is well formed.
    pub closed spec fn wf(&self) -> bool {
        self.read.wf()
    }

    /// Creates a coroutine reading with a buffer of
    /// [`ReadStream::DEFAULT_CAPACITY`] bytes.
    pub fn new() -> (r: Self)
        ensures
            r.wf(),
            r@ == to_end_init(ReadStream::DEFAULT_CAPACITY as nat),
    {
        Self::with_capacity(ReadStream::DEFAULT_CAPACITY)
    }

    /// Creates a coroutine reading with a buffer of `capacity` bytes.
    pub fn with_capacity(capacity: usize) -> (r: Self)
        ensures
            r.wf(),
            r@ == to_end_init(capacity as nat),
    {
        let read = ReadStream::with_capacity(capacity);
        Self { read, buffer: Vec::new() }
    }

    /// Adds bytes that are already known to the gathered ones.
    pub fn extend(&mut self, bytes: Vec<u8>)
        requires
            old(self).wf(),
        ensures
            final(self).wf(),
            final(self)@ == (ToEndView { buffer: old(self)@.buffer + bytes@, ..old(self)@ }),
    {
        append_bytes(&mut self.buffer, bytes.as_slice());
    }

    /// Makes the coroutine progress.
    pub fn resume(&mut self, arg: Option<StreamIo>) -> (r: ReadStreamToEndResult)
        requires
            old(self).wf(),
            arg_wf(arg),
        ensures
            final(self).wf(),
            (final(self)@, r@) == to_end_step(old(self)@, arg_view(arg)),
    {
        let ghost goal = to_end_step(self@, arg_view(arg));
        let mut pending = arg;
        loop
            invariant
                self.wf(),
                arg_wf(pending),
                goal == to_end_step(old(self)@, arg_view(arg)),
                to_end_step(self@, arg_view(pending)) == goal,
            decreases
                if pending is Some { 1int } else { 0int },
        {
            let output = match self.read.resume(pending.take()) {
                ReadStreamResult::Done(output) => output,
                ReadStreamResult::Error(err) => {
                    return ReadStreamToEndResult::Error(ReadStreamToEndError::Read(err));
                },
                ReadStreamResult::Io(io) => {
                    return ReadStreamToEndResult::Io(io);
                },
                ReadStreamResult::Eof => {
                    let mut buffer: Vec<u8> = Vec::new();
                    core::mem::swap(&mut buffer, &mut self.buffer);
                    return ReadStreamToEndResult::Done(buffer);
                },
            };
            append_bytes(&mut self.buffer, output.bytes());
            self.read.replace(output.buffer);
        }
    }
}

impl Default for ReadStreamToEnd {
    fn default() -> (r: Self)
        ensures
            r.wf(),
            r@ == to_end_init(ReadStream::DEFAULT_CAPACITY as nat),
    {
        Self::new()
    }
}

} // verus!
