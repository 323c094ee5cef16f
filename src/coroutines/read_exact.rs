//! I/O-free coroutine to read bytes into a buffer until it holds a
//! given number of bytes.

use vstd::prelude::*;

use crate::coroutines::read::{read_step, ReadStream, ReadStreamError, ReadStreamResult, ReadView};
use crate::io::{append_bytes, arg_view, arg_wf, zeros, IoView, OutputView, StreamIo};
use crate::runtimes::serve_from;

verus! {

/// Errors that can occur during the coroutine progression.
#[derive(Clone, Debug)]
pub enum ReadStreamExactError {
    /// The stream ended early: how many bytes were still missing, how
    /// many were expected, and the bytes read so far.
    UnexpectedEof(usize, usize, Vec<u8>),
    /// Error from the inner read coroutine.
    Read(ReadStreamError),
}

/// Output emitted after a coroutine made progress.
#[derive(Clone, Debug)]
pub enum ReadStreamExactResult {
    /// The coroutine read all the bytes it was asked for.
    Done(Vec<u8>),
    /// A read needs to be performed to make the coroutine progress.
    Io(StreamIo),
    /// An error occurred during the coroutine progression.
    Error(ReadStreamExactError),
}

/// What a [`ReadStreamExactError`] holds, as mathematical values.
pub enum ExactErrorView {
    UnexpectedEof(nat, nat, Seq<u8>),
    /// The response that the inner read coroutine refused.
    Read(IoView),
}

/// What a [`ReadStreamExactResult`] holds, as mathematical values.
pub enum ExactResultView {
    Done(Seq<u8>),
    Io(IoView),
    Error(ExactErrorView),
}

impl View for ReadStreamExactResult {
    type V = ExactResultView;

    open spec fn view(&self) -> ExactResultView {
        match self {
            ReadStreamExactResult::Done(b) => ExactResultView::Done(b@),
            ReadStreamExactResult::Io(io) => ExactResultView::Io(io@),
            ReadStreamExactResult::Error(ReadStreamExactError::UnexpectedEof(rem, max, b)) => {
                ExactResultView::Error(ExactErrorView::UnexpectedEof(rem as nat, max as nat, b@))
            },
            ReadStreamExactResult::Error(
                ReadStreamExactError::Read(ReadStreamError::InvalidArgument(_, io)),
            ) => ExactResultView::Error(ExactErrorView::Read(io@)),
        }
    }
}

/// The state of a [`ReadStreamExact`]: the bytes gathered so far, the
/// number of bytes to gather and the capacity of the inner read.
pub struct ExactView {
    pub buffer: Seq<u8>,
    pub max: nat,
    pub capacity: nat,
}

/// The smaller of two numbers.
pub open spec fn min(a: nat, b: nat) -> nat {
    if a < b {
        a
    } else {
        b
    }
}

/// A fresh coroutine: nothing gathered, and an inner read no larger
/// than the target.
pub open spec fn exact_init(capacity: nat, max: nat) -> ExactView {
    ExactView { buffer: Seq::empty(), max, capacity: min(capacity, max) }
}

/// A step without a response: hand out the gathered bytes once there
/// are enough of them, else request a read of at most what is missing.
pub open spec fn exact_poll(s: ExactView) -> (ExactView, ExactResultView) {
    if s.buffer.len() >= s.max {
        (ExactView { buffer: Seq::empty(), ..s }, ExactResultView::Done(s.buffer))
    } else {
        let c = min(s.capacity, (s.max - s.buffer.len()) as nat);
        (ExactView { capacity: c, ..s }, ExactResultView::Io(IoView::Read(Err(zeros(c)))))
    }
}

/// One step of the coroutine: the next state and what it hands back.
///
/// Once enough bytes are gathered they are handed out. Otherwise the
/// inner read is shrunk to what is missing and resumed: read bytes are
/// gathered, their buffer is recycled and the coroutine goes on without
/// a response; the end of the stream hands out the deficit, the target
/// and the bytes gathered; requests and errors are passed on.
pub open spec fn exact_step(s: ExactView, arg: Option<IoView>) -> (ExactView, ExactResultView) {
    if s.buffer.len() >= s.max {
        exact_poll(s)
    } else {
        let rem = (s.max - s.buffer.len()) as nat;
        let c = min(s.capacity, rem);
        match read_step(c, arg) {
            ReadView::Done(o) => exact_poll(
                ExactView { buffer: s.buffer + o.bytes(), max: s.max, capacity: o.buffer.len() },
            ),
            ReadView::Io(io) => (ExactView { capacity: c, ..s }, ExactResultView::Io(io)),
            ReadView::Eof => (
                ExactView { buffer: Seq::empty(), max: s.max, capacity: c },
                ExactResultView::Error(ExactErrorView::UnexpectedEof(rem, s.max, s.buffer)),
            ),
            ReadView::Error(io) => (
                ExactView { capacity: c, ..s },
                ExactResultView::Error(ExactErrorView::Read(io)),
            ),
        }
    }
}

/// Drives the coroutine from state `s`, resumed with `arg`, against a
/// runtime reading from the in-memory source `src`, which reads at most
/// `chunks[i]` bytes on the `i`-th request. Gives what the coroutine
/// finally hands back other than a request, and what is left of the
/// source; `None` when the chunks run out first.
pub open spec fn drive_exact(s: ExactView, arg: Option<IoView>, src: Seq<u8>, chunks: Seq<nat>) -> Option<
    (ExactResultView, Seq<u8>),
>
    decreases chunks.len(),
{
    let (next, r) = exact_step(s, arg);
    match r {
        ExactResultView::Io(io) => if chunks.len() == 0 {
            None
        } else {
            let (resp, rest) = serve_from(src, io, chunks[0]);
            drive_exact(next, Some(resp), rest, chunks.drop_first())
        },
        _ => Some((r, src)),
    }
}

/// What reading exactly up to `max` bytes, with `acc` already gathered,
/// gives against the source `src` when every read gets at least one
/// byte while the source has any: the bytes missing are taken from the
/// front of the source and the rest is left; a source too short is
/// read whole and reported with the deficit.
pub open spec fn exact_outcome(acc: Seq<u8>, max: nat, src: Seq<u8>) -> (ExactResultView, Seq<u8>) {
    if acc.len() + src.len() >= max {
        let k = max - acc.len();
        (ExactResultView::Done(acc + src.subrange(0, k)), src.subrange(k, src.len() as int))
    } else {
        (
            ExactResultView::Error(
                ExactErrorView::UnexpectedEof((max - acc.len() - src.len()) as nat, max, acc + src),
            ),
            Seq::empty(),
        )
    }
}

proof fn lemma_drive_exact(acc: Seq<u8>, max: nat, capacity: nat, src: Seq<u8>, chunks: Seq<nat>)
    requires
        acc.len() <= max,
        capacity > 0,
        chunks.len() > src.len(),
        forall|i: int| 0 <= i < chunks.len() ==> chunks[i] > 0,
    ensures
        drive_exact(ExactView { buffer: acc, max, capacity }, None, src, chunks) == Some(
            exact_outcome(acc, max, src),
        ),
    decreases chunks.len(),
{
    let s = ExactView { buffer: acc, max, capacity };
    if acc.len() < max {
        let rem = (max - acc.len()) as nat;
        let c = min(capacity, rem);
        let s1 = ExactView { buffer: acc, max, capacity: c };
        let req = IoView::Read(Err(zeros(c)));
        assert(exact_step(s, None) == (s1, ExactResultView::Io(req)));
        let (resp, rest) = serve_from(src, req, chunks[0]);
        let n = src.len() - rest.len();
        let tail = chunks.drop_first();
        assert(drive_exact(s, None, src, chunks) == drive_exact(s1, Some(resp), rest, tail));
        if n == 0 {
            assert(acc + src =~= acc);
        } else {
            let acc2 = acc + src.subrange(0, n);
            let o = OutputView {
                buffer: src.subrange(0, n) + zeros(c).subrange(n, c as int),
                bytes_count: n as nat,
            };
            assert(o.bytes() =~= src.subrange(0, n));
            let s2 = ExactView { buffer: acc2, max, capacity: c };
            assert(exact_step(s1, Some(resp)) == exact_poll(s2));
            if acc2.len() >= max {
                assert(src.subrange(n, src.len() as int) =~= rest);
            } else {
                assert(exact_step(s2, None) == exact_poll(s2));
                assert(drive_exact(s1, Some(resp), rest, tail) == drive_exact(s2, None, rest, tail));
                assert forall|i: int| 0 <= i < tail.len() implies tail[i] > 0 by {
                    assert(tail[i] == chunks[i + 1]);
                }
                lemma_drive_exact(acc2, max, c, rest, tail);
                if acc2.len() + rest.len() >= max {
                    let k = max - acc2.len();
                    assert(acc2 + rest.subrange(0, k) =~= acc + src.subrange(0, max - acc.len()));
                    assert(rest.subrange(k, rest.len() as int) =~= src.subrange(
                        max - acc.len(),
                        src.len() as int,
                    ));
                } else {
                    assert(acc2 + rest =~= acc + src);
                }
            }
        }
    } else {
        assert(src.subrange(0, 0) =~= Seq::<u8>::empty());
        assert(acc + Seq::<u8>::empty() =~= acc);
        assert(src.subrange(0, src.len() as int) =~= src);
    }
}

/// Reading exactly `max` bytes takes exactly those: against a source
/// of `L` bytes whose runtime reads at least one byte while any is
/// left, a fresh coroutine whose read buffer is not empty hands out the
/// first `max` bytes and leaves the other `L - max` unread when
/// `L >= max`, and otherwise reads the whole source and fails with the
/// `max - L` bytes missing, the target and the `L` bytes read.
pub proof fn lemma_read_exact_exactness(capacity: nat, max: nat, src: Seq<u8>, chunks: Seq<nat>)
    requires
        capacity > 0 || max == 0,
        chunks.len() > src.len(),
        forall|i: int| 0 <= i < chunks.len() ==> chunks[i] > 0,
    ensures
        drive_exact(exact_init(capacity, max), None, src, chunks) == Some(
            exact_outcome(Seq::empty(), max, src),
        ),
{
    if max == 0 {
        assert(src.subrange(0, 0) =~= Seq::<u8>::empty());
        assert(Seq::<u8>::empty() + Seq::<u8>::empty() =~= Seq::<u8>::empty());
        assert(src.subrange(0, src.len() as int) =~= src);
    } else {
        lemma_drive_exact(Seq::empty(), max, min(capacity, max), src, chunks);
    }
}

/// Reading an exact number of bytes neither loses nor duplicates a
/// byte: however the runtime splits the source into reads, a run that
/// ends with the bytes handed out, or with the end of the stream,
/// gives the bytes gathered beforehand followed by exactly the part of
/// the source that was read, and the rest of the source is untouched.
pub proof fn lemma_read_exact_conserves(s: ExactView, src: Seq<u8>, chunks: Seq<nat>)
    ensures
        match drive_exact(s, None, src, chunks) {
            Some((ExactResultView::Done(out), rest)) => {
                &&& rest.len() <= src.len()
                &&& rest == src.subrange(src.len() - rest.len(), src.len() as int)
                &&& out == s.buffer + src.subrange(0, src.len() - rest.len())
            },
            Some((ExactResultView::Error(ExactErrorView::UnexpectedEof(_, _, out)), rest)) => {
                &&& rest.len() <= src.len()
                &&& rest == src.subrange(src.len() - rest.len(), src.len() as int)
                &&& out == s.buffer + src.subrange(0, src.len() - rest.len())
            },
            _ => true,
        },
    decreases chunks.len(),
{
    assert(src.subrange(0, 0) =~= Seq::<u8>::empty());
    assert(s.buffer + Seq::<u8>::empty() =~= s.buffer);
    assert(src.subrange(0, src.len() as int) =~= src);
    if s.buffer.len() < s.max && chunks.len() > 0 {
        let rem = (s.max - s.buffer.len()) as nat;
        let c = min(s.capacity, rem);
        let s1 = ExactView { buffer: s.buffer, max: s.max, capacity: c };
        let req = IoView::Read(Err(zeros(c)));
        assert(exact_step(s, None) == (s1, ExactResultView::Io(req)));
        let (resp, rest) = serve_from(src, req, chunks[0]);
        let n = src.len() - rest.len();
        let tail = chunks.drop_first();
        assert(drive_exact(s, None, src, chunks) == drive_exact(s1, Some(resp), rest, tail));
        if n > 0 {
            let acc2 = s.buffer + src.subrange(0, n);
            let o = OutputView {
                buffer: src.subrange(0, n) + zeros(c).subrange(n, c as int),
                bytes_count: n as nat,
            };
            assert(o.bytes() =~= src.subrange(0, n));
            let s2 = ExactView { buffer: acc2, max: s.max, capacity: c };
            assert(exact_step(s1, Some(resp)) == exact_poll(s2));
            if acc2.len() >= s.max {
                assert(src.subrange(n, src.len() as int) =~= rest);
            } else {
                assert(exact_step(s2, None) == exact_poll(s2));
                assert(drive_exact(s1, Some(resp), rest, tail) == drive_exact(s2, None, rest, tail));
                lemma_read_exact_conserves(s2, rest, tail);
                match drive_exact(s2, None, rest, tail) {
                    Some((ExactResultView::Done(out), rest2)) => {
                        assert(rest2 =~= src.subrange(src.len() - rest2.len(), src.len() as int));
                        assert(out =~= s.buffer + src.subrange(0, src.len() - rest2.len()));
                    },
                    Some((ExactResultView::Error(ExactErrorView::UnexpectedEof(_, _, out)), rest2)) => {
                        assert(rest2 =~= src.subrange(src.len() - rest2.len(), src.len() as int));
                        assert(out =~= s.buffer + src.subrange(0, src.len() - rest2.len()));
                    },
                    _ => {},
                }
            }
        }
    }
}

/// I/O-free coroutine to read bytes into a buffer until it holds a
/// given number of bytes.
#[derive(Debug)]
pub struct ReadStreamExact {
    read: ReadStream,
    buffer: Vec<u8>,
    max: usize,
}

impl View for ReadStreamExact {
    type V = ExactView;

    closed spec fn view(&self) -> ExactView {
        ExactView { buffer: self.buffer@, max: self.max as nat, capacity: self.read@ }
    }
}

impl ReadStreamExact {
    /// The inner read coroutine is well formed.
    pub closed spec fn wf(&self) -> bool {
        self.read.wf()
    }

    /// Creates a coroutine to read `max` bytes with a buffer of
    /// [`ReadStream::DEFAULT_CAPACITY`] bytes.
    pub fn new(max: usize) -> (r: Self)
        ensures
            r.wf(),
            r@ == exact_init(ReadStream::DEFAULT_CAPACITY as nat, max as nat),
    {
        Self::with_capacity(ReadStream::DEFAULT_CAPACITY, max)
    }

    /// Creates a coroutine to read `max` bytes with a buffer of
    /// `capacity` bytes.
    pub fn with_capacity(capacity: usize, max: usize) -> (r: Self)
        ensures
            r.wf(),
            r@ == exact_init(capacity as nat, max as nat),
    {
        let read = ReadStream::with_capacity(if capacity < max { capacity } else { max });
        Self { read, buffer: Vec::new(), max }
    }

    /// Adds bytes that are already known to the gathered ones.
    pub fn extend(&mut self, bytes: Vec<u8>)
        requires
            old(self).wf(),
        ensures
            final(self).wf(),
            final(self)@ == (ExactView { buffer: old(self)@.buffer + bytes@, ..old(self)@ }),
    {
        append_bytes(&mut self.buffer, bytes.as_slice());
    }

    /// Makes the coroutine progress.
    pub fn resume(&mut self, arg: Option<StreamIo>) -> (r: ReadStreamExactResult)
        requires
            old(self).wf(),
            arg_wf(arg),
        ensures
            final(self).wf(),
            (final(self)@, r@) == exact_step(old(self)@, arg_view(arg)),
    {
        let ghost goal = exact_step(self@, arg_view(arg));
        let mut pending = arg;
        loop
            invariant
                self.wf(),
                arg_wf(pending),
                goal == exact_step(old(self)@, arg_view(arg)),
                exact_step(self@, arg_view(pending)) == goal,
            decreases
                if pending is Some { 1int } else { 0int },
        {
            if self.buffer.len() >= self.max {
                let mut buffer: Vec<u8> = Vec::new();
                core::mem::swap(&mut buffer, &mut self.buffer);
                return ReadStreamExactResult::Done(buffer);
            }
            let remaining = self.max - self.buffer.len();
            if remaining < self.read.capacity() {
                self.read.truncate(remaining);
            }
            let output = match self.read.resume(pending.take()) {
                ReadStreamResult::Done(output) => output,
                ReadStreamResult::Error(err) => {
                    return ReadStreamExactResult::Error(ReadStreamExactError::Read(err));
                },
                ReadStreamResult::Io(io) => {
                    return ReadStreamExactResult::Io(io);
                },
                ReadStreamResult::Eof => {
                    let mut buffer: Vec<u8> = Vec::new();
                    core::mem::swap(&mut buffer, &mut self.buffer);
                    return ReadStreamExactResult::Error(
                        ReadStreamExactError::UnexpectedEof(remaining, self.max, buffer),
                    );
                },
            };
            append_bytes(&mut self.buffer, output.bytes());
            self.read.replace(output.buffer);
        }
    }
}

} // verus!
