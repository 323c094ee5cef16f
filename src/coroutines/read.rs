//! I/O-free coroutine to read bytes into a buffer.

use vstd::prelude::*;

use crate::io::{arg_view, zeros, IoView, OutputView, StreamIo, StreamOutput};
use crate::runtimes::serve_from;

verus! {

/// Errors that can occur during the coroutine progression.
#[derive(Clone, Debug)]
pub enum ReadStreamError {
    /// The coroutine received a response to another kind of request,
    /// which a runtime that maps its arguments correctly never sends.
    InvalidArgument(&'static str, StreamIo),
}

/// Output emitted after a coroutine made progress.
#[derive(Clone, Debug)]
pub enum ReadStreamResult {
    /// Bytes were read.
    Done(StreamOutput),
    /// A read needs to be performed to make the coroutine progress.
    Io(StreamIo),
    /// The stream reached its end; only the caller can tell whether
    /// that is an error.
    Eof,
    /// An error occurred during the coroutine progression.
    Error(ReadStreamError),
}

/// What a [`ReadStreamResult`] holds, as mathematical values. An
/// invalid argument is represented by the response that was refused.
pub enum ReadView {
    Done(OutputView),
    Io(IoView),
    Eof,
    Error(IoView),
}

impl View for ReadStreamResult {
    type V = ReadView;

    open spec fn view(&self) -> ReadView {
        match self {
            ReadStreamResult::Done(o) => ReadView::Done(o@),
            ReadStreamResult::Io(io) => ReadView::Io(io@),
            ReadStreamResult::Eof => ReadView::Eof,
            ReadStreamResult::Error(ReadStreamError::InvalidArgument(_, io)) => ReadView::Error(io@),
        }
    }
}

/// One step of a read coroutine whose buffer holds `capacity` bytes.
///
/// Without a response it requests a read into a zeroed buffer; a
/// pending request is emitted again unchanged; a completed read of no
/// byte is the end of the stream, any other is handed out; a response
/// to a write is refused.
pub open spec fn read_step(capacity: nat, arg: Option<IoView>) -> ReadView {
    match arg {
        None => ReadView::Io(IoView::Read(Err(zeros(capacity)))),
        Some(IoView::Read(Err(b))) => ReadView::Io(IoView::Read(Err(b))),
        Some(IoView::Read(Ok(o))) => if o.bytes_count == 0 {
            ReadView::Eof
        } else {
            ReadView::Done(o)
        },
        Some(io) => ReadView::Error(io),
    }
}

/// The end of a stream is final: once a completed read made the
/// coroutine report the end, a new request served by a source that
/// still has nothing to give reports the end again, never data.
pub proof fn lemma_eof_is_final(capacity: nat, response: OutputView, want: nat)
    requires
        read_step(capacity, Some(IoView::Read(Ok(response)))) == ReadView::Eof,
    ensures
        read_step(capacity, None) matches ReadView::Io(req) && read_step(
            capacity,
            Some(serve_from(Seq::empty(), req, want).0),
        ) == ReadView::Eof,
{
}

/// I/O-free coroutine to read bytes into a buffer.
///
/// Its view is the configured buffer capacity. While a read is pending
/// the coroutine holds no buffer: the runtime owns it.
#[derive(Debug)]
pub struct ReadStream {
    buffer: Option<Vec<u8>>,
    capacity: usize,
}

impl View for ReadStream {
    type V = nat;

    closed spec fn view(&self) -> nat {
        self.capacity as nat
    }
}

impl ReadStream {
    /// The default read buffer capacity.
    pub const DEFAULT_CAPACITY: usize = 8 * 1024;

    /// A buffer held by the coroutine is zeroed and has the configured
    /// capacity.
    pub closed spec fn wf(&self) -> bool {
        match self.buffer {
            Some(b) => b@ == zeros(self.capacity as nat),
            None => true,
        }
    }

    /// Creates a coroutine reading with a buffer of
    /// [`Self::DEFAULT_CAPACITY`] bytes.
    pub fn new() -> (r: Self)
        ensures
            r.wf(),
            r@ == Self::DEFAULT_CAPACITY,
    {
        Self::with_capacity(Self::DEFAULT_CAPACITY)
    }

    /// Creates a coroutine reading with a buffer of `capacity` bytes.
    pub fn with_capacity(capacity: usize) -> (r: Self)
        ensures
            r.wf(),
            r@ == capacity,
    {
        let buffer = zeroed(capacity);
        Self { buffer: Some(buffer), capacity }
    }

    /// Returns the configured buffer capacity.
    pub fn capacity(&self) -> (r: usize)
        ensures
            r == self@,
    {
        self.capacity
    }

    /// Shortens the buffer to at most `len` bytes.
    pub fn truncate(&mut self, len: usize)
        requires
            old(self).wf(),
        ensures
            final(self).wf(),
            final(self)@ == if len < old(self)@ { len as nat } else { old(self)@ },
    {
        if len < self.capacity {
            self.capacity = len;
            if let Some(buffer) = &mut self.buffer {
                buffer.truncate(len);
                assert(buffer@ =~= zeros(len as nat));
            }
        }
    }

    /// Replaces the buffer with the given one, zeroed; its length
    /// becomes the capacity.
    pub fn replace(&mut self, buffer: Vec<u8>)
        ensures
            final(self).wf(),
            final(self)@ == buffer@.len(),
    {
        let mut buffer = buffer;
        let n = buffer.len();
        let mut i: usize = 0;
        while i < n
            invariant
                buffer@.len() == n,
                i <= n,
                forall|j: int| 0 <= j < i ==> buffer@[j] == 0u8,
            decreases n - i,
        {
            buffer.set(i, 0u8);
            i = i + 1;
        }
        assert(buffer@ =~= zeros(n as nat));
        self.buffer = Some(buffer);
        self.capacity = n;
    }

    /// Makes the read progress.
    pub fn resume(&mut self, arg: Option<StreamIo>) -> (r: ReadStreamResult)
        requires
            old(self).wf(),
        ensures
            final(self).wf(),
            final(self)@ == old(self)@,
            r@ == read_step(old(self)@, arg_view(arg)),
    {
        match arg {
            None => {
                let buffer = match self.buffer.take() {
                    Some(buffer) => buffer,
                    None => zeroed(self.capacity),
                };
                ReadStreamResult::Io(StreamIo::Read(Err(buffer)))
            },
            Some(StreamIo::Read(Err(buffer))) => ReadStreamResult::Io(StreamIo::Read(Err(buffer))),
            Some(StreamIo::Read(Ok(output))) => {
                if output.bytes_count == 0 {
                    ReadStreamResult::Eof
                } else {
                    ReadStreamResult::Done(output)
                }
            },
            Some(io) => ReadStreamResult::Error(ReadStreamError::InvalidArgument("read output", io)),
        }
    }
}

impl Default for ReadStream {
    fn default() -> (r: Self)
        ensures
            r.wf(),
            r@ == Self::DEFAULT_CAPACITY,
    {
        Self::new()
    }
}

/// A buffer of `n` zeroed bytes.
fn zeroed(n: usize) -> (r: Vec<u8>)
    ensures
        r@ == zeros(n as nat),
{
    let mut buffer: Vec<u8> = Vec::with_capacity(n);
    let mut i: usize = 0;
    while i < n
        invariant
            buffer@ == zeros(i as nat),
            i <= n,
        decreases n - i,
    {
        buffer.push(0u8);
        i = i + 1;
        assert(buffer@ =~= zeros(i as nat));
    }
    buffer
}

} // verus!
