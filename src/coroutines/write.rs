//! I/O-free coroutine to write bytes into a stream.

use vstd::prelude::*;

use crate::io::{arg_view, IoView, OutputView, StreamIo, StreamOutput};

verus! {

/// Errors that can occur during the coroutine progression.
#[derive(Clone, Debug)]
pub enum WriteStreamError {
    /// The coroutine received a response to another kind of request,
    /// which a runtime that maps its arguments correctly never sends.
    InvalidArgument(&'static str, StreamIo),
}

/// Output emitted after a coroutine made progress.
#[derive(Clone, Debug)]
pub enum WriteStreamResult {
    /// Bytes were written.
    Done(StreamOutput),
    /// A write needs to be performed to make the coroutine progress.
    Io(StreamIo),
    /// The stream accepts no more bytes; only the caller can tell
    /// whether that is an error.
    Eof,
    /// An error occurred during the coroutine progression.
    Error(WriteStreamError),
}

/// What a [`WriteStreamResult`] holds, as mathematical values. An
/// invalid argument is represented by the response that was refused.
pub enum WriteView {
    Done(OutputView),
    Io(IoView),
    Eof,
    Error(IoView),
}

impl View for WriteStreamResult {
    type V = WriteView;

    open spec fn view(&self) -> WriteView {
        match self {
            WriteStreamResult::Done(o) => WriteView::Done(o@),
            WriteStreamResult::Io(io) => WriteView::Io(io@),
            WriteStreamResult::Eof => WriteView::Eof,
            WriteStreamResult::Error(WriteStreamError::InvalidArgument(_, io)) => WriteView::Error(
                io@,
            ),
        }
    }
}

/// One step of a write coroutine whose pending bytes are `bytes`.
///
/// Without a response it requests that all of them be written at once;
/// a pending request is emitted again unchanged; a completed write of
/// no byte means the stream accepts no more, any other is handed out;
/// a response to a read is refused.
pub open spec fn write_step(bytes: Seq<u8>, arg: Option<IoView>) -> WriteView {
    match arg {
        None => WriteView::Io(IoView::Write(Err(bytes))),
        Some(IoView::Write(Err(b))) => WriteView::Io(IoView::Write(Err(b))),
        Some(IoView::Write(Ok(o))) => if o.bytes_count == 0 {
            WriteView::Eof
        } else {
            WriteView::Done(o)
        },
        Some(io) => WriteView::Error(io),
    }
}

/// I/O-free coroutine to write bytes into a stream.
///
/// Its view is the bytes not yet handed to the runtime.
#[derive(Debug)]
pub struct WriteStream {
    bytes: Vec<u8>,
}

impl View for WriteStream {
    type V = Seq<u8>;

    closed spec fn view(&self) -> Seq<u8> {
        self.bytes@
    }
}

impl WriteStream {
    /// Creates a coroutine to write the given bytes.
    pub fn new(bytes: Vec<u8>) -> (r: Self)
        ensures
            r@ == bytes@,
    {
        Self { bytes }
    }

    /// Makes the write progress.
    pub fn resume(&mut self, arg: Option<StreamIo>) -> (r: WriteStreamResult)
        ensures
            final(self)@ == if arg is None { Seq::empty() } else { old(self)@ },
            r@ == write_step(old(self)@, arg_view(arg)),
    {
        match arg {
            None => {
                let mut bytes: Vec<u8> = Vec::new();
                core::mem::swap(&mut bytes, &mut self.bytes);
                WriteStreamResult::Io(StreamIo::Write(Err(bytes)))
            },
            Some(StreamIo::Write(Err(bytes))) => WriteStreamResult::Io(StreamIo::Write(Err(bytes))),
            Some(StreamIo::Write(Ok(output))) => {
                if output.bytes_count == 0 {
                    WriteStreamResult::Eof
                } else {
                    WriteStreamResult::Done(output)
                }
            },
            Some(io) => WriteStreamResult::Error(
                WriteStreamError::InvalidArgument("write output", io),
            ),
        }
    }
}

impl Default for WriteStream {
    fn default() -> (r: Self)
        ensures
            r@ == Seq::<u8>::empty(),
    {
        Self { bytes: Vec::new() }
    }
}

} // verus!
