//! Stream I/O requests and responses.

use vstd::prelude::*;

verus! {

/// What a [`StreamOutput`] holds, as mathematical values.
pub struct OutputView {
    pub buffer: Seq<u8>,
    pub bytes_count: nat,
}

impl OutputView {
    /// The bytes that were actually read or written.
    pub open spec fn bytes(self) -> Seq<u8> {
        self.buffer.subrange(0, self.bytes_count as int)
    }

    /// The count never exceeds the buffer.
    pub open spec fn wf(self) -> bool {
        self.bytes_count <= self.buffer.len()
    }
}

/// What a [`StreamIo`] holds, as mathematical values.
pub enum IoView {
    Read(Result<OutputView, Seq<u8>>),
    Write(Result<OutputView, Seq<u8>>),
}

impl IoView {
    /// Every output carried is well formed.
    pub open spec fn wf(self) -> bool {
        match self {
            IoView::Read(Ok(o)) => o.wf(),
            IoView::Write(Ok(o)) => o.wf(),
            _ => true,
        }
    }
}

/// A buffer of `n` zeroed bytes.
pub open spec fn zeros(n: nat) -> Seq<u8> {
    Seq::new(n, |_i: int| 0u8)
}

/// Every output carried by an optional response is well formed.
pub open spec fn arg_wf(arg: Option<StreamIo>) -> bool {
    match arg {
        Some(io) => io@.wf(),
        None => true,
    }
}

/// Appends `bytes` to `dst`.
pub(crate) fn append_bytes(dst: &mut Vec<u8>, bytes: &[u8])
    ensures
        final(dst)@ == old(dst)@ + bytes@,
{
    let mut i: usize = 0;
    while i < bytes.len()
        invariant
            i <= bytes@.len(),
            dst@ == old(dst)@ + bytes@.subrange(0, i as int),
        decreases bytes@.len() - i,
    {
        dst.push(bytes[i]);
        i = i + 1;
        assert(dst@ =~= old(dst)@ + bytes@.subrange(0, i as int));
    }
    assert(bytes@.subrange(0, i as int) =~= bytes@);
}

/// The view of an optional response, as handed to `resume`.
pub open spec fn arg_view(arg: Option<StreamIo>) -> Option<IoView> {
    match arg {
        Some(io) => Some(io@),
        None => None,
    }
}

/// A request or a response exchanged between a coroutine and a runtime.
///
/// `Err` holds a request (the buffer to fill, or the bytes to write),
/// `Ok` holds the response (the same buffer and the number of bytes
/// that were transferred).
#[derive(Debug, Eq, PartialEq)]
pub enum StreamIo {
    /// Read bytes into a buffer.
    Read(Result<StreamOutput, Vec<u8>>),
    /// Write the bytes of a buffer.
    Write(Result<StreamOutput, Vec<u8>>),
}

/// Output of a read or a write: the buffer used and how many of its
/// bytes were transferred.
#[derive(Debug, Eq, PartialEq)]
pub struct StreamOutput {
    /// The inner buffer.
    pub buffer: Vec<u8>,
    /// The number of bytes that have been read or written.
    pub bytes_count: usize,
}

impl View for StreamOutput {
    type V = OutputView;

    open spec fn view(&self) -> OutputView {
        OutputView { buffer: self.buffer@, bytes_count: self.bytes_count as nat }
    }
}

/// The view of the payload of a [`StreamIo`].
pub open spec fn result_view(r: Result<StreamOutput, Vec<u8>>) -> Result<OutputView, Seq<u8>> {
    match r {
        Ok(o) => Ok(o@),
        Err(b) => Err(b@),
    }
}

impl View for StreamIo {
    type V = IoView;

    open spec fn view(&self) -> IoView {
        match self {
            StreamIo::Read(r) => IoView::Read(result_view(*r)),
            StreamIo::Write(r) => IoView::Write(result_view(*r)),
        }
    }
}

impl Clone for StreamOutput {
    fn clone(&self) -> (r: Self)
        ensures
            r@ == self@,
    {
        StreamOutput { buffer: self.buffer.clone(), bytes_count: self.bytes_count }
    }
}

impl Clone for StreamIo {
    fn clone(&self) -> (r: Self)
        ensures
            r@ == self@,
    {
        match self {
            StreamIo::Read(Ok(o)) => StreamIo::Read(Ok(o.clone())),
            StreamIo::Read(Err(b)) => StreamIo::Read(Err(b.clone())),
            StreamIo::Write(Ok(o)) => StreamIo::Write(Ok(o.clone())),
            StreamIo::Write(Err(b)) => StreamIo::Write(Err(b.clone())),
        }
    }
}

impl StreamIo {
    /// A short name for the shape of this value.
    pub fn describe(&self) -> (r: &'static str)
        ensures
            r@ == match self@ {
                IoView::Read(Ok(_)) => "read output"@,
                IoView::Read(Err(_)) => "read input"@,
                IoView::Write(Ok(_)) => "write output"@,
                IoView::Write(Err(_)) => "write input"@,
            },
    {
        proof {
            reveal_strlit("read output");
            reveal_strlit("read input");
            reveal_strlit("write output");
            reveal_strlit("write input");
        }
        match self {
            StreamIo::Read(Ok(_)) => "read output",
            StreamIo::Read(Err(_)) => "read input",
            StreamIo::Write(Ok(_)) => "write output",
            StreamIo::Write(Err(_)) => "write input",
        }
    }
}

impl StreamOutput {
    /// The bytes that were actually read or written.
    pub fn bytes(&self) -> (r: &[u8])
        requires
            self@.wf(),
        ensures
            r@ == self@.bytes(),
    {
        vstd::slice::slice_subrange(self.buffer.as_slice(), 0, self.bytes_count)
    }
}

} // verus!
