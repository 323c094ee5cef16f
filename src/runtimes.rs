//! The decisions a stream runtime makes around the system call it
//! performs.
//!
//! A runtime is handed a [`StreamIo`]: a response is passed through
//! unchanged, a request hands over the buffer on which to perform one
//! read or one write. The runtime then answers with a response that
//! carries the same buffer and the number of bytes transferred.

use vstd::prelude::*;

use crate::io::{IoView, OutputView, StreamIo, StreamOutput};

verus! {

/// Handles the payload of a read: a response (`Ok`) comes back as a
/// ready [`StreamIo`], a request (`Err`) gives the buffer to read into.
pub fn read(input: Result<StreamOutput, Vec<u8>>) -> (r: Result<StreamIo, Vec<u8>>)
    ensures
        r == match input {
            Ok(output) => Ok(StreamIo::Read(Ok(output))),
            Err(buffer) => Err::<StreamIo, Vec<u8>>(buffer),
        },
{
    match input {
        Ok(output) => Ok(StreamIo::Read(Ok(output))),
        Err(buffer) => Err(buffer),
    }
}

/// Handles the payload of a write: a response (`Ok`) comes back as a
/// ready [`StreamIo`], a request (`Err`) gives the bytes to write.
pub fn write(input: Result<StreamOutput, Vec<u8>>) -> (r: Result<StreamIo, Vec<u8>>)
    ensures
        r == match input {
            Ok(output) => Ok(StreamIo::Write(Ok(output))),
            Err(bytes) => Err::<StreamIo, Vec<u8>>(bytes),
        },
{
    match input {
        Ok(output) => Ok(StreamIo::Write(Ok(output))),
        Err(bytes) => Err(bytes),
    }
}

/// The smallest of three numbers.
pub open spec fn min3(a: nat, b: nat, c: nat) -> nat {
    if a <= b && a <= c {
        a
    } else if b <= c {
        b
    } else {
        c
    }
}

/// What a runtime reading from the in-memory source `src` hands back
/// for `io` when it reads at most `want` bytes at once, and what is left
/// of the source. A read request gets the first bytes of the source, as
/// many as `want`, its buffer and the source allow; anything else passes
/// through.
pub open spec fn serve_from(src: Seq<u8>, io: IoView, want: nat) -> (IoView, Seq<u8>) {
    match io {
        IoView::Read(Err(b)) => {
            let n = min3(want, b.len(), src.len());
            (
                IoView::Read(
                    Ok(
                        OutputView {
                            buffer: src.subrange(0, n as int) + b.subrange(n as int, b.len() as int),
                            bytes_count: n,
                        },
                    ),
                ),
                src.subrange(n as int, src.len() as int),
            )
        },
        _ => (io, src),
    }
}

} // verus!
