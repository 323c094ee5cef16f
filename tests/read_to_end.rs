use std::io::{BufReader, Read as _};

use io_stream::coroutines::read::ReadStreamError;
use io_stream::coroutines::read_to_end::{ReadStreamToEnd, ReadStreamToEndError, ReadStreamToEndResult};
use io_stream::io::{StreamIo, StreamOutput};

#[test]
fn read_to_end() {
    let mut reader = BufReader::new("abcdef".as_bytes());

    let mut read = ReadStreamToEnd::with_capacity(4);
    let mut arg = None;

    let output = loop {
        match read.resume(arg.take()) {
            ReadStreamToEndResult::Done(output) => break output,
            ReadStreamToEndResult::Io(StreamIo::Read(Err(mut buffer))) => {
                let bytes_count = reader.read(&mut buffer).unwrap();
                let output = StreamOutput {
                    buffer,
                    bytes_count,
                };
                arg = Some(StreamIo::Read(Ok(output)))
            }
            other => unreachable!("Unexpected result: {other:?}"),
        }
    };

    assert_eq!(output, b"abcdef");
}

#[test]
fn read_to_end_suspends_once_per_read() {
    let mut reader = BufReader::new("abcdef".as_bytes());
    let mut read = ReadStreamToEnd::with_capacity(4);
    read.extend(b"<".to_vec());
    let mut arg = None;
    let mut requests = 0;
    let output = loop {
        match read.resume(arg.take()) {
            ReadStreamToEndResult::Done(output) => break output,
            ReadStreamToEndResult::Io(StreamIo::Read(Err(mut buffer))) => {
                assert_eq!(buffer, vec![0; 4]);
                requests += 1;
                let bytes_count = reader.read(&mut buffer).unwrap();
                arg = Some(StreamIo::Read(Ok(StreamOutput {
                    buffer,
                    bytes_count,
                })));
            }
            other => unreachable!("Unexpected result: {other:?}"),
        }
    };
    assert_eq!(output, b"<abcdef");
    assert_eq!(requests, 3);
}

#[test]
fn read_to_end_with_one_byte_reads() {
    let source = b"hello";
    let mut read = ReadStreamToEnd::default();
    let mut arg = None;
    let mut offset = 0;
    let output = loop {
        match read.resume(arg.take()) {
            ReadStreamToEndResult::Done(output) => break output,
            ReadStreamToEndResult::Io(StreamIo::Read(Err(mut buffer))) => {
                assert_eq!(buffer.len(), if offset == 0 { 8192 } else { buffer.len() });
                let bytes_count = if offset < source.len() { 1 } else { 0 };
                if bytes_count == 1 {
                    buffer[0] = source[offset];
                    offset += 1;
                }
                arg = Some(StreamIo::Read(Ok(StreamOutput {
                    buffer,
                    bytes_count,
                })));
            }
            other => unreachable!("Unexpected result: {other:?}"),
        }
    };
    assert_eq!(output, b"hello");
    let _ = ReadStreamToEnd::new();
}

#[test]
fn read_to_end_wraps_an_invalid_argument() {
    let mut read = ReadStreamToEnd::with_capacity(4);
    let response = StreamIo::Write(Ok(StreamOutput {
        buffer: vec![1, 2],
        bytes_count: 2,
    }));
    assert!(matches!(
        read.resume(Some(response)),
        ReadStreamToEndResult::Error(ReadStreamToEndError::Read(ReadStreamError::InvalidArgument(
            "read output",
            StreamIo::Write(Ok(_))
        )))
    ));
}
