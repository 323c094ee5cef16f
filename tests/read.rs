use std::io::{BufReader, Read as _};

use io_stream::coroutines::read::{ReadStream, ReadStreamError, ReadStreamResult};
use io_stream::io::{StreamIo, StreamOutput};

fn serve(reader: &mut impl std::io::Read, io: StreamIo) -> StreamIo {
    match io {
        StreamIo::Read(Err(mut buffer)) => {
            let bytes_count = reader.read(&mut buffer).unwrap();
            StreamIo::Read(Ok(StreamOutput {
                buffer,
                bytes_count,
            }))
        }
        other => panic!("Unexpected request: {other:?}"),
    }
}

#[test]
fn read() {
    let mut reader = BufReader::new("abcdef".as_bytes());

    let mut read = ReadStream::with_capacity(4);
    let mut arg = None;

    let output = loop {
        match read.resume(arg.take()) {
            ReadStreamResult::Done(output) => break output,
            ReadStreamResult::Io(StreamIo::Read(Err(mut buffer))) => {
                let bytes_count = reader.read(&mut buffer).unwrap();
                let output = StreamOutput {
                    buffer,
                    bytes_count,
                };
                arg = Some(StreamIo::Read(Ok(output)))
            }
            other => unreachable!("Unexpected result: {other:?}"),
        }
    };

    assert_eq!(output.bytes(), b"abcd");

    read.replace(output.buffer);

    let output = loop {
        match read.resume(arg.take()) {
            ReadStreamResult::Done(output) => break output,
            ReadStreamResult::Io(StreamIo::Read(Err(mut buffer))) => {
                let bytes_count = reader.read(&mut buffer).unwrap();
                let output = StreamOutput {
                    buffer,
                    bytes_count,
                };
                arg = Some(StreamIo::Read(Ok(output)))
            }
            other => unreachable!("Unexpected result: {other:?}"),
        }
    };

    assert_eq!(output.bytes(), b"ef");

    read.replace(output.buffer);

    loop {
        match read.resume(arg.take()) {
            ReadStreamResult::Eof => break,
            ReadStreamResult::Io(StreamIo::Read(Err(mut buffer))) => {
                let bytes_count = reader.read(&mut buffer).unwrap();
                let output = StreamOutput {
                    buffer,
                    bytes_count,
                };
                arg = Some(StreamIo::Read(Ok(output)))
            }
            other => unreachable!("Unexpected result: {other:?}"),
        }
    }
}

#[test]
fn read_requests_a_zeroed_buffer_of_its_capacity() {
    let mut read = ReadStream::with_capacity(3);
    match read.resume(None) {
        ReadStreamResult::Io(StreamIo::Read(Err(buffer))) => assert_eq!(buffer, vec![0, 0, 0]),
        other => panic!("Unexpected result: {other:?}"),
    }
    assert_eq!(read.capacity(), 3);
    assert_eq!(ReadStream::new().capacity(), ReadStream::DEFAULT_CAPACITY);
    assert_eq!(ReadStream::default().capacity(), 8192);
}

#[test]
fn read_eof_is_final() {
    let mut reader = BufReader::new("".as_bytes());
    let mut read = ReadStream::with_capacity(4);
    for _ in 0..3 {
        let request = match read.resume(None) {
            ReadStreamResult::Io(io) => io,
            other => panic!("Unexpected result: {other:?}"),
        };
        let response = serve(&mut reader, request);
        assert!(matches!(read.resume(Some(response)), ReadStreamResult::Eof));
    }
}

#[test]
fn read_refuses_a_write_response() {
    let mut read = ReadStream::with_capacity(4);
    let response = StreamIo::Write(Ok(StreamOutput {
        buffer: b"abcd".to_vec(),
        bytes_count: 4,
    }));
    match read.resume(Some(response.clone())) {
        ReadStreamResult::Error(ReadStreamError::InvalidArgument(expected, got)) => {
            assert_eq!(expected, "read output");
            assert_eq!(got, response);
        }
        other => panic!("Unexpected result: {other:?}"),
    }
    let request = StreamIo::Write(Err(b"abcd".to_vec()));
    assert!(matches!(
        read.resume(Some(request)),
        ReadStreamResult::Error(ReadStreamError::InvalidArgument(_, StreamIo::Write(Err(_))))
    ));
}

#[test]
fn read_emits_a_pending_request_again() {
    let mut read = ReadStream::with_capacity(4);
    let request = StreamIo::Read(Err(vec![7, 8]));
    match read.resume(Some(request.clone())) {
        ReadStreamResult::Io(io) => assert_eq!(io, request),
        other => panic!("Unexpected result: {other:?}"),
    }
}

#[test]
fn read_truncate_and_replace() {
    let mut read = ReadStream::with_capacity(6);
    read.truncate(10);
    assert_eq!(read.capacity(), 6);
    read.truncate(2);
    assert_eq!(read.capacity(), 2);
    match read.resume(None) {
        ReadStreamResult::Io(StreamIo::Read(Err(buffer))) => assert_eq!(buffer, vec![0, 0]),
        other => panic!("Unexpected result: {other:?}"),
    }
    read.replace(b"xyz".to_vec());
    assert_eq!(read.capacity(), 3);
    match read.resume(None) {
        ReadStreamResult::Io(StreamIo::Read(Err(buffer))) => assert_eq!(buffer, vec![0, 0, 0]),
        other => panic!("Unexpected result: {other:?}"),
    }
}

#[test]
fn stream_output_bytes_and_describe() {
    let output = StreamOutput {
        buffer: b"abcdef".to_vec(),
        bytes_count: 2,
    };
    assert_eq!(output.bytes(), b"ab");
    assert_eq!(StreamIo::Read(Ok(output.clone())).describe(), "read output");
    assert_eq!(StreamIo::Read(Err(vec![])).describe(), "read input");
    assert_eq!(StreamIo::Write(Ok(output)).describe(), "write output");
    assert_eq!(StreamIo::Write(Err(vec![])).describe(), "write input");
}
