use io_stream::coroutines::write::{WriteStream, WriteStreamError, WriteStreamResult};
use io_stream::io::{StreamIo, StreamOutput};
use io_stream::runtimes;

#[test]
fn write_hands_all_bytes_at_once() {
    let mut write = WriteStream::new(b"hello".to_vec());
    let bytes = match write.resume(None) {
        WriteStreamResult::Io(StreamIo::Write(Err(bytes))) => bytes,
        other => panic!("Unexpected result: {other:?}"),
    };
    assert_eq!(bytes, b"hello");
    let response = StreamIo::Write(Ok(StreamOutput {
        buffer: bytes,
        bytes_count: 3,
    }));
    match write.resume(Some(response)) {
        WriteStreamResult::Done(output) => {
            assert_eq!(output.bytes_count, 3);
            assert_eq!(output.bytes(), b"hel");
        }
        other => panic!("Unexpected result: {other:?}"),
    }
    match write.resume(None) {
        WriteStreamResult::Io(StreamIo::Write(Err(bytes))) => assert!(bytes.is_empty()),
        other => panic!("Unexpected result: {other:?}"),
    }
}

#[test]
fn write_of_no_byte_is_eof() {
    let mut write = WriteStream::new(b"abc".to_vec());
    let response = StreamIo::Write(Ok(StreamOutput {
        buffer: b"abc".to_vec(),
        bytes_count: 0,
    }));
    assert!(matches!(write.resume(Some(response)), WriteStreamResult::Eof));
}

#[test]
fn write_refuses_a_read_response() {
    let mut write = WriteStream::default();
    let response = StreamIo::Read(Ok(StreamOutput {
        buffer: vec![1],
        bytes_count: 1,
    }));
    match write.resume(Some(response)) {
        WriteStreamResult::Error(WriteStreamError::InvalidArgument(expected, StreamIo::Read(Ok(o)))) => {
            assert_eq!(expected, "write output");
            assert_eq!(o.buffer, vec![1]);
        }
        other => panic!("Unexpected result: {other:?}"),
    }
}

#[test]
fn write_emits_a_pending_request_again() {
    let mut write = WriteStream::new(vec![9]);
    let request = StreamIo::Write(Err(vec![4, 5]));
    match write.resume(Some(request.clone())) {
        WriteStreamResult::Io(io) => assert_eq!(io, request),
        other => panic!("Unexpected result: {other:?}"),
    }
}

#[test]
fn runtime_passes_responses_through() {
    let output = StreamOutput {
        buffer: vec![1, 2, 3],
        bytes_count: 2,
    };
    match runtimes::read(Ok(output.clone())) {
        Ok(StreamIo::Read(Ok(o))) => assert_eq!(o, output),
        other => panic!("Unexpected result: {other:?}"),
    }
    match runtimes::write(Ok(output.clone())) {
        Ok(StreamIo::Write(Ok(o))) => assert_eq!(o, output),
        other => panic!("Unexpected result: {other:?}"),
    }
    assert_eq!(runtimes::read(Err(vec![0, 0])), Err(vec![0, 0]));
    assert_eq!(runtimes::write(Err(vec![7])), Err(vec![7]));
}
