use kv_db::client::parse_args;
use kv_db::protocol::{
    read_request, read_string_from_stream, write_request, write_response, ReadRequestError,
    Request,
};
use kv_db::stream::{Stream, StreamError};
use kv_db::{read_frame, Frame, WriteFrameError};

const USAGE: &str = "Invalid command. Use 'get <key>', 'put <key> <value>', 'del <key>' or 'exit'.";

#[test]
fn parse_get_put_and_del() {
    assert_eq!(parse_args(&["get", "a"]), Ok(Request::Get(String::from("a"))));
    assert_eq!(
        parse_args(&["put", "a", "1"]),
        Ok(Request::Put(String::from("a"), String::from("1")))
    );
    assert_eq!(parse_args(&["del", "a"]), Ok(Request::Delete(String::from("a"))));
    assert_eq!(parse_args(&["get", "get"]), Ok(Request::Get(String::from("get"))));
}

#[test]
fn parse_refuses_everything_else() {
    let lines: [&[&str]; 9] = [
        &[],
        &["get"],
        &["get", "a", "b"],
        &["put", "a"],
        &["put", "a", "b", "c"],
        &["del"],
        &["delete", "a"],
        &["GET", "a"],
        &["exit"],
    ];
    for line in lines {
        assert_eq!(parse_args(line), Err(String::from(USAGE)));
    }
}

#[test]
fn request_is_written_as_the_frame_that_says_the_same() {
    let mut stream = Stream::new(Vec::new());
    let request = Request::Put(String::from("a"), String::from("1"));
    assert_eq!(write_request(&mut stream, &request), Ok(()));
    let bytes = stream.take_written();
    assert_eq!(bytes, vec![b'+', 1, b'a', 1, b'1']);
    let mut server = Stream::new(bytes.clone());
    assert_eq!(read_frame(&mut server), Ok(Frame::Put(String::from("a"), String::from("1"))));
    let mut server = Stream::new(bytes);
    assert_eq!(read_request(&mut server), Ok(request));
}

#[test]
fn request_with_a_long_key_is_value_too_long() {
    let mut stream = Stream::new(Vec::new());
    let request = Request::Get("k".repeat(256));
    assert_eq!(write_request(&mut stream, &request), Err(WriteFrameError::ValueTooLong));
    assert_eq!(stream.take_written(), Vec::<u8>::new());
}

#[test]
fn request_read_failures() {
    let mut stream = Stream::new(vec![b'!']);
    assert_eq!(read_request(&mut stream), Err(ReadRequestError::InvalidCommand));
    let mut stream = Stream::new(vec![b'=', 4, b'a']);
    assert_eq!(
        read_request(&mut stream),
        Err(ReadRequestError::IoError(StreamError::UnexpectedEof))
    );
    let mut stream = Stream::new(vec![b'-', 1, 0xff]);
    assert_eq!(read_request(&mut stream), Err(ReadRequestError::InvalidUtf8));
}

#[test]
fn client_reads_the_response_it_was_sent() {
    let mut server = Stream::new(Vec::new());
    assert_eq!(write_response(&mut server, "value".as_bytes()), Ok(()));
    let mut client = Stream::new(server.take_written());
    assert_eq!(read_string_from_stream(&mut client), Ok(String::from("value")));
    assert_eq!(
        read_string_from_stream(&mut client),
        Err(ReadRequestError::IoError(StreamError::UnexpectedEof))
    );
}

#[test]
fn requests_convert_to_frames_and_back() {
    let request = Request::Put(String::from("a"), String::from("1"));
    assert_eq!(request.to_frame(), Frame::Put(String::from("a"), String::from("1")));
    assert_eq!(Request::from_frame(request.into_frame()), Request::Put(String::from("a"), String::from("1")));
    assert_eq!(Request::from_frame(Frame::Get(String::from("a"))), Request::Get(String::from("a")));
    assert_eq!(Request::Delete(String::from("a")).into_frame(), Frame::Delete(String::from("a")));
}

#[test]
fn request_failures_in_words_and_from_their_causes() {
    assert_eq!(
        ReadRequestError::IoError(StreamError::UnexpectedEof).message(),
        "IO error: failed to fill whole buffer"
    );
    assert_eq!(ReadRequestError::InvalidUtf8.message(), "Invalid UTF-8");
    assert_eq!(ReadRequestError::InvalidCommand.message(), "Invalid command");
    assert_eq!(
        ReadRequestError::from(StreamError::UnexpectedEof),
        ReadRequestError::IoError(StreamError::UnexpectedEof)
    );
    let cause = String::from_utf8(vec![0xc0, 0x80]).unwrap_err();
    assert_eq!(ReadRequestError::from(cause), ReadRequestError::InvalidUtf8);
    assert_eq!(
        ReadRequestError::from_frame_error(kv_db::ReadFrameError::InvalidCommand),
        ReadRequestError::InvalidCommand
    );
    assert_eq!(
        ReadRequestError::InvalidUtf8.to_frame_error(),
        kv_db::ReadFrameError::InvalidUtf8
    );
}
