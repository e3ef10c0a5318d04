use kv_db::actor::{self, apply_command, command_for, reply_response, run_db_worker, Command};
use kv_db::lock;
use kv_db::session::ClientError;
use kv_db::store::Store;
use kv_db::stream::{Stream, StreamError};
use kv_db::{write_frame, Frame, ReadFrameError, WriteFrameError};

fn s(text: &str) -> String {
    String::from(text)
}

fn requests(frames: &[Frame]) -> Vec<u8> {
    let mut stream = Stream::new(Vec::new());
    for frame in frames {
        assert_eq!(write_frame(&mut stream, frame), Ok(()));
    }
    stream.take_written()
}

const EOF: Result<(), ClientError> =
    Err(ClientError::Read(ReadFrameError::IoError(StreamError::UnexpectedEof)));

#[test]
fn lock_backend_put_then_get() {
    let mut store = Store::new();
    let mut stream =
        Stream::new(requests(&[Frame::Put(s("a"), s("1")), Frame::Get(s("a"))]));
    assert_eq!(lock::handle_client(&mut stream, &mut store), EOF);
    assert_eq!(stream.take_written(), vec![1, b'1', 1, b'1']);
    assert_eq!(store.get("a"), "1");
}

#[test]
fn lock_backend_delete_then_get() {
    let mut store = Store::new();
    store.put(s("a"), s("1"));
    let mut stream = Stream::new(requests(&[Frame::Delete(s("a")), Frame::Get(s("a"))]));
    assert_eq!(lock::handle_client(&mut stream, &mut store), EOF);
    assert_eq!(stream.take_written(), vec![1, b'1', 0]);
}

#[test]
fn lock_backend_put_twice() {
    let mut store = Store::new();
    let mut stream =
        Stream::new(requests(&[Frame::Put(s("a"), s("1")), Frame::Put(s("a"), s("2"))]));
    assert_eq!(lock::handle_client(&mut stream, &mut store), EOF);
    assert_eq!(stream.take_written(), vec![1, b'1', 0]);
    assert_eq!(store.get("a"), "2");
}

#[test]
fn lock_backend_repeated_delete_of_absent_key() {
    let mut store = Store::new();
    let mut stream = Stream::new(requests(&[
        Frame::Delete(s("a")),
        Frame::Delete(s("a")),
        Frame::Delete(s("a")),
    ]));
    assert_eq!(lock::handle_client(&mut stream, &mut store), EOF);
    assert_eq!(stream.take_written(), vec![0, 0, 0]);
}

#[test]
fn lock_backend_stops_at_an_invalid_command() {
    let mut store = Store::new();
    let mut bytes = requests(&[Frame::Put(s("a"), s("1"))]);
    bytes.push(b'?');
    bytes.extend(requests(&[Frame::Put(s("b"), s("2"))]));
    let mut stream = Stream::new(bytes);
    assert_eq!(
        lock::handle_client(&mut stream, &mut store),
        Err(ClientError::Read(ReadFrameError::InvalidCommand))
    );
    assert_eq!(stream.take_written(), vec![1, b'1']);
    assert_eq!(store.get("a"), "1");
    assert_eq!(store.lookup("b"), None);
    assert_eq!(stream.remaining(), 5);
}

#[test]
fn lock_backend_stops_at_a_truncated_frame() {
    let mut store = Store::new();
    let mut bytes = requests(&[Frame::Put(s("a"), s("1"))]);
    bytes.extend_from_slice(&[b'+', 1, b'b', 9, b'x']);
    let mut stream = Stream::new(bytes);
    assert_eq!(lock::handle_client(&mut stream, &mut store), EOF);
    assert_eq!(stream.take_written(), vec![1, b'1']);
    assert_eq!(store.lookup("b"), None);
}

#[test]
fn lock_backend_stops_at_invalid_utf8() {
    let mut store = Store::new();
    let mut stream = Stream::new(vec![b'=', 1, 0xff]);
    assert_eq!(
        lock::handle_client(&mut stream, &mut store),
        Err(ClientError::Read(ReadFrameError::InvalidUtf8))
    );
    assert_eq!(stream.take_written(), Vec::<u8>::new());
}

#[test]
fn lock_backend_refuses_to_send_a_value_that_is_too_long() {
    let mut store = Store::new();
    store.put(s("big"), "v".repeat(256));
    let mut stream = Stream::new(requests(&[
        Frame::Get(s("none")),
        Frame::Delete(s("big")),
        Frame::Get(s("none")),
    ]));
    assert_eq!(
        lock::handle_client(&mut stream, &mut store),
        Err(ClientError::Write(WriteFrameError::ValueTooLong))
    );
    assert_eq!(stream.take_written(), vec![0]);
    assert_eq!(store.lookup("big"), None);
    assert_eq!(stream.remaining(), 6);
}

#[test]
fn actor_backend_put_then_get() {
    let mut store = Store::new();
    let mut stream =
        Stream::new(requests(&[Frame::Put(s("a"), s("1")), Frame::Get(s("a"))]));
    assert_eq!(actor::handle_client(&mut stream, &mut store), EOF);
    assert_eq!(stream.take_written(), vec![1, b'1']);
}

#[test]
fn actor_backend_answers_only_gets() {
    let mut store = Store::new();
    let mut stream = Stream::new(requests(&[
        Frame::Get(s("a")),
        Frame::Put(s("a"), s("1")),
        Frame::Put(s("a"), s("2")),
        Frame::Get(s("a")),
        Frame::Delete(s("a")),
        Frame::Delete(s("a")),
        Frame::Get(s("a")),
    ]));
    assert_eq!(actor::handle_client(&mut stream, &mut store), EOF);
    assert_eq!(stream.take_written(), vec![0, 1, b'2', 0]);
    assert_eq!(store.lookup("a"), None);
}

#[test]
fn worker_replies_to_gets_in_order() {
    let mut store = Store::new();
    let commands = vec![
        Command::Get(s("a"), 10u32),
        Command::Put(s("a"), s("1")),
        Command::Get(s("a"), 11),
        Command::Put(s("b"), s("2")),
        Command::Delete(s("a")),
        Command::Get(s("a"), 12),
        Command::Get(s("b"), 13),
    ];
    let replies = run_db_worker(&mut store, commands);
    let got: Vec<(u32, Option<String>)> =
        replies.into_iter().map(|reply| (reply.channel, reply.value)).collect();
    assert_eq!(
        got,
        vec![(10, None), (11, Some(s("1"))), (12, None), (13, Some(s("2")))]
    );
    assert_eq!(store.get("b"), "2");
    assert_eq!(store.lookup("a"), None);
}

#[test]
fn worker_keeps_the_store_between_batches() {
    let mut store = Store::new();
    let replies = run_db_worker(&mut store, vec![Command::<u8>::Put(s("a"), s("1"))]);
    assert!(replies.is_empty());
    let replies = run_db_worker(&mut store, Vec::<Command<u8>>::new());
    assert!(replies.is_empty());
    let replies = run_db_worker(&mut store, vec![Command::Get(s("a"), 7u8)]);
    assert_eq!(replies.len(), 1);
    assert_eq!(replies[0].channel, 7);
    assert_eq!(replies[0].value, Some(s("1")));
}

#[test]
fn worker_step_replies_only_to_a_get() {
    let mut store = Store::new();
    assert!(apply_command(&mut store, Command::<u8>::Put(s("a"), s("1"))).is_none());
    let reply = apply_command(&mut store, Command::Get(s("a"), 3u8)).unwrap();
    assert_eq!((reply.channel, reply.value), (3, Some(s("1"))));
    assert!(apply_command(&mut store, Command::<u8>::Delete(s("a"))).is_none());
    let reply = apply_command(&mut store, Command::Get(s("a"), 4u8)).unwrap();
    assert_eq!((reply.channel, reply.value), (4, None));
}

#[test]
fn command_carries_what_the_frame_says() {
    match command_for(Frame::Get(s("a")), 5u8) {
        Command::Get(key, channel) => assert_eq!((key, channel), (s("a"), 5)),
        _ => panic!("a get frame gives a get command"),
    }
    match command_for(Frame::Put(s("a"), s("1")), 5u8) {
        Command::Put(key, value) => assert_eq!((key, value), (s("a"), s("1"))),
        _ => panic!("a put frame gives a put command"),
    }
    match command_for(Frame::Delete(s("a")), 5u8) {
        Command::Delete(key) => assert_eq!(key, s("a")),
        _ => panic!("a delete frame gives a delete command"),
    }
}

#[test]
fn reply_becomes_a_response() {
    assert_eq!(reply_response(Some(Some(s("1")))), "1");
    assert_eq!(reply_response(Some(None)), "");
    assert_eq!(reply_response(None), "");
}
