use kv_db::stream::{Stream, StreamError};

#[test]
fn read_exact_takes_bytes_in_order() {
    let mut stream = Stream::new(vec![1, 2, 3, 4]);
    assert_eq!(stream.remaining(), 4);
    assert_eq!(stream.read_exact(1), Ok(vec![1]));
    assert_eq!(stream.read_exact(0), Ok(vec![]));
    assert_eq!(stream.read_exact(2), Ok(vec![2, 3]));
    assert_eq!(stream.peek(), &[4]);
    assert_eq!(stream.remaining(), 1);
}

#[test]
fn short_read_fails_and_consumes_the_rest() {
    let mut stream = Stream::new(vec![1, 2]);
    assert_eq!(stream.read_exact(3), Err(StreamError::UnexpectedEof));
    assert_eq!(stream.remaining(), 0);
    assert_eq!(stream.read_exact(0), Ok(vec![]));
    assert_eq!(stream.read_exact(1), Err(StreamError::UnexpectedEof));
}

#[test]
fn feed_appends_after_what_is_unread() {
    let mut stream = Stream::new(vec![1, 2]);
    assert_eq!(stream.read_exact(1), Ok(vec![1]));
    stream.feed(&[3, 4]);
    assert_eq!(stream.peek(), &[2, 3, 4]);
    assert_eq!(stream.read_exact(3), Ok(vec![2, 3, 4]));
}

#[test]
fn written_bytes_are_handed_out_once() {
    let mut stream = Stream::new(vec![9]);
    stream.write_all(&[1, 2]);
    stream.write_all(&[]);
    stream.write_all(&[3]);
    assert_eq!(stream.take_written(), vec![1, 2, 3]);
    assert_eq!(stream.take_written(), Vec::<u8>::new());
    assert_eq!(stream.remaining(), 1);
}

#[test]
fn feed_after_everything_was_read_starts_afresh() {
    let mut stream = Stream::new(vec![1, 2]);
    assert_eq!(stream.read_exact(2), Ok(vec![1, 2]));
    stream.feed(&[3]);
    assert_eq!(stream.peek(), &[3]);
    assert_eq!(stream.read_exact(5), Err(StreamError::UnexpectedEof));
    stream.feed(&[4, 5]);
    assert_eq!(stream.remaining(), 2);
    assert_eq!(stream.read_exact(2), Ok(vec![4, 5]));
    assert_eq!(StreamError::UnexpectedEof.message(), "failed to fill whole buffer");
}
