//! The wire format, stated over byte sequences.
//!
//! A request is one tag byte followed by one or two length-prefixed strings;
//! a response is a single length-prefixed string. A length-prefixed string is
//! one byte giving a length, then that many bytes of UTF-8.
use crate::stream::StreamError;
use crate::{FrameView, ReadFrameError};
use vstd::prelude::*;
use vstd::utf8::*;

verus! {

/// The longest string, in bytes, that a one-byte length prefix can announce.
pub const MAX_STRING_LEN: usize = 255;

/// Tag byte of a get request, `=`.
pub const TAG_GET: u8 = 61;

/// Tag byte of a put request, `+`.
pub const TAG_PUT: u8 = 43;

/// Tag byte of a delete request, `-`.
pub const TAG_DELETE: u8 = 45;

/// Whether `tag` opens a request.
pub open spec fn is_tag(tag: u8) -> bool {
    tag == TAG_GET || tag == TAG_PUT || tag == TAG_DELETE
}

/// The failure of a read that met the end of the stream.
pub open spec fn eof() -> ReadFrameError {
    ReadFrameError::IoError(StreamError::UnexpectedEof)
}

/// Whether `bytes` is short enough for a length prefix.
pub open spec fn fits(bytes: Seq<u8>) -> bool {
    bytes.len() <= MAX_STRING_LEN
}

/// Whether the UTF-8 form of `s` is short enough for a length prefix.
pub open spec fn string_fits(s: Seq<char>) -> bool {
    fits(encode_utf8(s))
}

/// `bytes` behind its length prefix.
pub open spec fn encode_bytes(bytes: Seq<u8>) -> Seq<u8>
    recommends
        fits(bytes),
{
    seq![bytes.len() as u8] + bytes
}

/// The UTF-8 form of `s` behind its length prefix.
pub open spec fn encode_string(s: Seq<char>) -> Seq<u8>
    recommends
        string_fits(s),
{
    encode_bytes(encode_utf8(s))
}

/// Whether every string of `frame` is short enough to be sent.
pub open spec fn frame_fits(frame: FrameView) -> bool {
    match frame {
        FrameView::Put(key, value) => string_fits(key) && string_fits(value),
        FrameView::Get(key) => string_fits(key),
        FrameView::Delete(key) => string_fits(key),
    }
}

/// The bytes of a request.
pub open spec fn encode_frame(frame: FrameView) -> Seq<u8>
    recommends
        frame_fits(frame),
{
    match frame {
        FrameView::Put(key, value) => seq![TAG_PUT] + encode_string(key) + encode_string(value),
        FrameView::Get(key) => seq![TAG_GET] + encode_string(key),
        FrameView::Delete(key) => seq![TAG_DELETE] + encode_string(key),
    }
}

/// Reading one length-prefixed string from `bytes`: what comes out, and what
/// is left unread afterwards. A read that meets the end of the stream leaves
/// nothing unread.
pub open spec fn decode_string(bytes: Seq<u8>) -> (Result<Seq<char>, ReadFrameError>, Seq<u8>) {
    if bytes.len() == 0 || bytes.len() - 1 < bytes[0] {
        (Err(eof()), Seq::empty())
    } else {
        let body = bytes.subrange(1, 1 + bytes[0]);
        let rest = bytes.skip(1 + bytes[0]);
        if valid_utf8(body) {
            (Ok(decode_utf8(body)), rest)
        } else {
            (Err(ReadFrameError::InvalidUtf8), rest)
        }
    }
}

/// Reading one request from `bytes`: what comes out, and what is left unread
/// afterwards.
pub open spec fn decode_frame(bytes: Seq<u8>) -> (Result<FrameView, ReadFrameError>, Seq<u8>) {
    if bytes.len() == 0 {
        (Err(eof()), Seq::empty())
    } else if bytes[0] == TAG_GET {
        let (key, rest) = decode_string(bytes.skip(1));
        match key {
            Ok(key) => (Ok(FrameView::Get(key)), rest),
            Err(e) => (Err(e), rest),
        }
    } else if bytes[0] == TAG_DELETE {
        let (key, rest) = decode_string(bytes.skip(1));
        match key {
            Ok(key) => (Ok(FrameView::Delete(key)), rest),
            Err(e) => (Err(e), rest),
        }
    } else if bytes[0] == TAG_PUT {
        let (key, rest) = decode_string(bytes.skip(1));
        match key {
            Ok(key) => {
                let (value, rest) = decode_string(rest);
                match value {
                    Ok(value) => (Ok(FrameView::Put(key, value)), rest),
                    Err(e) => (Err(e), rest),
                }
            },
            Err(e) => (Err(e), rest),
        }
    } else {
        (Err(ReadFrameError::InvalidCommand), bytes.skip(1))
    }
}

/// A string that was written is read back as it was, and the bytes that
/// followed it are left unread.
pub proof fn lemma_string_round_trip(s: Seq<char>, tail: Seq<u8>)
    requires
        string_fits(s),
    ensures
        decode_string(encode_string(s) + tail) == (Ok::<Seq<char>, ReadFrameError>(s), tail),
{
    let body = encode_utf8(s);
    let bytes = encode_string(s) + tail;
    encode_utf8_valid_utf8(s);
    encode_utf8_decode_utf8(s);
    assert(bytes.subrange(1, 1 + bytes[0]) =~= body);
}

/// Round trip: a request whose strings fit is read back from its own bytes
/// as the same request, and whatever followed those bytes is left unread.
pub proof fn lemma_frame_round_trip(frame: FrameView, tail: Seq<u8>)
    requires
        frame_fits(frame),
    ensures
        decode_frame(encode_frame(frame) + tail) == (
            Ok::<FrameView, ReadFrameError>(frame),
            tail,
        ),
{
    let bytes = encode_frame(frame) + tail;
    match frame {
        FrameView::Put(key, value) => {
            assert(bytes.skip(1) =~= encode_string(key) + (encode_string(value) + tail));
            lemma_string_round_trip(key, encode_string(value) + tail);
            lemma_string_round_trip(value, tail);
        },
        FrameView::Get(key) => {
            assert(bytes.skip(1) =~= encode_string(key) + tail);
            lemma_string_round_trip(key, tail);
        },
        FrameView::Delete(key) => {
            assert(bytes.skip(1) =~= encode_string(key) + tail);
            lemma_string_round_trip(key, tail);
        },
    }
}

/// A first byte that is no tag is refused as an invalid command, whatever
/// follows it, and only that byte is consumed.
pub proof fn lemma_unknown_tag_is_invalid_command(bytes: Seq<u8>)
    requires
        bytes.len() > 0,
        !is_tag(bytes[0]),
    ensures
        decode_frame(bytes) == (
            Err::<FrameView, ReadFrameError>(ReadFrameError::InvalidCommand),
            bytes.skip(1),
        ),
{
}

/// A string whose announced length is more than the bytes that follow is an
/// I/O failure, never a shorter string.
pub proof fn lemma_short_string_is_io_failure(bytes: Seq<u8>)
    requires
        bytes.len() > 0,
        bytes[0] > bytes.len() - 1,
    ensures
        decode_string(bytes) == (Err::<Seq<char>, ReadFrameError>(eof()), Seq::<u8>::empty()),
{
}

/// A request cut off anywhere before its last byte is an I/O failure.
pub proof fn lemma_truncated_frame_is_io_failure(frame: FrameView, n: int)
    requires
        frame_fits(frame),
        0 <= n < encode_frame(frame).len(),
    ensures
        decode_frame(encode_frame(frame).take(n)) == (
            Err::<FrameView, ReadFrameError>(eof()),
            Seq::<u8>::empty(),
        ),
{
    let bytes = encode_frame(frame).take(n);
    if n > 0 {
        match frame {
            FrameView::Put(key, value) => {
                let k = encode_string(key);
                let v = encode_string(value);
                if n - 1 < k.len() {
                    lemma_truncated_string_is_io_failure(key, n - 1);
                } else {
                    assert(bytes.skip(1) =~= k + v.take(n - 1 - k.len()));
                    lemma_string_round_trip(key, v.take(n - 1 - k.len()));
                    lemma_truncated_string_is_io_failure(value, n - 1 - k.len());
                }
            },
            FrameView::Get(key) => {
                lemma_truncated_string_is_io_failure(key, n - 1);
            },
            FrameView::Delete(key) => {
                lemma_truncated_string_is_io_failure(key, n - 1);
            },
        }
    }
}

/// A length-prefixed string cut off before its last byte is an I/O failure.
pub proof fn lemma_truncated_string_is_io_failure(s: Seq<char>, n: int)
    requires
        string_fits(s),
        0 <= n < encode_string(s).len(),
    ensures
        decode_string(encode_string(s).take(n)) == (
            Err::<Seq<char>, ReadFrameError>(eof()),
            Seq::<u8>::empty(),
        ),
{
}

/// How many more bytes a reader must fetch before it can go on reading a
/// length-prefixed string of which `bytes` have arrived: the length byte
/// first, then what the length byte announces. Zero when the string is whole.
pub open spec fn string_wanted(bytes: Seq<u8>) -> int {
    if bytes.len() == 0 {
        1
    } else if bytes.len() - 1 < bytes[0] {
        bytes[0] - (bytes.len() - 1)
    } else {
        0
    }
}

/// How many more bytes a reader must fetch before it can go on reading a
/// request of which `bytes` have arrived. Zero when the request is whole or
/// is already refused.
pub open spec fn frame_wanted(bytes: Seq<u8>) -> int {
    if bytes.len() == 0 {
        1
    } else if bytes[0] == TAG_GET || bytes[0] == TAG_DELETE {
        string_wanted(bytes.skip(1))
    } else if bytes[0] == TAG_PUT {
        if string_wanted(bytes.skip(1)) > 0 {
            string_wanted(bytes.skip(1))
        } else {
            match decode_string(bytes.skip(1)) {
                (Ok(_), rest) => string_wanted(rest),
                (Err(_), _) => 0,
            }
        }
    } else {
        0
    }
}

/// Nothing more is wanted exactly when reading the request does not meet the
/// end of the stream.
pub proof fn lemma_wanted_none_iff_decided(bytes: Seq<u8>)
    ensures
        frame_wanted(bytes) == 0 <==> decode_frame(bytes).0 != Err::<FrameView, ReadFrameError>(
            eof(),
        ),
        0 <= frame_wanted(bytes) <= MAX_STRING_LEN,
{
}

/// Fetching what a string wants never takes a byte of what follows it.
pub proof fn lemma_string_wanted_never_overreads(bytes: Seq<u8>, more: Seq<u8>)
    requires
        string_wanted(bytes) > 0,
        more.len() == string_wanted(bytes),
    ensures
        decode_string(bytes + more).1 == Seq::<u8>::empty(),
{
}

/// Bytes that arrive after a whole string do not change how it is read.
pub proof fn lemma_whole_string_with_more(bytes: Seq<u8>, more: Seq<u8>)
    requires
        string_wanted(bytes) == 0,
    ensures
        decode_string(bytes + more).0 == decode_string(bytes).0,
        decode_string(bytes + more).1 == decode_string(bytes).1 + more,
{
    let all = bytes + more;
    assert(all.subrange(1, 1 + all[0]) =~= bytes.subrange(1, 1 + bytes[0]));
}

/// Fetching what is wanted never takes a byte of the next request: with
/// that many bytes more, reading the request leaves nothing unread.
pub proof fn lemma_wanted_never_overreads(bytes: Seq<u8>, more: Seq<u8>)
    requires
        frame_wanted(bytes) > 0,
        more.len() == frame_wanted(bytes),
    ensures
        decode_frame(bytes + more).1 == Seq::<u8>::empty(),
{
    if bytes.len() > 0 {
        assert((bytes + more).skip(1) =~= bytes.skip(1) + more);
        if string_wanted(bytes.skip(1)) > 0 {
            lemma_string_wanted_never_overreads(bytes.skip(1), more);
        } else {
            lemma_whole_string_with_more(bytes.skip(1), more);
            lemma_string_wanted_never_overreads(decode_string(bytes.skip(1)).1, more);
        }
    }
}

} // verus!
