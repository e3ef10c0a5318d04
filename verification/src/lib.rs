//! An in-memory key-value store served over a compact binary wire protocol.
//!
//! The crate root holds the request frame and its codec. `wire` states the
//! format over byte sequences, `stream` models one client connection as plain
//! bytes, `store` is the mapping itself, and `lock` and `actor` are the two
//! ways of serving connections against it.
use crate::stream::{Stream, StreamError};
use crate::wire::{
    decode_frame, decode_string, encode_bytes, encode_frame, encode_string, fits, frame_fits,
    frame_wanted, string_fits, string_wanted, MAX_STRING_LEN, TAG_DELETE, TAG_GET, TAG_PUT,
};
use vstd::prelude::*;
use vstd::string::StringExecFns;
use vstd::utf8::*;

pub mod actor;
pub mod client;
pub mod lock;
pub mod protocol;
pub mod session;
pub mod store;
pub mod stream;
pub mod wire;

verus! {

/// One client request.
#[derive(Debug, PartialEq, Eq)]
pub enum Frame {
    Put(String, String),
    Get(String),
    Delete(String),
}

/// What a [`Frame`] says, with its strings as sequences of characters.
pub ghost enum FrameView {
    Put(Seq<char>, Seq<char>),
    Get(Seq<char>),
    Delete(Seq<char>),
}

impl View for Frame {
    type V = FrameView;

    open spec fn view(&self) -> FrameView {
        match self {
            Frame::Put(key, value) => FrameView::Put(key@, value@),
            Frame::Get(key) => FrameView::Get(key@),
            Frame::Delete(key) => FrameView::Delete(key@),
        }
    }
}

/// Why a request could not be read.
#[derive(Debug, Clone, Copy, PartialEq, Eq, Structural)]
pub enum ReadFrameError {
    /// The stream failed, which includes its ending inside a frame.
    IoError(StreamError),
    /// A string's bytes were not UTF-8.
    InvalidUtf8,
    /// The tag byte names no request.
    InvalidCommand,
}

impl ReadFrameError {
    /// What [`ReadFrameError::message`] says.
    pub open spec fn message_text(self) -> Seq<char> {
        match self {
            ReadFrameError::IoError(e) => "IO error: "@ + e.message_text(),
            ReadFrameError::InvalidUtf8 => "Invalid UTF-8"@,
            ReadFrameError::InvalidCommand => "Invalid command"@,
        }
    }

    /// The failure in words, for whoever runs the server.
    pub fn message(&self) -> (text: String)
        ensures
            text@ == self.message_text(),
    {
        match self {
            ReadFrameError::IoError(e) => "IO error: ".to_owned().concat(e.message().as_str()),
            ReadFrameError::InvalidUtf8 => "Invalid UTF-8".to_owned(),
            ReadFrameError::InvalidCommand => "Invalid command".to_owned(),
        }
    }
}

impl From<StreamError> for ReadFrameError {
    fn from(err: StreamError) -> (res: Self) {
        ReadFrameError::IoError(err)
    }
}

impl vstd::std_specs::convert::FromSpecImpl<StreamError> for ReadFrameError {
    open spec fn obeys_from_spec() -> bool {
        true
    }

    open spec fn from_spec(err: StreamError) -> Self {
        ReadFrameError::IoError(err)
    }
}

impl From<std::string::FromUtf8Error> for ReadFrameError {
    fn from(_err: std::string::FromUtf8Error) -> (res: Self) {
        ReadFrameError::InvalidUtf8
    }
}

impl vstd::std_specs::convert::FromSpecImpl<std::string::FromUtf8Error> for ReadFrameError {
    open spec fn obeys_from_spec() -> bool {
        true
    }

    open spec fn from_spec(err: std::string::FromUtf8Error) -> Self {
        ReadFrameError::InvalidUtf8
    }
}

/// Why a request or a response could not be written.
#[derive(Debug, Clone, Copy, PartialEq, Eq, Structural)]
pub enum WriteFrameError {
    /// A string is longer than a length prefix can announce.
    ValueTooLong,
}

/// The error of `String::from_utf8`, which is carried and never looked into.
#[verifier::external_type_specification]
#[verifier::external_body]
pub struct ExFromUtf8Error(std::string::FromUtf8Error);

impl WriteFrameError {
    /// What [`WriteFrameError::message`] says.
    pub open spec fn message_text(self) -> Seq<char> {
        "Value too long"@
    }

    /// The failure in words, for whoever runs the server.
    pub fn message(&self) -> (text: String)
        ensures
            text@ == self.message_text(),
    {
        "Value too long".to_owned()
    }
}

/// `String::from_utf8` succeeds exactly on bytes that are valid UTF-8, and
/// the string it then returns holds those very bytes.
pub assume_specification[ String::from_utf8 ](vec: Vec<u8>) -> (res: Result<
    String,
    std::string::FromUtf8Error,
>)
    ensures
        res is Ok <==> valid_utf8(vec@),
        res is Ok ==> encode_utf8(res.unwrap()@) == vec@,
;

/// The outcome of a read with the value that was read taken by its view.
pub open spec fn outcome<T: View>(res: Result<T, ReadFrameError>) -> Result<T::V, ReadFrameError> {
    match res {
        Ok(value) => Ok(value@),
        Err(e) => Err(e),
    }
}

/// Reads one length-prefixed string.
pub fn read_string_from_stream(stream: &mut Stream) -> (res: Result<String, ReadFrameError>)
    ensures
        outcome(res) == decode_string(old(stream).unread()).0,
        final(stream).unread() == decode_string(old(stream).unread()).1,
        final(stream).written() == old(stream).written(),
{
    let ghost bytes = stream.unread();
    let head = match stream.read_exact(1) {
        Ok(head) => head,
        Err(e) => {
            return Err(ReadFrameError::from(e));
        },
    };
    let len: usize = head[0] as usize;
    let body = match stream.read_exact(len) {
        Ok(body) => body,
        Err(e) => {
            return Err(ReadFrameError::from(e));
        },
    };
    assert(body@ =~= bytes.subrange(1, 1 + bytes[0]));
    match String::from_utf8(body) {
        Ok(s) => {
            proof {
                encode_utf8_decode_utf8(s@);
            }
            Ok(s)
        },
        Err(e) => Err(ReadFrameError::from(e)),
    }
}

/// Reads one request: a tag byte, then the strings that the tag calls for.
pub fn read_frame(stream: &mut Stream) -> (res: Result<Frame, ReadFrameError>)
    ensures
        outcome(res) == decode_frame(old(stream).unread()).0,
        final(stream).unread() == decode_frame(old(stream).unread()).1,
        final(stream).written() == old(stream).written(),
{
    let ghost bytes = stream.unread();
    let head = match stream.read_exact(1) {
        Ok(head) => head,
        Err(e) => {
            return Err(ReadFrameError::from(e));
        },
    };
    let tag: u8 = head[0];
    if tag == TAG_GET {
        match read_string_from_stream(stream) {
            Ok(key) => Ok(Frame::Get(key)),
            Err(e) => Err(e),
        }
    } else if tag == TAG_PUT {
        let key = match read_string_from_stream(stream) {
            Ok(key) => key,
            Err(e) => {
                return Err(e);
            },
        };
        match read_string_from_stream(stream) {
            Ok(value) => Ok(Frame::Put(key, value)),
            Err(e) => Err(e),
        }
    } else if tag == TAG_DELETE {
        match read_string_from_stream(stream) {
            Ok(key) => Ok(Frame::Delete(key)),
            Err(e) => Err(e),
        }
    } else {
        Err(ReadFrameError::InvalidCommand)
    }
}

/// Writes a response: `buffer` behind its length prefix. A buffer that is
/// too long for the prefix is refused and nothing is written.
pub fn write_response(stream: &mut Stream, buffer: &[u8]) -> (res: Result<(), WriteFrameError>)
    ensures
        final(stream).unread() == old(stream).unread(),
        fits(buffer@) ==> res is Ok && final(stream).written() == old(stream).written()
            + encode_bytes(buffer@),
        !fits(buffer@) ==> res == Err::<(), WriteFrameError>(WriteFrameError::ValueTooLong)
            && final(stream).written() == old(stream).written(),
{
    if buffer.len() > MAX_STRING_LEN {
        return Err(WriteFrameError::ValueTooLong);
    }
    let prefix: [u8; 1] = [buffer.len() as u8];
    stream.write_all(&prefix);
    stream.write_all(buffer);
    Ok(())
}

/// Writes the UTF-8 form of `s` behind its length prefix, or refuses it as
/// too long and writes nothing.
fn write_len_string(stream: &mut Stream, s: &str) -> (res: Result<(), WriteFrameError>)
    ensures
        final(stream).unread() == old(stream).unread(),
        string_fits(s@) ==> res is Ok && final(stream).written() == old(stream).written()
            + encode_string(s@),
        !string_fits(s@) ==> res == Err::<(), WriteFrameError>(WriteFrameError::ValueTooLong)
            && final(stream).written() == old(stream).written(),
{
    write_response(stream, s.as_bytes())
}

/// Whether the UTF-8 form of `s` fits behind a length prefix.
fn fits_prefix(s: &str) -> (b: bool)
    ensures
        b == string_fits(s@),
{
    s.as_bytes().len() <= MAX_STRING_LEN
}

/// Writes one request. A request with a string that is too long for its
/// length prefix is refused as a whole: nothing of it is written.
pub fn write_frame(stream: &mut Stream, frame: &Frame) -> (res: Result<(), WriteFrameError>)
    ensures
        final(stream).unread() == old(stream).unread(),
        frame_fits(frame@) ==> res is Ok && final(stream).written() == old(stream).written()
            + encode_frame(frame@),
        !frame_fits(frame@) ==> res == Err::<(), WriteFrameError>(WriteFrameError::ValueTooLong)
            && final(stream).written() == old(stream).written(),
{
    match frame {
        Frame::Get(key) => {
            if !fits_prefix(key.as_str()) {
                return Err(WriteFrameError::ValueTooLong);
            }
            let tag: [u8; 1] = [TAG_GET];
            stream.write_all(&tag);
            write_len_string(stream, key.as_str())
        },
        Frame::Put(key, value) => {
            if !fits_prefix(key.as_str()) || !fits_prefix(value.as_str()) {
                return Err(WriteFrameError::ValueTooLong);
            }
            let tag: [u8; 1] = [TAG_PUT];
            stream.write_all(&tag);
            let _ = write_len_string(stream, key.as_str());
            write_len_string(stream, value.as_str())
        },
        Frame::Delete(key) => {
            if !fits_prefix(key.as_str()) {
                return Err(WriteFrameError::ValueTooLong);
            }
            let tag: [u8; 1] = [TAG_DELETE];
            stream.write_all(&tag);
            write_len_string(stream, key.as_str())
        },
    }
}

/// How many more bytes a length-prefixed string that starts at `from` wants.
fn string_bytes_wanted(bytes: &[u8], from: usize) -> (wanted: usize)
    requires
        from <= bytes@.len(),
    ensures
        wanted == string_wanted(bytes@.skip(from as int)),
{
    let have: usize = bytes.len() - from;
    if have == 0 {
        return 1;
    }
    let len: usize = bytes[from] as usize;
    if have - 1 < len {
        len - (have - 1)
    } else {
        0
    }
}

/// How many more bytes to fetch from the peer before a response of which
/// `bytes` have arrived can be read further. Zero when the response is whole.
pub fn response_bytes_wanted(bytes: &[u8]) -> (wanted: usize)
    ensures
        wanted == string_wanted(bytes@),
{
    string_bytes_wanted(bytes, 0)
}

/// How many more bytes to fetch from the peer before a request of which
/// `bytes` have arrived can be read further. Zero when the request is whole,
/// or is refused already and needs no more.
pub fn bytes_wanted(bytes: &[u8]) -> (wanted: usize)
    ensures
        wanted == frame_wanted(bytes@),
{
    if bytes.len() == 0 {
        return 1;
    }
    let tag: u8 = bytes[0];
    if tag == TAG_GET || tag == TAG_DELETE {
        string_bytes_wanted(bytes, 1)
    } else if tag == TAG_PUT {
        let wanted: usize = string_bytes_wanted(bytes, 1);
        if wanted > 0 {
            return wanted;
        }
        let ghost key = bytes@.skip(1);
        let end: usize = 2 + bytes[1] as usize;
        let body = vstd::slice::slice_to_vec(vstd::slice::slice_subrange(bytes, 2, end));
        assert(body@ =~= key.subrange(1, 1 + key[0]));
        match String::from_utf8(body) {
            Ok(_) => string_bytes_wanted(bytes, end),
            Err(_) => 0,
        }
    } else {
        0
    }
}

} // verus!
