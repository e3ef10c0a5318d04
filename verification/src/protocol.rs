//! The protocol as a client speaks it: requests to send, and the one string
//! that comes back.
use crate::stream::{Stream, StreamError};
use crate::wire::{decode_frame, decode_string, encode_bytes, encode_frame, fits, frame_fits};
use crate::{Frame, FrameView, ReadFrameError, WriteFrameError};
use vstd::prelude::*;

verus! {

/// One request of a client. It says what a [`Frame`] says.
#[derive(Debug, PartialEq, Eq)]
pub enum Request {
    Put(String, String),
    Get(String),
    Delete(String),
}

impl View for Request {
    type V = FrameView;

    open spec fn view(&self) -> FrameView {
        match self {
            Request::Put(key, value) => FrameView::Put(key@, value@),
            Request::Get(key) => FrameView::Get(key@),
            Request::Delete(key) => FrameView::Delete(key@),
        }
    }
}

/// Why a request or a string could not be read.
#[derive(Debug, Clone, Copy, PartialEq, Eq, Structural)]
pub enum ReadRequestError {
    /// The stream failed, which includes its ending too early.
    IoError(StreamError),
    /// A string's bytes were not UTF-8.
    InvalidUtf8,
    /// The tag byte names no request.
    InvalidCommand,
}

impl ReadRequestError {
    /// The same failure, as the frame codec names it.
    pub open spec fn frame_error(self) -> ReadFrameError {
        match self {
            ReadRequestError::IoError(e) => ReadFrameError::IoError(e),
            ReadRequestError::InvalidUtf8 => ReadFrameError::InvalidUtf8,
            ReadRequestError::InvalidCommand => ReadFrameError::InvalidCommand,
        }
    }

    /// The same failure, as the frame codec names it.
    pub fn to_frame_error(&self) -> (e: ReadFrameError)
        ensures
            e == self.frame_error(),
    {
        match self {
            ReadRequestError::IoError(e) => ReadFrameError::IoError(*e),
            ReadRequestError::InvalidUtf8 => ReadFrameError::InvalidUtf8,
            ReadRequestError::InvalidCommand => ReadFrameError::InvalidCommand,
        }
    }

    /// Names a failure of the frame codec as this module does.
    pub fn from_frame_error(e: ReadFrameError) -> (res: Self)
        ensures
            res.frame_error() == e,
    {
        match e {
            ReadFrameError::IoError(e) => ReadRequestError::IoError(e),
            ReadFrameError::InvalidUtf8 => ReadRequestError::InvalidUtf8,
            ReadFrameError::InvalidCommand => ReadRequestError::InvalidCommand,
        }
    }

    /// The failure in words: what the frame codec says of the same failure.
    pub fn message(&self) -> (text: String)
        ensures
            text@ == self.frame_error().message_text(),
    {
        self.to_frame_error().message()
    }
}

impl From<StreamError> for ReadRequestError {
    fn from(err: StreamError) -> (res: Self) {
        ReadRequestError::IoError(err)
    }
}

impl vstd::std_specs::convert::FromSpecImpl<StreamError> for ReadRequestError {
    open spec fn obeys_from_spec() -> bool {
        true
    }

    open spec fn from_spec(err: StreamError) -> Self {
        ReadRequestError::IoError(err)
    }
}

impl From<std::string::FromUtf8Error> for ReadRequestError {
    fn from(_err: std::string::FromUtf8Error) -> (res: Self) {
        ReadRequestError::InvalidUtf8
    }
}

impl vstd::std_specs::convert::FromSpecImpl<std::string::FromUtf8Error> for ReadRequestError {
    open spec fn obeys_from_spec() -> bool {
        true
    }

    open spec fn from_spec(err: std::string::FromUtf8Error) -> Self {
        ReadRequestError::InvalidUtf8
    }
}

impl Request {
    /// The frame that says the same.
    pub fn into_frame(self) -> (frame: Frame)
        ensures
            frame@ == self@,
    {
        match self {
            Request::Put(key, value) => Frame::Put(key, value),
            Request::Get(key) => Frame::Get(key),
            Request::Delete(key) => Frame::Delete(key),
        }
    }

    /// The request that says what `frame` says.
    pub fn from_frame(frame: Frame) -> (request: Self)
        ensures
            request@ == frame@,
    {
        match frame {
            Frame::Put(key, value) => Request::Put(key, value),
            Frame::Get(key) => Request::Get(key),
            Frame::Delete(key) => Request::Delete(key),
        }
    }

    /// A frame that says the same, with copies of the strings.
    pub fn to_frame(&self) -> (frame: Frame)
        ensures
            frame@ == self@,
    {
        match self {
            Request::Put(key, value) => Frame::Put(key.clone(), value.clone()),
            Request::Get(key) => Frame::Get(key.clone()),
            Request::Delete(key) => Frame::Delete(key.clone()),
        }
    }
}

/// The outcome of a read, named as the frame codec names it and with the
/// value that was read taken by its view.
pub open spec fn outcome<T: View>(res: Result<T, ReadRequestError>) -> Result<
    T::V,
    ReadFrameError,
> {
    match res {
        Ok(value) => Ok(value@),
        Err(e) => Err(e.frame_error()),
    }
}

/// Reads one length-prefixed string, such as a response.
pub fn read_string_from_stream(stream: &mut Stream) -> (res: Result<String, ReadRequestError>)
    ensures
        outcome(res) == decode_string(old(stream).unread()).0,
        final(stream).unread() == decode_string(old(stream).unread()).1,
        final(stream).written() == old(stream).written(),
{
    match crate::read_string_from_stream(stream) {
        Ok(s) => Ok(s),
        Err(e) => Err(ReadRequestError::from_frame_error(e)),
    }
}

/// Reads one request: a tag byte, then the strings that the tag calls for.
pub fn read_request(stream: &mut Stream) -> (res: Result<Request, ReadRequestError>)
    ensures
        outcome(res) == decode_frame(old(stream).unread()).0,
        final(stream).unread() == decode_frame(old(stream).unread()).1,
        final(stream).written() == old(stream).written(),
{
    match crate::read_frame(stream) {
        Ok(frame) => Ok(Request::from_frame(frame)),
        Err(e) => Err(ReadRequestError::from_frame_error(e)),
    }
}

/// Writes a response: `buffer` behind its length prefix. A buffer that is
/// too long for the prefix is refused and nothing is written.
pub fn write_response(stream: &mut Stream, buffer: &[u8]) -> (res: Result<(), WriteFrameError>)
    ensures
        final(stream).unread() == old(stream).unread(),
        fits(buffer@) ==> res is Ok && final(stream).written() == old(stream).written()
            + encode_bytes(buffer@),
        !fits(buffer@) ==> res == Err::<(), WriteFrameError>(WriteFrameError::ValueTooLong)
            && final(stream).written() == old(stream).written(),
{
    crate::write_response(stream, buffer)
}

/// Writes one request. A request with a string that is too long for its
/// length prefix is refused as a whole: nothing of it is written.
pub fn write_request(stream: &mut Stream, request: &Request) -> (res: Result<(), WriteFrameError>)
    ensures
        final(stream).unread() == old(stream).unread(),
        frame_fits(request@) ==> res is Ok && final(stream).written() == old(stream).written()
            + encode_frame(request@),
        !frame_fits(request@) ==> res == Err::<(), WriteFrameError>(
            WriteFrameError::ValueTooLong,
        ) && final(stream).written() == old(stream).written(),
{
    let frame = request.to_frame();
    crate::write_frame(stream, &frame)
}

} // verus!
