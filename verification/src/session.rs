//! What serving one connection amounts to: the requests on the stream are
//! read and applied one after another until a read or a write fails.
use crate::store::{contents_after, contents_after_each, get_response, response_to, Contents};
use crate::wire::{
    decode_frame, encode_frame, encode_string, eof, frame_fits, lemma_frame_round_trip,
    string_fits,
};
use crate::{FrameView, ReadFrameError, WriteFrameError};
use vstd::prelude::*;

verus! {

/// Why a connection was given up.
#[derive(Debug, Clone, Copy, PartialEq, Eq, Structural)]
pub enum ClientError {
    /// The next request could not be read.
    Read(ReadFrameError),
    /// The response could not be written.
    Write(WriteFrameError),
}

/// The two ways of serving connections against the one store.
pub ghost enum Backend {
    /// Every connection works on the store itself, under a reader/writer
    /// lock, and every request is answered.
    SharedLock,
    /// One worker owns the store and takes commands; only a get is answered.
    Actor,
}

/// The response that a client gets to `frame`, if it gets one.
pub open spec fn answer(backend: Backend, contents: Contents, frame: FrameView) -> Option<
    Seq<char>,
> {
    match backend {
        Backend::SharedLock => Some(response_to(contents, frame)),
        Backend::Actor => match frame {
            FrameView::Get(key) => Some(get_response(contents, key)),
            _ => None,
        },
    }
}

/// How a connection ended.
pub ghost struct Served {
    /// The failure that ended it.
    pub error: ClientError,
    /// What the store held then.
    pub contents: Contents,
    /// Everything written to the client.
    pub written: Seq<u8>,
    /// What was left unread.
    pub unread: Seq<u8>,
}

/// Serving a connection on which `unread` is still to come, against a store
/// that holds `contents`, after `written` went out. Each request is applied
/// to the store before its response is written, so a response that cannot be
/// written leaves the request applied.
pub open spec fn serve(
    backend: Backend,
    unread: Seq<u8>,
    contents: Contents,
    written: Seq<u8>,
) -> Served
    decreases unread.len(),
{
    let (read, rest) = decode_frame(unread);
    match read {
        Err(e) => Served { error: ClientError::Read(e), contents, written, unread: rest },
        Ok(frame) => {
            let after = contents_after(contents, frame);
            match answer(backend, contents, frame) {
                None => serve(backend, rest, after, written),
                Some(response) => if string_fits(response) {
                    serve(backend, rest, after, written + encode_string(response))
                } else {
                    Served {
                        error: ClientError::Write(WriteFrameError::ValueTooLong),
                        contents: after,
                        written,
                        unread: rest,
                    }
                },
            }
        },
    }
}

/// The bytes of `frames`, one request after another.
pub open spec fn encode_each(frames: Seq<FrameView>) -> Seq<u8>
    decreases frames.len(),
{
    if frames.len() == 0 {
        Seq::empty()
    } else {
        encode_each(frames.drop_last()) + encode_frame(frames.last())
    }
}

/// The bytes of the response to `frame`: nothing where it gets none.
pub open spec fn answer_bytes(backend: Backend, contents: Contents, frame: FrameView) -> Seq<u8> {
    match answer(backend, contents, frame) {
        Some(response) => encode_string(response),
        None => Seq::empty(),
    }
}

/// Whether the response to `frame`, if it gets one, can be written.
pub open spec fn answer_fits(backend: Backend, contents: Contents, frame: FrameView) -> bool {
    match answer(backend, contents, frame) {
        Some(response) => string_fits(response),
        None => true,
    }
}

/// The bytes of the responses to `frames`, each answered from what the store
/// holds when its turn comes.
pub open spec fn answers_to_each(backend: Backend, contents: Contents, frames: Seq<FrameView>) -> Seq<
    u8,
>
    decreases frames.len(),
{
    if frames.len() == 0 {
        Seq::empty()
    } else {
        answers_to_each(backend, contents, frames.drop_last()) + answer_bytes(
            backend,
            contents_after_each(contents, frames.drop_last()),
            frames.last(),
        )
    }
}

/// Whether each of `frames` can be sent and the response to each can be
/// written when its turn comes.
pub open spec fn all_fit(backend: Backend, contents: Contents, frames: Seq<FrameView>) -> bool
    decreases frames.len(),
{
    frames.len() == 0 || {
        &&& all_fit(backend, contents, frames.drop_last())
        &&& frame_fits(frames.last())
        &&& answer_fits(backend, contents_after_each(contents, frames.drop_last()), frames.last())
    }
}

/// Whether every value in the store can be written as a response.
pub open spec fn values_fit(contents: Contents) -> bool {
    forall|key: Seq<char>| contents.contains_key(key) ==> string_fits(#[trigger] contents[key])
}

/// Whether each of `frames` can be sent.
pub open spec fn frames_fit(frames: Seq<FrameView>) -> bool {
    forall|i: int| 0 <= i < frames.len() ==> frame_fits(#[trigger] frames[i])
}

/// On a stream that ends cleanly nothing is served: the read fails at once.
pub proof fn lemma_serve_nothing(backend: Backend, contents: Contents, written: Seq<u8>)
    ensures
        serve(backend, Seq::empty(), contents, written) == (Served {
            error: ClientError::Read(eof()),
            contents,
            written,
            unread: Seq::empty(),
        }),
{
}

/// Serving the bytes of whole requests applies the requests to the store in
/// their order and writes the responses in that order; what follows those
/// bytes is served from there on.
pub proof fn lemma_serve_whole_requests(
    backend: Backend,
    frames: Seq<FrameView>,
    tail: Seq<u8>,
    contents: Contents,
    written: Seq<u8>,
)
    requires
        all_fit(backend, contents, frames),
    ensures
        serve(backend, encode_each(frames) + tail, contents, written) == serve(
            backend,
            tail,
            contents_after_each(contents, frames),
            written + answers_to_each(backend, contents, frames),
        ),
    decreases frames.len(),
{
    if frames.len() == 0 {
        assert(written + answers_to_each(backend, contents, frames) =~= written);
    } else {
        let earlier = frames.drop_last();
        let last = frames.last();
        let before = contents_after_each(contents, earlier);
        let sent = written + answers_to_each(backend, contents, earlier);
        lemma_serve_whole_requests(backend, earlier, encode_frame(last) + tail, contents, written);
        assert(encode_each(frames) + tail =~= encode_each(earlier) + (encode_frame(last) + tail));
        lemma_frame_round_trip(last, tail);
        assert(sent + answer_bytes(backend, before, last) =~= written + answers_to_each(
            backend,
            contents,
            frames,
        ));
        assert(sent + Seq::<u8>::empty() =~= sent);
    }
}

/// Where every value in the store can be written as a response, requests
/// that can be sent never meet a response that cannot be written, and they
/// leave the store so.
pub proof fn lemma_fitting_requests_are_answered(
    backend: Backend,
    contents: Contents,
    frames: Seq<FrameView>,
)
    requires
        values_fit(contents),
        frames_fit(frames),
    ensures
        all_fit(backend, contents, frames),
        values_fit(contents_after_each(contents, frames)),
    decreases frames.len(),
{
    if frames.len() > 0 {
        lemma_fitting_requests_are_answered(backend, contents, frames.drop_last());
    }
}

} // verus!
