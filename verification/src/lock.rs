//! The shared-lock way of serving: a connection works on the store itself
//! and answers every request. Whoever shares the store between connections
//! holds the lock around each request.
use crate::session::{serve, Backend, ClientError};
use crate::store::Store;
use crate::stream::Stream;
use crate::{read_frame, write_response};
use vstd::prelude::*;

verus! {

/// Serves one connection until it fails: reads a request, applies it to the
/// store, writes the response, and so on. It never ends without a failure,
/// since the end of the stream is one.
pub fn handle_client(stream: &mut Stream, store: &mut Store) -> (res: Result<(), ClientError>)
    ensures
        res == Err::<(), ClientError>(
            serve(
                Backend::SharedLock,
                old(stream).unread(),
                old(store)@,
                old(stream).written(),
            ).error,
        ),
        final(store)@ == serve(
            Backend::SharedLock,
            old(stream).unread(),
            old(store)@,
            old(stream).written(),
        ).contents,
        final(stream).written() == serve(
            Backend::SharedLock,
            old(stream).unread(),
            old(store)@,
            old(stream).written(),
        ).written,
        final(stream).unread() == serve(
            Backend::SharedLock,
            old(stream).unread(),
            old(store)@,
            old(stream).written(),
        ).unread,
{
    loop
        invariant
            serve(Backend::SharedLock, stream.unread(), store@, stream.written()) == serve(
                Backend::SharedLock,
                old(stream).unread(),
                old(store)@,
                old(stream).written(),
            ),
        decreases stream.unread().len(),
    {
        let frame = match read_frame(stream) {
            Ok(frame) => frame,
            Err(e) => {
                return Err(ClientError::Read(e));
            },
        };
        let response = store.apply(frame);
        match write_response(stream, response.as_str().as_bytes()) {
            Ok(()) => {},
            Err(e) => {
                return Err(ClientError::Write(e));
            },
        }
    }
}

} // verus!
