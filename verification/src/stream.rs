//! A client connection seen as plain bytes: what the peer sends before it
//! closes, how much of that has been consumed, and what was written back.
use vstd::prelude::*;

verus! {

/// Why a read from a [`Stream`] failed.
#[derive(Debug, Clone, Copy, PartialEq, Eq, Structural)]
pub enum StreamError {
    /// The peer closed the connection before the requested bytes arrived.
    UnexpectedEof,
}

impl StreamError {
    /// What [`StreamError::message`] says.
    pub open spec fn message_text(self) -> Seq<char> {
        "failed to fill whole buffer"@
    }

    /// The failure in words.
    pub fn message(&self) -> (text: String)
        ensures
            text@ == self.message_text(),
    {
        "failed to fill whole buffer".to_owned()
    }
}

/// What arrived from the peer, and how much of it was read.
struct Inbound {
    bytes: Vec<u8>,
    cursor: usize,
}

impl Inbound {
    #[verifier::type_invariant]
    spec fn cursor_in_bounds(self) -> bool {
        self.cursor <= self.bytes.len()
    }

    spec fn unread(self) -> Seq<u8> {
        self.bytes@.skip(self.cursor as int)
    }
}

/// One end of a byte-stream connection.
pub struct Stream {
    inbound: Inbound,
    outgoing: Vec<u8>,
}

impl Stream {
    /// The bytes that the peer has sent and that nothing has read yet.
    pub closed spec fn unread(self) -> Seq<u8> {
        self.inbound.unread()
    }

    /// The bytes written to the peer and not yet taken away.
    pub closed spec fn written(self) -> Seq<u8> {
        self.outgoing@
    }

    /// A connection on which the peer sends `incoming` and then closes.
    pub fn new(incoming: Vec<u8>) -> (s: Self)
        ensures
            s.unread() == incoming@,
            s.written() == Seq::<u8>::empty(),
    {
        Stream { inbound: Inbound { bytes: incoming, cursor: 0 }, outgoing: Vec::new() }
    }

    /// The number of unread bytes.
    pub fn remaining(&self) -> (n: usize)
        ensures
            n == self.unread().len(),
    {
        proof {
            use_type_invariant(&self.inbound);
        }
        self.inbound.bytes.len() - self.inbound.cursor
    }

    /// The unread bytes, without reading them.
    pub fn peek(&self) -> (bytes: &[u8])
        ensures
            bytes@ == self.unread(),
    {
        proof {
            use_type_invariant(&self.inbound);
        }
        vstd::slice::slice_subrange(
            self.inbound.bytes.as_slice(),
            self.inbound.cursor,
            self.inbound.bytes.len(),
        )
    }

    /// Reads exactly `n` bytes. When fewer than `n` are left the read fails
    /// and everything that was left is consumed.
    pub fn read_exact(&mut self, n: usize) -> (res: Result<Vec<u8>, StreamError>)
        ensures
            final(self).written() == old(self).written(),
            n <= old(self).unread().len() ==> res is Ok && res.unwrap()@ == old(self).unread().take(
                n as int,
            ) && final(self).unread() == old(self).unread().skip(n as int),
            n > old(self).unread().len() ==> res == Err::<Vec<u8>, StreamError>(
                StreamError::UnexpectedEof,
            ) && final(self).unread() == Seq::<u8>::empty(),
    {
        proof {
            use_type_invariant(&self.inbound);
        }
        let len: usize = self.inbound.bytes.len();
        let start: usize = self.inbound.cursor;
        if n > len - start {
            self.inbound.cursor = len;
            return Err(StreamError::UnexpectedEof);
        }
        let mut out: Vec<u8> = Vec::with_capacity(n);
        let mut i: usize = 0;
        while i < n
            invariant
                i <= n,
                start + n <= len,
                len == self.inbound.bytes.len(),
                *self == *old(self),
                out@ == self.inbound.bytes@.subrange(start as int, start + i),
            decreases n - i,
        {
            out.push(self.inbound.bytes[start + i]);
            i += 1;
        }
        self.inbound.cursor = start + n;
        Ok(out)
    }

    /// Writes all of `bytes` to the peer.
    pub fn write_all(&mut self, bytes: &[u8])
        ensures
            final(self).unread() == old(self).unread(),
            final(self).written() == old(self).written() + bytes@,
    {
        let n: usize = bytes.len();
        let mut i: usize = 0;
        while i < n
            invariant
                i <= n,
                n == bytes@.len(),
                self.inbound == old(self).inbound,
                self.outgoing@ == old(self).outgoing@ + bytes@.take(i as int),
            decreases n - i,
        {
            self.outgoing.push(bytes[i]);
            i += 1;
        }
    }

    /// Hands out what was written so far and leaves nothing written.
    pub fn take_written(&mut self) -> (out: Vec<u8>)
        ensures
            out@ == old(self).written(),
            final(self).written() == Seq::<u8>::empty(),
            final(self).unread() == old(self).unread(),
    {
        let mut out: Vec<u8> = Vec::new();
        std::mem::swap(&mut self.outgoing, &mut out);
        out
    }

    /// Makes `bytes` arrive from the peer, after what is still unread. What
    /// was read before is let go of.
    pub fn feed(&mut self, bytes: &[u8])
        ensures
            final(self).unread() == old(self).unread() + bytes@,
            final(self).written() == old(self).written(),
    {
        proof {
            use_type_invariant(&self.inbound);
        }
        let len: usize = self.inbound.bytes.len();
        let start: usize = self.inbound.cursor;
        let mut kept: Vec<u8> = Vec::new();
        let mut i: usize = start;
        while i < len
            invariant
                start <= i <= len,
                len == self.inbound.bytes.len(),
                *self == *old(self),
                kept@ == self.inbound.bytes@.subrange(start as int, i as int),
            decreases len - i,
        {
            kept.push(self.inbound.bytes[i]);
            i += 1;
        }
        let n: usize = bytes.len();
        let mut j: usize = 0;
        while j < n
            invariant
                j <= n,
                n == bytes@.len(),
                *self == *old(self),
                kept@ == old(self).unread() + bytes@.take(j as int),
            decreases n - j,
        {
            kept.push(bytes[j]);
            j += 1;
        }
        self.inbound = Inbound { bytes: kept, cursor: 0 };
    }
}

} // verus!
