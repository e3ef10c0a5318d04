//! The client's command line: one line of words becomes one request.
use crate::protocol::Request;
use crate::FrameView;
use vstd::prelude::*;
use vstd::utf8::*;

verus! {

/// What a line that is no command is answered with.
pub open spec fn usage() -> Seq<char> {
    "Invalid command. Use 'get <key>', 'put <key> <value>', 'del <key>' or 'exit'."@
}

/// The request that the words of a line ask for: `get` with a key, `put`
/// with a key and a value, or `del` with a key. Any other line asks for none.
pub open spec fn parsed(args: Seq<Seq<char>>) -> Option<FrameView> {
    if args.len() == 2 && args[0] == "get"@ {
        Some(FrameView::Get(args[1]))
    } else if args.len() == 3 && args[0] == "put"@ {
        Some(FrameView::Put(args[1], args[2]))
    } else if args.len() == 2 && args[0] == "del"@ {
        Some(FrameView::Delete(args[1]))
    } else {
        None
    }
}

/// The words of a line, each as a sequence of characters.
pub open spec fn words(args: &[&str]) -> Seq<Seq<char>> {
    args@.map_values(|word: &str| word@)
}

/// Whether two strings hold the same text.
fn same_text(a: &str, b: &str) -> (same: bool)
    ensures
        same == (a@ == b@),
{
    let x = a.as_bytes();
    let y = b.as_bytes();
    proof {
        encode_utf8_decode_utf8(a@);
        encode_utf8_decode_utf8(b@);
    }
    if x.len() != y.len() {
        return false;
    }
    let n: usize = x.len();
    let mut i: usize = 0;
    while i < n
        invariant
            i <= n,
            n == x@.len(),
            n == y@.len(),
            x@.take(i as int) == y@.take(i as int),
            x@ == encode_utf8(a@),
            y@ == encode_utf8(b@),
            decode_utf8(encode_utf8(a@)) == a@,
            decode_utf8(encode_utf8(b@)) == b@,
        decreases n - i,
    {
        if x[i] != y[i] {
            return false;
        }
        i += 1;
    }
    assert(x@.take(n as int) =~= x@);
    assert(y@.take(n as int) =~= y@);
    true
}

/// Turns the words of a line into a request, or into the usage message
/// where they ask for none.
pub fn parse_args(args: &[&str]) -> (res: Result<Request, String>)
    ensures
        match parsed(words(args)) {
            Some(frame) => res is Ok && res.unwrap()@ == frame,
            None => res is Err && res.unwrap_err()@ == usage(),
        },
{
    if args.len() == 2 && same_text(args[0], "get") {
        Ok(Request::Get(args[1].to_owned()))
    } else if args.len() == 3 && same_text(args[0], "put") {
        Ok(Request::Put(args[1].to_owned(), args[2].to_owned()))
    } else if args.len() == 2 && same_text(args[0], "del") {
        Ok(Request::Delete(args[1].to_owned()))
    } else {
        Err(
            "Invalid command. Use 'get <key>', 'put <key> <value>', 'del <key>' or 'exit'.".to_owned(),
        )
    }
}

} // verus!
