//! The actor way of serving: one worker owns the store and takes commands,
//! one at a time and in the order in which they reach it. A get carries the
//! channel on which its reply is to go back; a put or a delete gets no reply.
use crate::session::{serve, Backend, ClientError};
use crate::store::{contents_after, contents_after_each, Contents, Store};
use crate::stream::Stream;
use crate::{read_frame, write_response, Frame, FrameView};
use vstd::prelude::*;

verus! {

/// A message to the worker. `R` is the reply channel of a get, which the
/// worker passes on with its reply and never looks into.
pub enum Command<R> {
    Put(String, String),
    Get(String, R),
    Delete(String),
}

/// What the worker sends back for a get: the value, or `None` where the key
/// is absent, together with the channel that it is to go out on.
pub struct Reply<R> {
    pub channel: R,
    pub value: Option<String>,
}

/// A [`Reply`] with its value as a sequence of characters.
pub ghost struct ReplyView<R> {
    pub channel: R,
    pub value: Option<Seq<char>>,
}

impl<R> View for Reply<R> {
    type V = ReplyView<R>;

    open spec fn view(&self) -> ReplyView<R> {
        ReplyView {
            channel: self.channel,
            value: match self.value {
                Some(value) => Some(value@),
                None => None,
            },
        }
    }
}

impl<R> Command<R> {
    /// The request that this command carries.
    pub open spec fn frame(self) -> FrameView {
        match self {
            Command::Put(key, value) => FrameView::Put(key@, value@),
            Command::Get(key, _) => FrameView::Get(key@),
            Command::Delete(key) => FrameView::Delete(key@),
        }
    }

    /// The reply that the worker owes for this command when the store holds
    /// `contents`: one for a get, none for a put or a delete.
    pub open spec fn reply(self, contents: Contents) -> Option<ReplyView<R>> {
        match self {
            Command::Get(key, channel) => Some(
                ReplyView {
                    channel,
                    value: if contents.contains_key(key@) {
                        Some(contents[key@])
                    } else {
                        None
                    },
                },
            ),
            _ => None,
        }
    }
}

/// The requests that `commands` carry, in their order.
pub open spec fn frames_of<R>(commands: Seq<Command<R>>) -> Seq<FrameView> {
    commands.map_values(|command: Command<R>| command.frame())
}

/// What the store holds after the worker took `commands` in order.
pub open spec fn contents_after_all<R>(contents: Contents, commands: Seq<Command<R>>) -> Contents {
    contents_after_each(contents, frames_of(commands))
}

/// The replies that the worker sends while it takes `commands` in order:
/// one for each get, answered from what the store holds at that moment.
pub open spec fn replies_to_all<R>(contents: Contents, commands: Seq<Command<R>>) -> Seq<
    ReplyView<R>,
>
    decreases commands.len(),
{
    if commands.len() == 0 {
        Seq::empty()
    } else {
        let before = replies_to_all(contents, commands.drop_last());
        match commands.last().reply(contents_after_all(contents, commands.drop_last())) {
            Some(reply) => before.push(reply),
            None => before,
        }
    }
}

/// The worker's step: applies one command to the store and gives the reply
/// to send, if the command asks for one.
pub fn apply_command<R>(store: &mut Store, command: Command<R>) -> (res: Option<Reply<R>>)
    ensures
        final(store)@ == contents_after(old(store)@, command.frame()),
        match command.reply(old(store)@) {
            Some(reply) => res is Some && res.unwrap()@ == reply,
            None => res is None,
        },
{
    match command {
        Command::Get(key, channel) => {
            let value = store.lookup(key.as_str());
            Some(Reply { channel, value })
        },
        Command::Put(key, value) => {
            let _ = store.put(key, value);
            None
        },
        Command::Delete(key) => {
            let _ = store.delete(key.as_str());
            None
        },
    }
}

/// The worker: takes the commands that its channel delivered, in that order,
/// applies each to the store, and collects the replies to send.
pub fn run_db_worker<R>(store: &mut Store, commands: Vec<Command<R>>) -> (replies: Vec<Reply<R>>)
    ensures
        final(store)@ == contents_after_all(old(store)@, commands@),
        replies@.map_values(|reply: Reply<R>| reply@) == replies_to_all(old(store)@, commands@),
{
    let ghost all = commands@;
    let mut incoming = commands;
    let mut pending: Vec<Command<R>> = Vec::new();
    while incoming.len() > 0
        invariant
            incoming@.len() + pending@.len() == all.len(),
            incoming@ == all.take(incoming@.len() as int),
            forall|j: int| 0 <= j < pending@.len() ==> pending@[j] == all[all.len() - 1 - j],
        decreases incoming@.len(),
    {
        let command = incoming.pop().unwrap();
        pending.push(command);
    }
    let mut replies: Vec<Reply<R>> = Vec::new();
    while pending.len() > 0
        invariant
            pending@.len() <= all.len(),
            forall|j: int| 0 <= j < pending@.len() ==> pending@[j] == all[all.len() - 1 - j],
            store@ == contents_after_all(old(store)@, all.take(all.len() - pending@.len())),
            replies@.map_values(|reply: Reply<R>| reply@) == replies_to_all(
                old(store)@,
                all.take(all.len() - pending@.len()),
            ),
        decreases pending@.len(),
    {
        let ghost done = all.len() - pending@.len();
        let command = pending.pop().unwrap();
        assert(all.take(done + 1).drop_last() =~= all.take(done));
        assert(frames_of(all.take(done + 1)).drop_last() =~= frames_of(all.take(done)));
        match apply_command(store, command) {
            Some(reply) => replies.push(reply),
            None => {},
        }
    }
    replies
}

/// What a connection answers to a get, from what came back on the reply
/// channel: the value, or the empty string where the worker reported the key
/// absent (`Some(None)`) or the channel closed without a reply (`None`).
pub fn reply_response(received: Option<Option<String>>) -> (res: String)
    ensures
        res@ == match received {
            Some(Some(value)) => value@,
            _ => Seq::<char>::empty(),
        },
{
    match received {
        Some(Some(value)) => value,
        _ => String::new(),
    }
}

/// The command that a connection sends for `frame`. The reply channel is
/// used by a get and dropped otherwise.
pub fn command_for<R>(frame: Frame, channel: R) -> (command: Command<R>)
    ensures
        command.frame() == frame@,
        frame is Get ==> command == Command::Get(frame->Get_0, channel),
{
    match frame {
        Frame::Get(key) => Command::Get(key, channel),
        Frame::Put(key, value) => Command::Put(key, value),
        Frame::Delete(key) => Command::Delete(key),
    }
}

/// Serves one connection until it fails, with the worker taking each command
/// as soon as it is sent: a get is answered with the worker's reply, a put
/// or a delete is handed over and not answered.
pub fn handle_client(stream: &mut Stream, store: &mut Store) -> (res: Result<(), ClientError>)
    ensures
        res == Err::<(), ClientError>(
            serve(Backend::Actor, old(stream).unread(), old(store)@, old(stream).written()).error,
        ),
        final(store)@ == serve(
            Backend::Actor,
            old(stream).unread(),
            old(store)@,
            old(stream).written(),
        ).contents,
        final(stream).written() == serve(
            Backend::Actor,
            old(stream).unread(),
            old(store)@,
            old(stream).written(),
        ).written,
        final(stream).unread() == serve(
            Backend::Actor,
            old(stream).unread(),
            old(store)@,
            old(stream).written(),
        ).unread,
{
    loop
        invariant
            serve(Backend::Actor, stream.unread(), store@, stream.written()) == serve(
                Backend::Actor,
                old(stream).unread(),
                old(store)@,
                old(stream).written(),
            ),
        decreases stream.unread().len(),
    {
        let frame = match read_frame(stream) {
            Ok(frame) => frame,
            Err(e) => {
                return Err(ClientError::Read(e));
            },
        };
        match apply_command(store, command_for(frame, ())) {
            Some(reply) => {
                let response = reply_response(Some(reply.value));
                match write_response(stream, response.as_str().as_bytes()) {
                    Ok(()) => {},
                    Err(e) => {
                        return Err(ClientError::Write(e));
                    },
                }
            },
            None => {},
        }
    }
}

/// A get that reaches the worker right after a put of the same key is
/// answered with the value that was put, whatever the worker took before.
pub proof fn lemma_worker_get_after_put<R>(
    contents: Contents,
    earlier: Seq<Command<R>>,
    key: String,
    value: String,
    channel: R,
)
    ensures
        replies_to_all(
            contents,
            earlier.push(Command::Put(key, value)).push(Command::Get(key, channel)),
        ).last() == (ReplyView { channel, value: Some(value@) }),
{
}

} // verus!
