//! The store: one mapping from string keys to string values, changed only by
//! whole operations.
use crate::{Frame, FrameView};
use vstd::hash_map::StringHashMap;
use vstd::prelude::*;

verus! {

/// What a store holds: each present key with its value.
pub type Contents = Map<Seq<char>, Seq<char>>;

/// The answer to a get: the value under `key`, or the empty string where the
/// key is absent.
pub open spec fn get_response(contents: Contents, key: Seq<char>) -> Seq<char> {
    if contents.contains_key(key) {
        contents[key]
    } else {
        Seq::empty()
    }
}

/// The answer to a put: the value just written where the key was absent, the
/// empty string where a value was replaced.
pub open spec fn put_response(contents: Contents, key: Seq<char>, value: Seq<char>) -> Seq<char> {
    if contents.contains_key(key) {
        Seq::empty()
    } else {
        value
    }
}

/// The answer to a delete: the value that was removed, or the empty string
/// where there was none.
pub open spec fn delete_response(contents: Contents, key: Seq<char>) -> Seq<char> {
    get_response(contents, key)
}

/// The key that a request is about.
pub open spec fn frame_key(frame: FrameView) -> Seq<char> {
    match frame {
        FrameView::Put(key, _) => key,
        FrameView::Get(key) => key,
        FrameView::Delete(key) => key,
    }
}

/// What the store holds after `frame` was applied to `contents`.
pub open spec fn contents_after(contents: Contents, frame: FrameView) -> Contents {
    match frame {
        FrameView::Put(key, value) => contents.insert(key, value),
        FrameView::Get(_) => contents,
        FrameView::Delete(key) => contents.remove(key),
    }
}

/// The answer to `frame` when it is applied to `contents`.
pub open spec fn response_to(contents: Contents, frame: FrameView) -> Seq<char> {
    match frame {
        FrameView::Put(key, value) => put_response(contents, key, value),
        FrameView::Get(key) => get_response(contents, key),
        FrameView::Delete(key) => delete_response(contents, key),
    }
}

/// The mapping from keys to values.
pub struct Store {
    map: StringHashMap<String>,
}

impl View for Store {
    type V = Contents;

    closed spec fn view(&self) -> Contents {
        self.map@.map_values(|value: String| value@)
    }
}

impl Store {
    /// A store that holds nothing.
    pub fn new() -> (store: Self)
        ensures
            store@ == Contents::empty(),
    {
        let store = Store { map: StringHashMap::new() };
        store
    }

    /// The value under `key`, if the key is present.
    pub fn lookup(&self, key: &str) -> (res: Option<String>)
        ensures
            self@.contains_key(key@) ==> res is Some && res.unwrap()@ == self@[key@],
            !self@.contains_key(key@) ==> res is None,
    {
        match self.map.get(key) {
            Some(value) => Some(value.clone()),
            None => None,
        }
    }

    /// Answers a get.
    pub fn get(&self, key: &str) -> (res: String)
        ensures
            res@ == get_response(self@, key@),
    {
        match self.lookup(key) {
            Some(value) => value,
            None => String::new(),
        }
    }

    /// Writes `value` under `key`, replacing what was there, and answers the
    /// put.
    pub fn put(&mut self, key: String, value: String) -> (res: String)
        ensures
            final(self)@ == old(self)@.insert(key@, value@),
            res@ == put_response(old(self)@, key@, value@),
    {
        let res = if self.map.contains_key(key.as_str()) {
            String::new()
        } else {
            value.clone()
        };
        self.map.insert(key, value);
        res
    }

    /// Removes `key` with its value and answers the delete.
    pub fn delete(&mut self, key: &str) -> (res: String)
        ensures
            final(self)@ == old(self)@.remove(key@),
            res@ == delete_response(old(self)@, key@),
    {
        let res = self.get(key);
        self.map.remove(key);
        res
    }

    /// Applies one request and gives the answer to it.
    pub fn apply(&mut self, frame: Frame) -> (res: String)
        ensures
            final(self)@ == contents_after(old(self)@, frame@),
            res@ == response_to(old(self)@, frame@),
    {
        match frame {
            Frame::Get(key) => self.get(key.as_str()),
            Frame::Put(key, value) => self.put(key, value),
            Frame::Delete(key) => self.delete(key.as_str()),
        }
    }
}

/// After a put the key is present with the value that was put, whatever
/// was there before.
pub proof fn lemma_put_makes_present(contents: Contents, key: Seq<char>, value: Seq<char>)
    ensures
        contents_after(contents, FrameView::Put(key, value)).contains_key(key),
        contents_after(contents, FrameView::Put(key, value))[key] == value,
{
}

/// After a delete the key is absent, whatever was there before.
pub proof fn lemma_delete_makes_absent(contents: Contents, key: Seq<char>)
    ensures
        !contents_after(contents, FrameView::Delete(key)).contains_key(key),
{
}

/// A get changes nothing.
pub proof fn lemma_get_changes_nothing(contents: Contents, key: Seq<char>)
    ensures
        contents_after(contents, FrameView::Get(key)) == contents,
{
}

/// A get that follows a put of the same key answers with the value that was
/// put.
pub proof fn lemma_get_after_put(contents: Contents, key: Seq<char>, value: Seq<char>)
    ensures
        get_response(contents_after(contents, FrameView::Put(key, value)), key) == value,
{
}

/// A get that follows a delete of the same key answers with the empty
/// string.
pub proof fn lemma_get_after_delete(contents: Contents, key: Seq<char>)
    ensures
        get_response(contents_after(contents, FrameView::Delete(key)), key) == Seq::<char>::empty(),
{
}

/// The first put of a key answers with the value that was put; a put that
/// follows a put of the same key answers with the empty string.
pub proof fn lemma_put_fresh_then_overwrite(
    contents: Contents,
    key: Seq<char>,
    first: Seq<char>,
    second: Seq<char>,
)
    requires
        !contents.contains_key(key),
    ensures
        put_response(contents, key, first) == first,
        put_response(contents_after(contents, FrameView::Put(key, first)), key, second)
            == Seq::<char>::empty(),
{
}

/// Deleting an absent key answers with the empty string and changes nothing,
/// so the key is absent again for the next delete.
pub proof fn lemma_delete_absent_is_idempotent(contents: Contents, key: Seq<char>)
    requires
        !contents.contains_key(key),
    ensures
        delete_response(contents, key) == Seq::<char>::empty(),
        contents_after(contents, FrameView::Delete(key)) == contents,
{
}

/// A delete that follows a delete of the same key answers with the empty
/// string, whatever was there before the first.
pub proof fn lemma_delete_twice(contents: Contents, key: Seq<char>)
    ensures
        delete_response(contents_after(contents, FrameView::Delete(key)), key)
            == Seq::<char>::empty(),
{
}

/// A request leaves every key but its own as it was: the same presence, the
/// same value.
pub proof fn lemma_other_keys_untouched(contents: Contents, frame: FrameView, other: Seq<char>)
    requires
        other != frame_key(frame),
    ensures
        contents_after(contents, frame).contains_key(other) == contents.contains_key(other),
        get_response(contents_after(contents, frame), other) == get_response(contents, other),
{
}

/// What the store holds under `key`, if anything.
pub open spec fn held(contents: Contents, key: Seq<char>) -> Option<Seq<char>> {
    if contents.contains_key(key) {
        Some(contents[key])
    } else {
        None
    }
}

/// What the store holds after `frames` were applied in order.
pub open spec fn contents_after_each(contents: Contents, frames: Seq<FrameView>) -> Contents
    decreases frames.len(),
{
    if frames.len() == 0 {
        contents
    } else {
        contents_after(contents_after_each(contents, frames.drop_last()), frames.last())
    }
}

/// Those of `frames` that are about `key`, in their order.
pub open spec fn requests_on(frames: Seq<FrameView>, key: Seq<char>) -> Seq<FrameView>
    decreases frames.len(),
{
    if frames.len() == 0 {
        frames
    } else if frame_key(frames.last()) == key {
        requests_on(frames.drop_last(), key).push(frames.last())
    } else {
        requests_on(frames.drop_last(), key)
    }
}

/// What a request does to its key, and the answer to it, depend only on
/// what the store holds under that key.
pub proof fn lemma_request_reads_only_its_key(a: Contents, b: Contents, frame: FrameView)
    requires
        held(a, frame_key(frame)) == held(b, frame_key(frame)),
    ensures
        response_to(a, frame) == response_to(b, frame),
        held(contents_after(a, frame), frame_key(frame)) == held(
            contents_after(b, frame),
            frame_key(frame),
        ),
{
}

/// However requests on different keys are interleaved, each key ends up
/// as if only the requests on it had been applied, in their order: no
/// update to it is lost and none from elsewhere reaches it.
pub proof fn lemma_interleaving_keeps_each_key(
    contents: Contents,
    frames: Seq<FrameView>,
    key: Seq<char>,
)
    ensures
        held(contents_after_each(contents, frames), key) == held(
            contents_after_each(contents, requests_on(frames, key)),
            key,
        ),
    decreases frames.len(),
{
    if frames.len() > 0 {
        let earlier = frames.drop_last();
        let last = frames.last();
        lemma_interleaving_keeps_each_key(contents, earlier, key);
        if frame_key(last) == key {
            let own = requests_on(earlier, key);
            assert(own.push(last).drop_last() =~= own);
            lemma_request_reads_only_its_key(
                contents_after_each(contents, earlier),
                contents_after_each(contents, own),
                last,
            );
        } else {
            lemma_other_keys_untouched(contents_after_each(contents, earlier), last, key);
        }
    }
}

/// However requests on different keys are interleaved, a request is
/// answered as if only the requests on its own key had come before it.
pub proof fn lemma_interleaving_keeps_each_answer(
    contents: Contents,
    earlier: Seq<FrameView>,
    frame: FrameView,
)
    ensures
        response_to(contents_after_each(contents, earlier), frame) == response_to(
            contents_after_each(contents, requests_on(earlier, frame_key(frame))),
            frame,
        ),
{
    lemma_interleaving_keeps_each_key(contents, earlier, frame_key(frame));
    lemma_request_reads_only_its_key(
        contents_after_each(contents, earlier),
        contents_after_each(contents, requests_on(earlier, frame_key(frame))),
        frame,
    );
}

} // verus!
