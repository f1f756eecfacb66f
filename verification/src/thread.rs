//! A thread of the native index: its address, what the index reports of it,
//! and the marker that ties it to the object it was taken from.

use crate::marker::{Hold, Marker, MarkerView};
use crate::messages::{copy_entries, Messages, MessagesOwner};
use crate::record::{
    contained_in, lemma_oldest_first_pairs, oldest_first, MessageEntry, RecordView, ThreadRecord,
};
use crate::tags::{Tags, TagsOwner};
use crate::text::{
    author_names, count_of, decode_all, decode_each, decode_text, lemma_split_len, split_authors,
    AUTHOR_SEPARATOR,
};
use std::sync::Arc;
use vstd::prelude::*;
use vstd::std_specs::convert::IntoSpec;
use vstd::utf8::decode_utf8;

verus! {

/// A type whose values may own a thread. It has no methods: a type takes it
/// on to say that a thread may point into its memory.
pub trait ThreadOwner {

}

/// The address of the native thread object.
#[derive(Debug)]
pub(crate) struct ThreadPtr {
    pub ptr: usize,
}

/// A thread, valid for as long as its owner lives.
#[verifier::reject_recursive_types(Owner)]
pub struct Thread<'o, Owner: ThreadOwner + 'o> {
    pub(crate) handle: ThreadPtr,
    record: ThreadRecord,
    marker: Marker<'o, Owner>,
}

impl<'o, Owner: ThreadOwner + 'o> MessagesOwner for Thread<'o, Owner> {

}

impl<'o, Owner: ThreadOwner + 'o> TagsOwner for Thread<'o, Owner> {

}

/// A thread as contracts see it.
pub ghost struct ThreadView {
    /// The address of the native object.
    pub ptr: usize,
    /// How the thread holds its owner.
    pub hold: Hold,
    /// What the index reports of the thread.
    pub record: RecordView,
}

impl<'o, Owner: ThreadOwner + 'o> View for Thread<'o, Owner> {
    type V = ThreadView;

    closed spec fn view(&self) -> ThreadView {
        ThreadView { ptr: self.handle.ptr, hold: self.marker@.hold, record: self.record@ }
    }
}

impl<'o, Owner: ThreadOwner + 'o> Thread<'o, Owner> {
    /// What holds of every thread: its address is not null, and its report
    /// keeps what the index promises.
    #[verifier::type_invariant]
    pub closed spec fn wf(self) -> bool {
        &&& self.handle.ptr != 0
        &&& self.record@.consistent()
    }

    /// The marker of the thread.
    pub closed spec fn spec_marker(self) -> Marker<'o, Owner> {
        self.marker
    }

    /// The thread at address `ptr`, of which the index reports `record`, under
    /// the marker that `owner` converts into. The address comes from the
    /// index and is not null; the report is one that the index gave.
    pub fn from_ptr<O: Into<Marker<'o, Owner>>>(ptr: usize, record: ThreadRecord, owner: O) -> (thread:
        Thread<'o, Owner>)
        requires
            ptr != 0,
            record@.consistent(),
        ensures
            thread.wf(),
            thread@.ptr == ptr,
            thread@.record == record@,
            thread@.hold == thread.spec_marker()@.hold,
            call_ensures(O::into, (owner,), thread.spec_marker()),
    {
        Thread { handle: ThreadPtr { ptr }, record, marker: owner.into() }
    }

    /// Gives the thread up: what comes back is the address for the one call
    /// that destroys the native object, and the marker, so that the owner is
    /// still held while that call is made.
    pub fn release(self) -> (parts: (usize, Marker<'o, Owner>))
        ensures
            parts.0 == self@.ptr,
            parts.0 != 0,
            parts.1 == self.spec_marker(),
    {
        proof {
            use_type_invariant(&self);
        }
        (self.handle.ptr, self.marker)
    }

    /// How the thread holds its owner.
    pub fn hold(self: &Self) -> (hold: Hold)
        ensures
            hold == self@.hold,
    {
        self.marker.hold()
    }

    /// The identifier of the thread.
    pub fn id(self: &Self) -> (id: String)
        ensures
            id@ == decode_utf8(self@.record.id),
    {
        proof {
            use_type_invariant(self);
        }
        decode_text(self.record.id.as_slice())
    }

    /// The number of messages in the thread, which is the number that
    /// `messages` lists.
    pub fn total_messages(self: &Self) -> (count: i32)
        ensures
            count == self@.record.total_messages,
            count == self@.record.messages.len(),
    {
        proof {
            use_type_invariant(self);
        }
        self.record.total_messages
    }

    /// The number of files that hold the messages of the thread.
    pub fn total_files(self: &Self) -> (count: i32)
        ensures
            count == self@.record.total_files,
    {
        self.record.total_files
    }

    /// The messages without a parent in the reply tree, each of them one of
    /// those that `messages` lists.
    pub fn toplevel_messages(self: &Self) -> (messages: Messages<Self>)
        ensures
            messages@ == self@.record.toplevel,
            messages.spec_marker() == (MarkerView { hold: Hold::Borrowed, owner: *self }),
            contained_in(messages@, self@.record.messages),
    {
        <Self as ThreadExt<'o, Owner>>::toplevel_messages(self)
    }

    /// All messages of the thread, oldest first.
    pub fn messages(self: &Self) -> (messages: Messages<Self>)
        ensures
            messages@ == self@.record.messages,
            messages.spec_marker() == (MarkerView { hold: Hold::Borrowed, owner: *self }),
            oldest_first(messages@),
    {
        <Self as ThreadExt<'o, Owner>>::messages(self)
    }

    /// The tags of the thread, in the order of the index.
    pub fn tags(&self) -> (tags: Tags<Self>)
        ensures
            tags@ == decode_all(self@.record.tags),
            tags.spec_marker() == (MarkerView { hold: Hold::Borrowed, owner: *self }),
    {
        <Self as ThreadExt<'o, Owner>>::tags(self)
    }

    /// The subject of the thread.
    pub fn subject(self: &Self) -> (subject: String)
        ensures
            subject@ == decode_utf8(self@.record.subject),
    {
        proof {
            use_type_invariant(self);
        }
        decode_text(self.record.subject.as_slice())
    }

    /// The authors of the thread: the pieces of the joined list between its
    /// commas, one more than it has commas. Blanks around a name stay.
    pub fn authors(self: &Self) -> (names: Vec<String>)
        ensures
            names.deep_view() == author_names(decode_utf8(self@.record.authors)),
            names.len() == count_of(decode_utf8(self@.record.authors), AUTHOR_SEPARATOR) + 1,
    {
        proof {
            use_type_invariant(self);
        }
        let joined = decode_text(self.record.authors.as_slice());
        let names = split_authors(joined.as_str());
        proof {
            lemma_split_len(joined@, AUTHOR_SEPARATOR);
        }
        names
    }

    /// The date of the oldest message, in seconds since the epoch.
    pub fn oldest_date(self: &Self) -> (date: i64)
        ensures
            date == self@.record.oldest_date,
    {
        self.record.oldest_date
    }

    /// The date of the newest message, in seconds since the epoch.
    pub fn newest_date(self: &Self) -> (date: i64)
        ensures
            date == self@.record.newest_date,
    {
        self.record.newest_date
    }
}

/// Of any two messages of a thread, the one listed earlier is not the younger.
pub proof fn lemma_messages_oldest_first<'o, Owner: ThreadOwner + 'o>(
    thread: Thread<'o, Owner>,
    i: int,
    j: int,
)
    requires
        thread.wf(),
        0 <= i <= j < thread@.record.messages.len(),
    ensures
        thread@.record.messages[i].date <= thread@.record.messages[j].date,
{
    lemma_oldest_first_pairs(thread@.record.messages, i, j);
}

/// The count that a thread gives is the number of messages that it lists.
pub proof fn lemma_total_is_number_of_messages<'o, Owner: ThreadOwner + 'o>(
    thread: Thread<'o, Owner>,
)
    requires
        thread.wf(),
    ensures
        thread@.record.total_messages == thread@.record.messages.len(),
{
}

/// The top-level messages of a thread are a subset of its messages.
pub proof fn lemma_toplevel_among_messages<'o, Owner: ThreadOwner + 'o>(
    thread: Thread<'o, Owner>,
)
    requires
        thread.wf(),
    ensures
        thread@.record.toplevel.to_set().subset_of(thread@.record.messages.to_set()),
{
    let top = thread@.record.toplevel;
    let all = thread@.record.messages;
    assert forall|entry: MessageEntry| top.to_set().contains(entry) implies all.to_set().contains(
        entry,
    ) by {
        let k = choose|k: int| 0 <= k < top.len() && top[k] == entry;
        assert(all.contains(top[k]));
    }
}

/// A thread in the one form that the list makers work on, whichever way the
/// caller holds it: as its owner, as one of several holders, or by a borrow.
#[verifier::reject_recursive_types(Owner)]
pub enum ThreadRef<'s, 'o, Owner: ThreadOwner + 'o> {
    Owned(Thread<'o, Owner>),
    Shared(Arc<Thread<'o, Owner>>),
    Borrowed(&'s Thread<'o, Owner>),
}

impl<'s, 'o, Owner: ThreadOwner + 'o> ThreadRef<'s, 'o, Owner> {
    /// The thread that is referred to.
    pub open spec fn target(self) -> Thread<'o, Owner> {
        match self {
            ThreadRef::Owned(thread) => thread,
            ThreadRef::Shared(thread) => *thread,
            ThreadRef::Borrowed(thread) => *thread,
        }
    }

    /// How a marker made of this reference holds the thread.
    pub open spec fn hold(self) -> Hold {
        match self {
            ThreadRef::Owned(_) => Hold::Exclusive,
            ThreadRef::Shared(_) => Hold::Shared,
            ThreadRef::Borrowed(_) => Hold::Borrowed,
        }
    }

    /// The marker that this reference turns into: for the thread referred
    /// to, held as the reference holds it.
    pub open spec fn marker(self) -> MarkerView<Thread<'o, Owner>> {
        MarkerView { hold: self.hold(), owner: self.target() }
    }

    /// The thread that is referred to.
    pub fn get(&self) -> (thread: &Thread<'o, Owner>)
        ensures
            *thread == self.target(),
    {
        match self {
            ThreadRef::Owned(thread) => thread,
            ThreadRef::Shared(thread) => &**thread,
            ThreadRef::Borrowed(thread) => *thread,
        }
    }

    /// Turns the reference into a marker for the thread: the thread can no
    /// longer be read through it, and lives or stays borrowed as long as the
    /// marker exists.
    pub fn phantom(self) -> (marker: Marker<'s, Thread<'o, Owner>>)
        ensures
            marker@ == self.marker(),
    {
        match self {
            ThreadRef::Owned(thread) => Marker::owned(thread),
            ThreadRef::Shared(thread) => Marker::shared(thread),
            ThreadRef::Borrowed(thread) => Marker::borrowed(thread),
        }
    }
}

impl<'s, 'o, Owner: ThreadOwner + 'o> From<Thread<'o, Owner>> for ThreadRef<'s, 'o, Owner> {
    fn from(thread: Thread<'o, Owner>) -> (threadref: Self) {
        ThreadRef::Owned(thread)
    }
}

impl<'s, 'o, Owner: ThreadOwner + 'o> vstd::std_specs::convert::FromSpecImpl<Thread<'o, Owner>> for ThreadRef<'s, 'o, Owner> {
    open spec fn obeys_from_spec() -> bool {
        true
    }

    open spec fn from_spec(thread: Thread<'o, Owner>) -> Self {
        ThreadRef::Owned(thread)
    }
}

impl<'s, 'o, Owner: ThreadOwner + 'o> From<Arc<Thread<'o, Owner>>> for ThreadRef<'s, 'o, Owner> {
    fn from(thread: Arc<Thread<'o, Owner>>) -> (threadref: Self) {
        ThreadRef::Shared(thread)
    }
}

impl<'s, 'o, Owner: ThreadOwner + 'o> vstd::std_specs::convert::FromSpecImpl<Arc<Thread<'o, Owner>>> for ThreadRef<'s, 'o, Owner> {
    open spec fn obeys_from_spec() -> bool {
        true
    }

    open spec fn from_spec(thread: Arc<Thread<'o, Owner>>) -> Self {
        ThreadRef::Shared(thread)
    }
}

impl<'s, 'o, Owner: ThreadOwner + 'o> From<&'s Thread<'o, Owner>> for ThreadRef<'s, 'o, Owner> {
    fn from(thread: &'s Thread<'o, Owner>) -> (threadref: Self) {
        ThreadRef::Borrowed(thread)
    }
}

impl<'s, 'o, Owner: ThreadOwner + 'o> vstd::std_specs::convert::FromSpecImpl<&'s Thread<'o, Owner>> for ThreadRef<'s, 'o, Owner> {
    open spec fn obeys_from_spec() -> bool {
        true
    }

    open spec fn from_spec(thread: &'s Thread<'o, Owner>) -> Self {
        ThreadRef::Borrowed(thread)
    }
}

/// The list makers of a thread, for a caller that holds the thread in any of
/// the forms that convert into a `ThreadRef`. The list that comes back holds
/// the thread in the way the caller did, so the thread cannot go while the
/// list exists.
pub trait ThreadExt<'o, Owner: ThreadOwner + 'o> {
    /// The tags of the thread, in the order of the index.
    fn tags<'s, S: Into<ThreadRef<'s, 'o, Owner>>>(thread: S) -> (tags: Tags<
        's,
        Thread<'o, Owner>,
    >)
        ensures
            exists|threadref: ThreadRef<'s, 'o, Owner>| #[trigger]
                call_ensures(S::into, (thread,), threadref) && tags@ == decode_all(
                    threadref.target()@.record.tags,
                ) && tags.spec_marker() == threadref.marker(),
            S::obeys_into_spec() ==> tags@ == decode_all(
                S::into_spec(thread).target()@.record.tags,
            ) && tags.spec_marker() == S::into_spec(thread).marker(),
    {
        let threadref: ThreadRef<'s, 'o, Owner> = thread.into();
        let target = threadref.get();
        proof {
            use_type_invariant(target);
        }
        let names = decode_each(&target.record.tags);
        Tags::from_names(names, threadref.phantom())
    }

    /// The messages without a parent in the reply tree, each of them one of
    /// the thread's messages.
    fn toplevel_messages<'s, S: Into<ThreadRef<'s, 'o, Owner>>>(thread: S) -> (messages: Messages<
        's,
        Thread<'o, Owner>,
    >)
        ensures
            exists|threadref: ThreadRef<'s, 'o, Owner>| #[trigger]
                call_ensures(S::into, (thread,), threadref) && messages@
                    == threadref.target()@.record.toplevel && messages.spec_marker()
                    == threadref.marker() && contained_in(
                    messages@,
                    threadref.target()@.record.messages,
                ),
            S::obeys_into_spec() ==> messages@ == S::into_spec(thread).target()@.record.toplevel
                && messages.spec_marker() == S::into_spec(thread).marker() && contained_in(
                messages@,
                S::into_spec(thread).target()@.record.messages,
            ),
    {
        let threadref: ThreadRef<'s, 'o, Owner> = thread.into();
        let target = threadref.get();
        proof {
            use_type_invariant(target);
        }
        let entries = copy_entries(&target.record.toplevel);
        Messages::from_entries(entries, threadref.phantom())
    }

    /// All messages of the thread, oldest first.
    fn messages<'s, S: Into<ThreadRef<'s, 'o, Owner>>>(thread: S) -> (messages: Messages<
        's,
        Thread<'o, Owner>,
    >)
        ensures
            oldest_first(messages@),
            exists|threadref: ThreadRef<'s, 'o, Owner>| #[trigger]
                call_ensures(S::into, (thread,), threadref) && messages@
                    == threadref.target()@.record.messages && messages.spec_marker()
                    == threadref.marker(),
            S::obeys_into_spec() ==> messages@ == S::into_spec(thread).target()@.record.messages
                && messages.spec_marker() == S::into_spec(thread).marker(),
    {
        let threadref: ThreadRef<'s, 'o, Owner> = thread.into();
        let target = threadref.get();
        proof {
            use_type_invariant(target);
        }
        let entries = copy_entries(&target.record.messages);
        Messages::from_entries(entries, threadref.phantom())
    }
}

impl<'o, Owner: ThreadOwner + 'o> ThreadExt<'o, Owner> for Thread<'o, Owner> {

}

} // verus!
