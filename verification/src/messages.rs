//! The messages of a thread, listed under a marker for what they belong to.

use crate::marker::{Hold, Marker, MarkerView};
use crate::record::MessageEntry;
use vstd::prelude::*;

verus! {

/// A type whose values may own a list of messages.
pub trait MessagesOwner {

}

/// A list of messages that points into the memory of an owner of type `O`.
/// The marker in it keeps that owner alive, or borrows it, for as long as the
/// list exists.
#[verifier::reject_recursive_types(O)]
pub struct Messages<'o, O: MessagesOwner + 'o> {
    entries: Vec<MessageEntry>,
    marker: Marker<'o, O>,
}

impl<'o, O: MessagesOwner + 'o> View for Messages<'o, O> {
    type V = Seq<MessageEntry>;

    closed spec fn view(&self) -> Seq<MessageEntry> {
        self.entries@
    }
}

impl<'o, O: MessagesOwner + 'o> Messages<'o, O> {
    /// The marker of the list: how it holds its owner, and which owner.
    pub closed spec fn spec_marker(self) -> MarkerView<O> {
        self.marker@
    }

    /// The list of `entries`, in their order, under `marker`. An empty list is
    /// a list like any other.
    pub fn from_entries(entries: Vec<MessageEntry>, marker: Marker<'o, O>) -> (messages: Self)
        ensures
            messages@ == entries@,
            messages.spec_marker() == marker@,
    {
        Messages { entries, marker }
    }

    /// How the list holds its owner.
    pub fn hold(&self) -> (hold: Hold)
        ensures
            hold == self.spec_marker().hold,
    {
        self.marker.hold()
    }

    /// The number of messages.
    pub fn len(&self) -> (n: usize)
        ensures
            n == self@.len(),
    {
        self.entries.len()
    }

    /// The message at place `i`, counted from 0.
    pub fn get(&self, i: usize) -> (entry: Option<MessageEntry>)
        ensures
            entry == if i < self@.len() {
                Some(self@[i as int])
            } else {
                None
            },
    {
        if i < self.entries.len() {
            Some(self.entries[i])
        } else {
            None
        }
    }
}

/// A copy of the list, entry by entry.
pub(crate) fn copy_entries(entries: &Vec<MessageEntry>) -> (copy: Vec<MessageEntry>)
    ensures
        copy@ == entries@,
{
    let n = entries.len();
    let mut copy: Vec<MessageEntry> = Vec::new();
    let mut i: usize = 0;
    while i < n
        invariant
            n == entries@.len(),
            i <= n,
            copy@ == entries@.take(i as int),
        decreases n - i,
    {
        copy.push(entries[i]);
        proof {
            assert(entries@.take(i + 1) =~= entries@.take(i as int).push(entries@[i as int]));
        }
        i += 1;
    }
    proof {
        assert(entries@.take(n as int) =~= entries@);
    }
    copy
}

} // verus!
