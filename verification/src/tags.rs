//! The tags of a thread, listed under a marker for what they belong to.

use crate::marker::{Hold, Marker, MarkerView};
use vstd::prelude::*;

verus! {

/// A type whose values may own a list of tags.
pub trait TagsOwner {

}

/// A list of tags that points into the memory of an owner of type `O`. The
/// marker in it keeps that owner alive, or borrows it, for as long as the list
/// exists.
#[verifier::reject_recursive_types(O)]
pub struct Tags<'o, O: TagsOwner + 'o> {
    names: Vec<String>,
    marker: Marker<'o, O>,
}

impl<'o, O: TagsOwner + 'o> View for Tags<'o, O> {
    type V = Seq<Seq<char>>;

    closed spec fn view(&self) -> Seq<Seq<char>> {
        self.names.deep_view()
    }
}

impl<'o, O: TagsOwner + 'o> Tags<'o, O> {
    /// The marker of the list: how it holds its owner, and which owner.
    pub closed spec fn spec_marker(self) -> MarkerView<O> {
        self.marker@
    }

    /// The list of `names`, in their order, under `marker`. An empty list is a
    /// list like any other.
    pub fn from_names(names: Vec<String>, marker: Marker<'o, O>) -> (tags: Self)
        ensures
            tags@ == names.deep_view(),
            tags.spec_marker() == marker@,
    {
        Tags { names, marker }
    }

    /// How the list holds its owner.
    pub fn hold(&self) -> (hold: Hold)
        ensures
            hold == self.spec_marker().hold,
    {
        self.marker.hold()
    }

    /// The number of tags.
    pub fn len(&self) -> (n: usize)
        ensures
            n == self@.len(),
    {
        self.names.len()
    }

    /// The tag at place `i`, counted from 0.
    pub fn get(&self, i: usize) -> (name: Option<String>)
        ensures
            i < self@.len() ==> name.is_some() && name.unwrap()@ == self@[i as int],
            i >= self@.len() ==> name.is_none(),
    {
        if i < self.names.len() {
            Some(self.names[i].clone())
        } else {
            None
        }
    }
}

} // verus!
