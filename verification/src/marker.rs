//! Ownership markers: how a value that points into another object's memory
//! keeps that object alive, or shows that it outlives the value.

use std::sync::Arc;
use vstd::prelude::*;

verus! {

/// The three ways in which a marker holds its owner.
#[derive(Clone, Copy, Debug, PartialEq, Eq, Structural)]
pub enum Hold {
    /// The marker is the sole owner: the owner goes when the marker goes.
    Exclusive,
    /// The marker is one of several holders: the owner goes with the last one.
    Shared,
    /// The marker holds nothing at run time: the borrow `'a` alone shows that
    /// the owner outlives it.
    Borrowed,
}

/// What keeps the owner alive. Its inside is a `supercow::Phantomcow` with
/// `Arc` as the shared form, which Verus does not look into.
#[verifier::external_body]
#[verifier::reject_recursive_types(O)]
struct Anchor<'a, O: 'a> {
    inner: supercow::Phantomcow<'a, O, O, Arc<O>>,
}

impl<'a, O: 'a> Anchor<'a, O> {
    /// `supercow::Supercow::owned` on a `Phantomcow`: the value moves into the
    /// anchor. Nothing is claimed of the anchor that comes back.
    #[verifier::external_body]
    fn owned(owner: O) -> (anchor: Anchor<'a, O>) {
        Anchor { inner: supercow::Supercow::owned(owner) }
    }

    /// `supercow::Supercow::shared` on a `Phantomcow`: the `Arc` moves into
    /// the anchor. Nothing is claimed of the anchor that comes back.
    #[verifier::external_body]
    fn shared(owner: Arc<O>) -> (anchor: Anchor<'a, O>) {
        Anchor { inner: supercow::Supercow::shared(owner) }
    }

    /// `supercow::Supercow::borrowed` on a `Phantomcow`: only the lifetime of
    /// the reference is kept. Nothing is claimed of the anchor that comes
    /// back.
    #[verifier::external_body]
    fn borrowed(owner: &'a O) -> (anchor: Anchor<'a, O>) {
        Anchor { inner: supercow::Supercow::borrowed(owner) }
    }
}

/// The owner that the holders of `owner` share.
pub open spec fn shared_owner<O>(owner: Arc<O>) -> O {
    *owner
}

/// A token for an owner of type `O` that lives at least as long as `'a`.
/// Whoever holds the token may point into the owner's memory.
#[verifier::reject_recursive_types(O)]
pub struct Marker<'a, O: 'a> {
    hold: Hold,
    anchor: Anchor<'a, O>,
    owner: Ghost<O>,
}

/// A marker as contracts see it: how it holds, and which owner.
#[verifier::reject_recursive_types(O)]
pub ghost struct MarkerView<O> {
    pub hold: Hold,
    pub owner: O,
}

impl<'a, O: 'a> View for Marker<'a, O> {
    type V = MarkerView<O>;

    closed spec fn view(&self) -> MarkerView<O> {
        MarkerView { hold: self.hold, owner: self.owner@ }
    }
}

impl<'a, O: 'a> Marker<'a, O> {
    /// Takes the owner over.
    pub fn owned(owner: O) -> (marker: Self)
        ensures
            marker@ == (MarkerView { hold: Hold::Exclusive, owner }),
    {
        let held = Ghost(owner);
        Marker { hold: Hold::Exclusive, anchor: Anchor::owned(owner), owner: held }
    }

    /// Joins the holders of a shared owner.
    pub fn shared(owner: Arc<O>) -> (marker: Self)
        ensures
            marker@ == (MarkerView { hold: Hold::Shared, owner: *owner }),
    {
        let held = Ghost(shared_owner(owner));
        Marker { hold: Hold::Shared, anchor: Anchor::shared(owner), owner: held }
    }

    /// Borrows the owner for `'a`.
    pub fn borrowed(owner: &'a O) -> (marker: Self)
        ensures
            marker@ == (MarkerView { hold: Hold::Borrowed, owner: *owner }),
    {
        Marker { hold: Hold::Borrowed, anchor: Anchor::borrowed(owner), owner: Ghost(*owner) }
    }

    /// How the marker holds its owner.
    pub fn hold(&self) -> (hold: Hold)
        ensures
            hold == self@.hold,
    {
        self.hold
    }
}

/// An owner given by value becomes the marker's own. What the anchor is made
/// of is hidden from contracts, so the three conversions have no value in
/// specifications; what `from` ensures says all that is known of the result.
impl<'a, O: 'a> From<O> for Marker<'a, O> {
    fn from(owner: O) -> (marker: Self)
        ensures
            marker@ == (MarkerView { hold: Hold::Exclusive, owner }),
    {
        Marker::owned(owner)
    }
}

impl<'a, O: 'a> vstd::std_specs::convert::FromSpecImpl<O> for Marker<'a, O> {
    open spec fn obeys_from_spec() -> bool {
        false
    }

    open spec fn from_spec(owner: O) -> Self {
        arbitrary()
    }
}

/// An owner given as an `Arc` is shared with the other holders of that `Arc`.
impl<'a, O: 'a> From<Arc<O>> for Marker<'a, O> {
    fn from(owner: Arc<O>) -> (marker: Self)
        ensures
            marker@ == (MarkerView { hold: Hold::Shared, owner: *owner }),
    {
        Marker::shared(owner)
    }
}

impl<'a, O: 'a> vstd::std_specs::convert::FromSpecImpl<Arc<O>> for Marker<'a, O> {
    open spec fn obeys_from_spec() -> bool {
        false
    }

    open spec fn from_spec(owner: Arc<O>) -> Self {
        arbitrary()
    }
}

/// An owner given by reference is borrowed.
impl<'a, O: 'a> From<&'a O> for Marker<'a, O> {
    fn from(owner: &'a O) -> (marker: Self)
        ensures
            marker@ == (MarkerView { hold: Hold::Borrowed, owner: *owner }),
    {
        Marker::borrowed(owner)
    }
}

impl<'a, O: 'a> vstd::std_specs::convert::FromSpecImpl<&'a O> for Marker<'a, O> {
    open spec fn obeys_from_spec() -> bool {
        false
    }

    open spec fn from_spec(owner: &'a O) -> Self {
        arbitrary()
    }
}

} // verus!
