//! Ordered collections seen as a slice of their elements.
use vstd::prelude::*;

verus! {

/// A homogeneous ordered collection that can show its elements as a slice.
pub trait Slice {
    type Element;

    /// The elements, in order.
    spec fn spec_elements(&self) -> Seq<Self::Element>;

    /// The elements as a slice.
    fn elements(&self) -> (r: &[Self::Element])
        ensures
            r@ == self.spec_elements(),
    ;
}

impl<E> Slice for Vec<E> {
    type Element = E;

    open spec fn spec_elements(&self) -> Seq<E> {
        self@
    }

    fn elements(&self) -> (r: &[E]) {
        self.as_slice()
    }
}

impl<E> Slice for [E] {
    type Element = E;

    open spec fn spec_elements(&self) -> Seq<E> {
        self@
    }

    fn elements(&self) -> (r: &[E]) {
        self
    }
}

impl<E, const N: usize> Slice for [E; N] {
    type Element = E;

    open spec fn spec_elements(&self) -> Seq<E> {
        self@
    }

    fn elements(&self) -> (r: &[E]) {
        self.as_slice()
    }
}

impl<E> Slice for &[E] {
    type Element = E;

    open spec fn spec_elements(&self) -> Seq<E> {
        self@
    }

    fn elements(&self) -> (r: &[E]) {
        self
    }
}

} // verus!
