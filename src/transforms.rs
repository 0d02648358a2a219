//! Transforms that a pipeline is built from.

use vstd::prelude::*;

verus! {

/// A transform that emits a fixed list of elements: an impulse, expanded by
/// a flat-map into the list.
pub struct Create<Out> {
    elements: Vec<Out>,
}

impl<Out> View for Create<Out> {
    type V = Seq<Out>;

    closed spec fn view(&self) -> Seq<Out> {
        self.elements@
    }
}

impl<Out> Create<Out> {
    pub fn new(elements: Vec<Out>) -> (r: Self)
        ensures
            r@ == elements@,
    {
        Self { elements }
    }

    /// The elements that the transform emits, in order.
    pub fn elements(&self) -> (r: &Vec<Out>)
        ensures
            r@ == self@,
    {
        &self.elements
    }

    /// Runs the transform's expansion for its single impulse: the flat-map
    /// emits every element once, in order.
    pub fn expand_internal(self) -> (r: Vec<Out>)
        ensures
            r@ == self@,
    {
        self.elements
    }
}

} // verus!
