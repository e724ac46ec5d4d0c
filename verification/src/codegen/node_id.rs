//! Handles of compiled nodes.

use vstd::prelude::*;

verus! {

/// The handle of one compiled node. It owns nothing: it is a key to look the
/// node up by, and two handles name the same node exactly when they are
/// equal.
#[derive(Clone, Copy, Debug, PartialEq, Eq, Structural, Hash)]
pub struct NodeID {
    value: usize,
}

impl View for NodeID {
    type V = nat;

    /// The position at which the node was issued.
    closed spec fn view(&self) -> nat {
        self.value as nat
    }
}

impl NodeID {
    /// The handle of the node issued at position `value`.
    pub fn new(value: usize) -> (id: NodeID)
        ensures
            id@ == value,
    {
        NodeID { value }
    }

    /// The position at which the node was issued.
    pub fn value(&self) -> (value: usize)
        ensures
            value == self@,
    {
        self.value
    }

    /// Handles are told apart by their positions alone.
    pub proof fn lemma_view_injective(a: NodeID, b: NodeID)
        requires
            a@ == b@,
        ensures
            a == b,
    {
    }
}

} // verus!
