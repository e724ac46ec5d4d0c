//! The graph of compiled nodes: an arena of slots, one for each handle that
//! was issued. A handle can be passed on before its node has a payload, so a
//! procedure can be called before its body is compiled.

use vstd::prelude::*;

use super::error::ErrorKind;
use super::node_id::NodeID;

verus! {

/// The nodes of one compilation unit. Its value is the sequence of its
/// slots in the order in which their handles were issued; a slot is `None`
/// until the node is given a payload.
pub struct NodeGraph<T> {
    slots: Vec<Option<T>>,
}

impl<T> View for NodeGraph<T> {
    type V = Seq<Option<T>>;

    closed spec fn view(&self) -> Seq<Option<T>> {
        self.slots@
    }
}

impl<T> NodeGraph<T> {
    /// Whether the graph has issued the handle.
    pub open spec fn issued(&self, id: NodeID) -> bool {
        id@ < self@.len()
    }

    /// Whether the node of the handle has a payload.
    pub open spec fn materialized(&self, id: NodeID) -> bool {
        self.issued(id) && self@[id@ as int] is Some
    }

    /// A graph without nodes.
    pub fn new() -> (graph: Self)
        ensures
            graph@ == Seq::<Option<T>>::empty(),
    {
        NodeGraph { slots: Vec::new() }
    }

    /// The number of handles issued so far.
    pub fn len(&self) -> (len: usize)
        ensures
            len == self@.len(),
    {
        self.slots.len()
    }

    /// Whether the graph has issued the handle.
    pub fn contains(&self, id: NodeID) -> (issued: bool)
        ensures
            issued == self.issued(id),
    {
        id.value() < self.slots.len()
    }

    /// Whether the node of the handle has a payload.
    pub fn is_materialized(&self, id: NodeID) -> (materialized: bool)
        ensures
            materialized == self.materialized(id),
    {
        id.value() < self.slots.len() && self.slots[id.value()].is_some()
    }

    /// Issues a handle that was never issued before, for a node that has no
    /// payload yet. The nodes issued earlier stay as they are.
    pub fn allocate(&mut self) -> (id: NodeID)
        ensures
            !old(self).issued(id),
            id@ == old(self)@.len(),
            final(self)@ == old(self)@.push(None),
    {
        let id = NodeID::new(self.slots.len());
        self.slots.push(None);
        id
    }

    /// Gives the node of the handle its payload, in place of the one it had
    /// if it had one. The other nodes stay as they are.
    pub fn set(&mut self, id: NodeID, payload: T)
        requires
            old(self).issued(id),
        ensures
            final(self)@ == old(self)@.update(id@ as int, Some(payload)),
    {
        self.slots[id.value()] = Some(payload);
    }

    /// The payload of the node of the handle. Reading a node that has none,
    /// or a handle that was not issued, is refused.
    pub fn get(&self, id: NodeID) -> (payload: Result<&T, ErrorKind>)
        ensures
            match payload {
                Ok(payload) => self.materialized(id) && self@[id@ as int] == Some(*payload),
                Err(kind) => !self.materialized(id) && kind == ErrorKind::UnmaterializedNodeAccess,
            },
    {
        if id.value() < self.slots.len() {
            match &self.slots[id.value()] {
                Some(payload) => Ok(payload),
                None => Err(ErrorKind::UnmaterializedNodeAccess),
            }
        } else {
            Err(ErrorKind::UnmaterializedNodeAccess)
        }
    }
}

} // verus!
