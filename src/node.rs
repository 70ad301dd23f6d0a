//! The retained layout tree. Each node owns its children, so a node can be
//! attached to at most one parent and the tree is acyclic by construction.

use vstd::prelude::*;

use crate::node_data::NodeData;

verus! {

/// One node of the layout tree: its constraints and its children in order.
#[derive(Debug)]
pub struct Node<T> {
    /// Constraints and payload of this node
    pub data: NodeData<T>,
    /// Children, in the order in which they were appended
    pub children: Vec<Node<T>>,
}

impl<T> Node<T> {
    /// Creates a node without parent and without children
    pub fn new(data: NodeData<T>) -> (n: Self)
        ensures
            n.data == data,
            n.children@ == Seq::<Node<T>>::empty(),
    {
        Node { data, children: Vec::new() }
    }

    /// Makes `child` the last child of this node
    pub fn append(&mut self, child: Node<T>)
        ensures
            final(self).data == old(self).data,
            final(self).children@ == old(self).children@.push(child),
    {
        self.children.push(child);
    }

    /// Number of children of this node
    pub fn child_count(&self) -> (r: usize)
        ensures
            r == self.children@.len(),
    {
        self.children.len()
    }
}

} // verus!
