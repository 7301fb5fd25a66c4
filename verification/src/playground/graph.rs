//! Graph nodes that share their parent through reference counting.
use vstd::prelude::*;
use std::rc::Rc;

verus! {

/// A node with a value and, optionally, a shared parent.
#[derive(Debug)]
pub struct GraphNode {
    pub value: i32,
    pub parent: Option<Rc<GraphNode>>,
}

impl GraphNode {
    /// A shared node with no parent.
    pub fn new(value: i32) -> (r: Rc<Self>)
        ensures
            r.value == value,
            r.parent is None,
    {
        Rc::new(GraphNode { value, parent: None })
    }

    /// A shared node whose parent is `parent`.
    pub fn with_parent(value: i32, parent: Rc<GraphNode>) -> (r: Rc<Self>)
        ensures
            r.value == value,
            r.parent == Some(parent),
    {
        Rc::new(GraphNode { value, parent: Some(parent) })
    }
}

/// The number of strong references to the node, as std's `Rc::strong_count` reports it.
/// Claims only that it is at least one, since `node` itself is such a reference; the
/// count depends on what else holds the node.
#[verifier::external_body]
pub fn get_ref_count(node: &Rc<GraphNode>) -> (n: usize)
    ensures
        n >= 1,
{
    Rc::strong_count(node)
}

} // verus!
