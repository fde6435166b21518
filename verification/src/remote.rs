//! Identities of remote nodes.

use vstd::prelude::*;
use crate::text::{copy_string, owned};

verus! {

/// Stable identity of a node.
#[derive(Debug, PartialOrd, Ord, Hash)]
pub struct NodeId(String);

impl NodeId {
    /// The node's identity text.
    pub closed spec fn id(self) -> Seq<char> {
        self.0@
    }

    /// A node identity with the given text.
    pub fn new(id: &str) -> (n: Self)
        ensures
            n.id() == id@,
    {
        NodeId(owned(id))
    }

    /// The identity text.
    pub fn as_str(&self) -> (s: &str)
        ensures
            s@ == self.id(),
    {
        self.0.as_str()
    }
}

impl Clone for NodeId {
    fn clone(&self) -> (r: Self)
        ensures
            r.id() == self.id(),
    {
        NodeId(copy_string(&self.0))
    }
}

impl PartialEq for NodeId {
    fn eq(&self, other: &Self) -> (r: bool) {
        self.0 == other.0
    }
}

impl vstd::std_specs::cmp::PartialEqSpecImpl for NodeId {
    open spec fn obeys_eq_spec() -> bool {
        true
    }

    open spec fn eq_spec(&self, other: &NodeId) -> bool {
        self.id() == other.id()
    }
}

impl Eq for NodeId {}

} // verus!
