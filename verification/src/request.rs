//! The request envelope a routing decision reads.

use vstd::prelude::*;

verus! {

/// What a request asks of the model that serves it.
#[derive(Clone, Debug)]
pub struct TritonContext {
    /// The least accuracy the caller accepts.
    pub accuracy: u32,
    /// The deadline the caller set, in milliseconds.
    pub priority: u32,
    /// Part of the name of the model the caller would like.
    pub model: Option<String>,
}

/// A request as it stands at one node. The forwarding layer counts the hops
/// and records the nodes passed; a policy only reads them.
#[derive(Clone, Debug)]
pub struct Request {
    /// How many times the request has been forwarded.
    pub jumps: u32,
    /// The identities of the nodes the request has passed through.
    pub previous_nodes: Vec<u128>,
    pub context: TritonContext,
}

impl Request {
    /// The request has passed through the node `id`.
    pub open spec fn visited(&self, id: u128) -> bool {
        self.previous_nodes@.contains(id)
    }

    /// Whether the request has passed through the node `id`.
    pub fn has_visited(&self, id: u128) -> (r: bool)
        ensures
            r == self.visited(id),
    {
        let mut i: usize = 0;
        while i < self.previous_nodes.len()
            invariant
                i <= self.previous_nodes.len(),
                forall|j: int| 0 <= j < i ==> self.previous_nodes@[j] != id,
            decreases self.previous_nodes.len() - i,
        {
            if self.previous_nodes[i] == id {
                return true;
            }
            i = i + 1;
        }
        false
    }
}

} // verus!
