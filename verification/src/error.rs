//! The failures a routing decision can end in.

use vstd::prelude::*;

verus! {

/// Why a policy could not name a target or a model.
#[derive(Clone, Copy, Debug, PartialEq, Eq, Structural)]
pub enum PolicyError {
    /// The endpoint table is empty.
    NoEndpointsAvailable,
    /// Every endpoint in the table was ruled out by the policy's eligibility rules.
    NoEligiblePeer,
    /// The node has no model to run.
    ModelCatalogEmpty,
}

} // verus!
