//! The simplest dispatch there is: every request runs at the local node, on
//! its cheapest model.

use crate::endpoint::EndpointTable;
use crate::error::PolicyError;
use crate::model::{cheapest, is_cheapest, Model};
use crate::policies::ProxyPolicy;
use crate::request::Request;
use vstd::prelude::*;

verus! {

/// The local-only policy of one node.
pub struct SedPolicy {
    models: Vec<Model>,
    local_ep: u128,
}

impl SedPolicy {
    /// A policy for the node `local_ep` with the given catalog.
    pub fn new(models: Vec<Model>, local_ep: u128) -> (policy: SedPolicy)
        ensures
            policy.catalog() == models@,
            policy.local_id() == local_ep,
    {
        SedPolicy { models, local_ep }
    }
}

impl ProxyPolicy for SedPolicy {
    closed spec fn local_id(&self) -> u128 {
        self.local_ep
    }

    closed spec fn catalog(&self) -> Seq<Model> {
        self.models@
    }

    fn local_uuid(&self) -> (id: u128) {
        self.local_ep
    }

    fn models(&self) -> (models: &Vec<Model>) {
        &self.models
    }

    fn choose_target(&mut self, _request: &Request, _endpoints: &EndpointTable) -> (r: Result<
        u128,
        PolicyError,
    >)
        ensures
            r == Ok::<u128, PolicyError>(old(self).local_id()),
    {
        Ok(self.local_ep)
    }

    fn process_locally(&self, _request: &Request) -> (r: Result<usize, PolicyError>)
        ensures
            r matches Ok(i) ==> is_cheapest(self.catalog(), i as int),
    {
        match cheapest(&self.models) {
            Some(i) => Ok(i),
            None => Err(PolicyError::ModelCatalogEmpty),
        }
    }
}

} // verus!
