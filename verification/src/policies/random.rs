//! Random dispatch: every endpoint of the table, the local one included, is
//! as likely a target as any other.

use crate::endpoint::{EndpointTable, EndpointView};
use crate::error::PolicyError;
use crate::model::{cheapest, is_cheapest, Model};
use crate::policies::{target_at_turn, turn_decides, ProxyPolicy};
use crate::request::Request;
use vstd::prelude::*;

verus! {

/// The random policy of one node.
pub struct RandomPolicy {
    models: Vec<Model>,
    local_uuid: u128,
}

/// `rand::random::<usize>()`: a number drawn from the thread's generator.
/// Nothing is claimed of its value.
#[verifier::external_body]
fn random_draw() -> usize {
    rand::random::<usize>()
}

impl RandomPolicy {
    /// A policy for the node `local_uuid` with the given catalog.
    pub fn new(models: Vec<Model>, local_uuid: u128) -> (policy: RandomPolicy)
        ensures
            policy.catalog() == models@,
            policy.local_id() == local_uuid,
    {
        RandomPolicy { models, local_uuid }
    }

    /// The target for a given draw: the endpoint at position `draw` modulo the
    /// number of endpoints.
    pub fn target_for_draw(&self, request: &Request, endpoints: &EndpointTable, draw: usize) -> (r:
        Result<u128, PolicyError>)
        ensures
            turn_decides(self.local_id(), *request, endpoints@, draw, r),
    {
        target_at_turn(self.local_uuid, request, endpoints, draw)
    }
}

impl ProxyPolicy for RandomPolicy {
    closed spec fn local_id(&self) -> u128 {
        self.local_uuid
    }

    closed spec fn catalog(&self) -> Seq<Model> {
        self.models@
    }

    fn local_uuid(&self) -> (id: u128) {
        self.local_uuid
    }

    fn models(&self) -> (models: &Vec<Model>) {
        &self.models
    }

    fn choose_target(&mut self, request: &Request, endpoints: &EndpointTable) -> (r: Result<
        u128,
        PolicyError,
    >)
        ensures
            exists|draw: usize| #[trigger]
                turn_decides(old(self).local_id(), *request, endpoints@, draw, r),
    {
        if request.jumps > 0 {
            let r = Ok(self.local_uuid);
            assert(turn_decides(old(self).local_id(), *request, endpoints@, 0, r));
            return r;
        }
        let node_index = random_draw();
        let r = target_at_turn(self.local_uuid, request, endpoints, node_index);
        assert(turn_decides(old(self).local_id(), *request, endpoints@, node_index, r));
        r
    }

    fn process_locally(&self, _request: &Request) -> (r: Result<usize, PolicyError>)
        ensures
            r matches Ok(i) ==> is_cheapest(self.catalog(), i as int),
    {
        match cheapest(&self.models) {
            Some(i) => Ok(i),
            None => Err(PolicyError::ModelCatalogEmpty),
        }
    }
}

/// No endpoint is left out: for every position of the table there is a draw
/// that sends the request to the endpoint there.
pub proof fn lemma_random_reaches_every_endpoint(
    local: u128,
    request: Request,
    t: Seq<EndpointView>,
    i: int,
)
    requires
        request.jumps == 0,
        0 <= i < t.len(),
        t.len() <= usize::MAX,
    ensures
        turn_decides(local, request, t, i as usize, Ok::<u128, PolicyError>(t[i].id)),
{
    vstd::arithmetic::div_mod::lemma_small_mod(i as nat, t.len());
}

} // verus!
