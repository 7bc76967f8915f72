//! The routing policies and the contract they share.

pub mod detour;
pub mod min_latencia;
pub mod random;
pub mod requisitos;
pub mod rrobin;
pub mod sed;

use crate::endpoint::{has_id, EndpointTable, EndpointView};
use crate::error::PolicyError;
use crate::model::Model;
use crate::request::Request;
use vstd::prelude::*;

verus! {

/// What every routing policy does: name the node that serves a request, and
/// name the model that serves it when that node is the local one.
pub trait ProxyPolicy {
    /// The identity of the local node.
    spec fn local_id(&self) -> u128;

    /// The models the local node can run.
    spec fn catalog(&self) -> Seq<Model>;

    /// The identity of the local node.
    fn local_uuid(&self) -> (id: u128)
        ensures
            id == self.local_id(),
    ;

    /// The models the local node can run, in catalog order.
    fn models(&self) -> (models: &Vec<Model>)
        ensures
            models@ == self.catalog(),
    ;

    /// The identity of the node the request goes to. A request that has been
    /// forwarded before stays at the local node, whatever the policy would
    /// otherwise choose. Any other target is an endpoint of the table.
    fn choose_target(&mut self, request: &Request, endpoints: &EndpointTable) -> (r: Result<
        u128,
        PolicyError,
    >)
        ensures
            final(self).local_id() == old(self).local_id(),
            final(self).catalog() == old(self).catalog(),
            request.jumps > 0 ==> r == Ok::<u128, PolicyError>(old(self).local_id()),
            r matches Ok(id) ==> id == old(self).local_id() || has_id(endpoints@, id),
    ;

    /// The position in the catalog of the model that runs the request locally.
    /// It fails only on an empty catalog.
    fn process_locally(&self, request: &Request) -> (r: Result<usize, PolicyError>)
        ensures
            self.catalog().len() == 0 ==> r == Err::<usize, PolicyError>(
                PolicyError::ModelCatalogEmpty,
            ),
            self.catalog().len() > 0 ==> r.is_ok() && r.unwrap() < self.catalog().len(),
    ;
}

/// `r` is the decision that goes by a position in the table: a request that
/// has been forwarded before stays at the local node; an empty table is an
/// error; otherwise the target is the endpoint at position `turn` modulo the
/// number of endpoints.
pub open spec fn turn_decides(
    local: u128,
    request: Request,
    t: Seq<EndpointView>,
    turn: usize,
    r: Result<u128, PolicyError>,
) -> bool {
    if request.jumps > 0 {
        r == Ok::<u128, PolicyError>(local)
    } else if t.len() == 0 {
        r == Err::<u128, PolicyError>(PolicyError::NoEndpointsAvailable)
    } else {
        r == Ok::<u128, PolicyError>(t[turn as int % t.len() as int].id)
    }
}

/// The decision that goes by a position in the table; see `turn_decides`.
pub fn target_at_turn(local: u128, request: &Request, endpoints: &EndpointTable, turn: usize) -> (r:
    Result<u128, PolicyError>)
    ensures
        turn_decides(local, *request, endpoints@, turn, r),
        r matches Ok(id) ==> id == local || has_id(endpoints@, id),
{
    if request.jumps > 0 {
        return Ok(local);
    }
    let n = endpoints.len();
    if n == 0 {
        return Err(PolicyError::NoEndpointsAvailable);
    }
    Ok(endpoints.entry(turn % n).id())
}

} // verus!
