//! Utility-based offload: keep a request at the local node unless peers are
//! known or the local node is estimated to miss the deadline, and then send it
//! to the idle peer of the least cost.

use crate::endpoint::{distinct_ids, Endpoint, EndpointTable, EndpointView};
use crate::error::PolicyError;
use crate::model::{
    cheapest_meeting, is_cheapest_meeting, is_most_accurate, most_accurate, some_model_meets, Model,
};
use crate::policies::requisitos::est_tiempo_para_acc;
use crate::policies::ProxyPolicy;
use crate::request::Request;
use crate::utils::{
    calcular_hw, cola_estimada_ms, lemma_queue_delay_bound, lemma_queue_delay_monotonic,
    queue_delay_ms,
};
use vstd::prelude::*;

verus! {

/// The utility-based offload policy of one node.
pub struct DetourPolicy {
    models: Vec<Model>,
    self_uuid: u128,
}

/// The local endpoint `v` is estimated to take longer than the request's
/// deadline: the wait in its queue and the run of the cheapest model that is
/// accurate enough exceed it. Where no model is accurate enough there is no
/// estimate, and nothing exceeds the deadline.
pub open spec fn should_offload(models: Seq<Model>, request: Request, v: EndpointView) -> bool {
    exists|i: int| #[trigger]
        is_cheapest_meeting(models, request.context.accuracy, i) && queue_delay_ms(v)
            + models[i].perf > request.context.priority
}

/// What sending the request to the endpoint `v` costs: the wait in its queue
/// plus the required accuracy over its hardware score. The utility of the
/// offload model is half this sum, which orders the endpoints the same way.
pub open spec fn fog_cost(request: Request, v: EndpointView) -> nat {
    queue_delay_ms(v) + (request.context.accuracy as nat) / (v.hardware as nat)
}

/// `v` is a peer that has nothing in flight.
pub open spec fn is_candidate(local: u128, v: EndpointView) -> bool {
    v.id != local && v.pending == 0
}

/// Some endpoint of `t` is a candidate.
pub open spec fn some_candidate(local: u128, t: Seq<EndpointView>) -> bool {
    exists|j: int| 0 <= j < t.len() && is_candidate(local, #[trigger] t[j])
}

/// `i` is the first candidate of the least cost in `t`.
pub open spec fn is_detour_choice(local: u128, request: Request, t: Seq<EndpointView>, i: int) -> bool {
    &&& 0 <= i < t.len()
    &&& is_candidate(local, t[i])
    &&& forall|j: int|
        0 <= j < t.len() && is_candidate(local, #[trigger] t[j]) ==> fog_cost(request, t[i])
            <= fog_cost(request, t[j])
    &&& forall|j: int|
        0 <= j < i && is_candidate(local, #[trigger] t[j]) ==> fog_cost(request, t[i]) < fog_cost(
            request,
            t[j],
        )
}

/// The table holds the local endpoint, and it is estimated to miss the deadline.
pub open spec fn local_is_late(
    models: Seq<Model>,
    local: u128,
    request: Request,
    t: Seq<EndpointView>,
) -> bool {
    exists|k: int|
        0 <= k < t.len() && (#[trigger] t[k]).id == local && should_offload(models, request, t[k])
}

/// Peers are looked at when more than one endpoint is known or the local node
/// is estimated to miss the deadline.
pub open spec fn considers_peers(
    models: Seq<Model>,
    local: u128,
    request: Request,
    t: Seq<EndpointView>,
) -> bool {
    t.len() > 1 || local_is_late(models, local, request, t)
}

/// `r` is what the policy decides for `request` against the table `t`.
pub open spec fn detour_decides(
    models: Seq<Model>,
    local: u128,
    request: Request,
    t: Seq<EndpointView>,
    r: Result<u128, PolicyError>,
) -> bool {
    if request.jumps > 0 {
        r == Ok::<u128, PolicyError>(local)
    } else if t.len() == 0 {
        r == Err::<u128, PolicyError>(PolicyError::NoEndpointsAvailable)
    } else if !considers_peers(models, local, request, t) {
        r == Ok::<u128, PolicyError>(local)
    } else if !some_candidate(local, t) {
        r == Err::<u128, PolicyError>(PolicyError::NoEligiblePeer)
    } else {
        exists|i: int| #[trigger]
            is_detour_choice(local, request, t, i) && r == Ok::<u128, PolicyError>(t[i].id)
    }
}

/// `i` is the model the policy runs a request of the given accuracy on.
pub open spec fn is_detour_model(models: Seq<Model>, accuracy: u32, i: int) -> bool {
    if some_model_meets(models, accuracy) {
        is_cheapest_meeting(models, accuracy, i)
    } else {
        is_most_accurate(models, i)
    }
}

/// Whether the request should leave the local node: its estimated time there
/// exceeds the deadline.
pub fn u_off_k(models: &Vec<Model>, request: &Request, ep_local: &Endpoint) -> (offload: bool)
    ensures
        offload == should_offload(models@, *request, ep_local@),
{
    let est_local = est_tiempo_para_acc(models, ep_local, request.context.accuracy);
    let ghost a = request.context.accuracy;
    match est_local {
        Some(t_local) => {
            proof {
                let k = choose|k: int| #[trigger]
                    is_cheapest_meeting(models@, a, k) && t_local as nat == queue_delay_ms(
                        ep_local@,
                    ) + models@[k].perf;
                assert forall|i: int| #[trigger]
                    is_cheapest_meeting(models@, a, i) implies models@[i].perf
                    == models@[k].perf by {
                    assert(models@[i].perf <= models@[k].perf);
                    assert(models@[k].perf <= models@[i].perf);
                }
            }
            t_local > request.context.priority as u64
        },
        None => {
            proof {
                assert forall|i: int| !#[trigger] is_cheapest_meeting(models@, a, i) by {
                    if is_cheapest_meeting(models@, a, i) {
                        assert(models@[i].accuracy >= a);
                    }
                }
            }
            false
        },
    }
}

/// The cost of sending the request to the endpoint; see `fog_cost`.
pub fn u_fog_jk(request: &Request, ep: &Endpoint) -> (cost: u64)
    ensures
        cost == fog_cost(*request, ep@),
{
    let t1 = cola_estimada_ms(ep);
    let t2 = request.context.accuracy / calcular_hw(ep);
    proof {
        lemma_queue_delay_bound(ep@);
    }
    t1 + t2 as u64
}

impl DetourPolicy {
    /// A policy for the node `self_uuid` with the given catalog.
    pub fn new(models: Vec<Model>, self_uuid: u128) -> (policy: DetourPolicy)
        ensures
            policy.catalog() == models@,
            policy.local_id() == self_uuid,
    {
        DetourPolicy { models, self_uuid }
    }
}

impl ProxyPolicy for DetourPolicy {
    closed spec fn local_id(&self) -> u128 {
        self.self_uuid
    }

    closed spec fn catalog(&self) -> Seq<Model> {
        self.models@
    }

    fn local_uuid(&self) -> (id: u128) {
        self.self_uuid
    }

    fn models(&self) -> (models: &Vec<Model>) {
        &self.models
    }

    fn choose_target(&mut self, request: &Request, endpts: &EndpointTable) -> (r: Result<
        u128,
        PolicyError,
    >)
        ensures
            detour_decides(old(self).catalog(), old(self).local_id(), *request, endpts@, r),
    {
        if request.jumps > 0 {
            return Ok(self.self_uuid);
        }
        let n = endpts.len();
        if n == 0 {
            return Err(PolicyError::NoEndpointsAvailable);
        }
        proof {
            use_type_invariant(endpts);
        }
        let offload = match endpts.get(self.self_uuid) {
            Some(self_ep) => u_off_k(&self.models, request, self_ep),
            None => false,
        };
        assert(offload == local_is_late(self.models@, self.self_uuid, *request, endpts@));
        if n > 1 || offload {
            let mut found = false;
            let mut best: usize = 0;
            let mut best_cost: u64 = 0;
            let mut i: usize = 0;
            while i < n
                invariant
                    i <= n,
                    n == endpts@.len(),
                    !found ==> forall|j: int|
                        0 <= j < i ==> !is_candidate(self.self_uuid, #[trigger] endpts@[j]),
                    found ==> {
                        &&& best < i
                        &&& is_candidate(self.self_uuid, endpts@[best as int])
                        &&& best_cost == fog_cost(*request, endpts@[best as int])
                        &&& forall|j: int|
                            0 <= j < i && is_candidate(self.self_uuid, #[trigger] endpts@[j])
                                ==> best_cost <= fog_cost(*request, endpts@[j])
                        &&& forall|j: int|
                            0 <= j < best && is_candidate(self.self_uuid, #[trigger] endpts@[j])
                                ==> best_cost < fog_cost(*request, endpts@[j])
                    },
                decreases n - i,
            {
                let ep = endpts.entry(i);
                if ep.id() != self.self_uuid && ep.pending() == 0 {
                    let cost = u_fog_jk(request, ep);
                    if !found || cost < best_cost {
                        found = true;
                        best = i;
                        best_cost = cost;
                    }
                }
                i = i + 1;
            }
            if found {
                assert(is_detour_choice(self.self_uuid, *request, endpts@, best as int));
                Ok(endpts.entry(best).id())
            } else {
                Err(PolicyError::NoEligiblePeer)
            }
        } else {
            Ok(self.self_uuid)
        }
    }

    fn process_locally(&self, request: &Request) -> (r: Result<usize, PolicyError>)
        ensures
            r matches Ok(i) ==> is_detour_model(self.catalog(), request.context.accuracy, i as int),
    {
        match cheapest_meeting(&self.models, request.context.accuracy) {
            Some(i) => Ok(i),
            None => match most_accurate(&self.models) {
                Some(i) => Ok(i),
                None => Err(PolicyError::ModelCatalogEmpty),
            },
        }
    }
}

/// At most one endpoint answers to `is_detour_choice`: ties are broken, and
/// always the same way.
pub proof fn lemma_detour_choice_unique(
    local: u128,
    request: Request,
    t: Seq<EndpointView>,
    i: int,
    j: int,
)
    requires
        is_detour_choice(local, request, t, i),
        is_detour_choice(local, request, t, j),
    ensures
        i == j,
{
    if i < j {
        assert(fog_cost(request, t[j]) < fog_cost(request, t[i]));
        assert(fog_cost(request, t[i]) <= fog_cost(request, t[j]));
    } else if j < i {
        assert(fog_cost(request, t[i]) < fog_cost(request, t[j]));
        assert(fog_cost(request, t[j]) <= fog_cost(request, t[i]));
    }
}

/// A request that has not been forwarded never goes to a peer with a request
/// in flight. (The local node is not a peer: with no peer known and no need
/// to offload it keeps the request, whatever it has in flight.)
pub proof fn lemma_detour_peer_is_idle(
    models: Seq<Model>,
    local: u128,
    request: Request,
    t: Seq<EndpointView>,
    r: Result<u128, PolicyError>,
    k: int,
)
    requires
        detour_decides(models, local, request, t, r),
        request.jumps == 0,
        distinct_ids(t),
        0 <= k < t.len(),
        r == Ok::<u128, PolicyError>(t[k].id),
        t[k].id != local,
    ensures
        t[k].pending == 0,
{
    let i = choose|i: int| #[trigger]
        is_detour_choice(local, request, t, i) && r == Ok::<u128, PolicyError>(t[i].id);
    assert(t[i].id == t[k].id);
}

/// Once peers are looked at, the request leaves: it goes to a peer or the
/// decision fails, and it never stays at the local node.
pub proof fn lemma_detour_leaves_when_peers_considered(
    models: Seq<Model>,
    local: u128,
    request: Request,
    t: Seq<EndpointView>,
    r: Result<u128, PolicyError>,
)
    requires
        detour_decides(models, local, request, t, r),
        request.jumps == 0,
        t.len() > 0,
        considers_peers(models, local, request, t),
    ensures
        r != Ok::<u128, PolicyError>(local),
        r.is_err() <==> !some_candidate(local, t),
{
}

/// The offload gate: where the local node is estimated to miss the deadline
/// and exactly one peer has nothing in flight, the request goes to that peer.
pub proof fn lemma_detour_offloads_to_only_peer(
    models: Seq<Model>,
    local: u128,
    request: Request,
    t: Seq<EndpointView>,
    r: Result<u128, PolicyError>,
    peer: int,
)
    requires
        detour_decides(models, local, request, t, r),
        request.jumps == 0,
        local_is_late(models, local, request, t),
        0 <= peer < t.len(),
        is_candidate(local, t[peer]),
        forall|j: int| 0 <= j < t.len() && is_candidate(local, #[trigger] t[j]) ==> j == peer,
    ensures
        r == Ok::<u128, PolicyError>(t[peer].id),
        t[peer].id != local,
{
}

/// The model fallback: where the request asks for more accuracy than any
/// model has, it runs on the most accurate model of the catalog.
pub proof fn lemma_detour_falls_back_to_most_accurate(models: Seq<Model>, accuracy: u32, i: int)
    requires
        is_detour_model(models, accuracy, i),
        forall|j: int| 0 <= j < models.len() ==> (#[trigger] models[j]).accuracy < accuracy,
    ensures
        is_most_accurate(models, i),
{
}

/// The two terms of a cost, named so that they can be compared one by one.
proof fn lemma_cost_parts(request: Request, v: EndpointView) -> (parts: (nat, nat))
    ensures
        parts.0 == queue_delay_ms(v),
        parts.1 == (request.context.accuracy as nat) / (v.hardware as nat),
        fog_cost(request, v) == parts.0 + parts.1,
{
    (queue_delay_ms(v), (request.context.accuracy as nat) / (v.hardware as nat))
}

/// The cost of an endpoint never shrinks as requests pile up on it.
pub proof fn lemma_fog_cost_monotonic(request: Request, a: EndpointView, b: EndpointView)
    requires
        a.outcomes == b.outcomes,
        a.hardware == b.hardware,
        a.pending <= b.pending,
    ensures
        fog_cost(request, a) <= fog_cost(request, b),
{
    lemma_queue_delay_monotonic(a, b);
    let pa = lemma_cost_parts(request, a);
    let pb = lemma_cost_parts(request, b);
    assert(pa.0 <= pb.0);
    assert(pa.1 == pb.1);
}

} // verus!
