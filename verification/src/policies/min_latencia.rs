//! Minimum observed latency: send a request to the idle endpoint that has
//! answered fastest of late, and to one never used before any other.

use crate::endpoint::{distinct_ids, Endpoint, EndpointTable, EndpointView};
use crate::error::PolicyError;
use crate::history::{
    average_latency, latency_sum, lemma_average_latency_bound, lemma_latency_sum_bound,
    FAILURE_PENALTY_MS,
};
use crate::model::{
    cheapest, first_named, is_cheapest, is_first_named, some_model_named, Model,
};
use crate::policies::ProxyPolicy;
use crate::request::Request;
use vstd::prelude::*;

verus! {

/// The minimum-observed-latency policy of one node.
pub struct MintimePolicy {
    models: Vec<Model>,
    local_uuid: u128,
}

/// `v` may be chosen for `request`: the request has not passed through it, and
/// it has nothing in flight.
pub open spec fn is_eligible(request: Request, v: EndpointView) -> bool {
    !request.visited(v.id) && v.pending == 0
}

/// Some endpoint of `t` is eligible.
pub open spec fn some_eligible(request: Request, t: Seq<EndpointView>) -> bool {
    exists|j: int| 0 <= j < t.len() && is_eligible(request, #[trigger] t[j])
}

/// What an endpoint weighs in the choice: its average recent latency.
pub open spec fn weight(v: EndpointView) -> nat {
    average_latency(v.outcomes)
}

/// `i` is the first eligible endpoint of the least weight in `t`.
pub open spec fn is_mintime_choice(request: Request, t: Seq<EndpointView>, i: int) -> bool {
    &&& 0 <= i < t.len()
    &&& is_eligible(request, t[i])
    &&& forall|j: int|
        0 <= j < t.len() && is_eligible(request, #[trigger] t[j]) ==> weight(t[i]) <= weight(t[j])
    &&& forall|j: int|
        0 <= j < i && is_eligible(request, #[trigger] t[j]) ==> weight(t[i]) < weight(t[j])
}

/// `r` is what the policy decides for `request` against the table `t`.
pub open spec fn mintime_decides(
    local: u128,
    request: Request,
    t: Seq<EndpointView>,
    r: Result<u128, PolicyError>,
) -> bool {
    if request.jumps > 0 {
        r == Ok::<u128, PolicyError>(local)
    } else if t.len() == 0 {
        r == Err::<u128, PolicyError>(PolicyError::NoEndpointsAvailable)
    } else if !some_eligible(request, t) {
        r == Err::<u128, PolicyError>(PolicyError::NoEligiblePeer)
    } else {
        exists|i: int| #[trigger]
            is_mintime_choice(request, t, i) && r == Ok::<u128, PolicyError>(t[i].id)
    }
}

/// The request carries a hint, and some model's name contains it.
pub open spec fn hint_names_model(models: Seq<Model>, request: Request) -> bool {
    request.context.model matches Some(hint) && some_model_named(models, hint@)
}

/// `i` is the model the policy runs `request` on: the first whose name
/// contains the request's hint, or the cheapest where no hint leads to one.
pub open spec fn is_mintime_model(models: Seq<Model>, request: Request, i: int) -> bool {
    if hint_names_model(models, request) {
        is_first_named(models, request.context.model.unwrap()@, i)
    } else {
        is_cheapest(models, i)
    }
}

/// The average latency of the endpoint's recent calls in milliseconds, a call
/// without a duration counting `FAILURE_PENALTY_MS`. It is 0 for an endpoint
/// never used.
pub fn calculate_weight(endp: &Endpoint) -> (avg: u32)
    ensures
        avg == average_latency(endp@.outcomes),
{
    let results = endp.results();
    let num_endps = results.len();
    let mut sum_latency: u64 = 0;
    let mut i: usize = 0;
    while i < num_endps
        invariant
            i <= num_endps,
            num_endps == results.len(),
            num_endps <= 5,
            sum_latency == latency_sum(results@.take(i as int)),
        decreases num_endps - i,
    {
        proof {
            lemma_latency_sum_bound(results@.take(i as int));
            assert(results@.take(i as int + 1).drop_last() == results@.take(i as int));
            assert(i * u32::MAX <= 5 * u32::MAX) by (nonlinear_arith)
                requires
                    i <= 5,
            ;
        }
        let cost: u64 = match results[i] {
            Some(dur) => dur as u64,
            None => FAILURE_PENALTY_MS as u64,
        };
        sum_latency = sum_latency + cost;
        i = i + 1;
    }
    proof {
        assert(results@.take(num_endps as int) == results@);
        lemma_average_latency_bound(results@);
    }
    match sum_latency.checked_div(num_endps as u64) {
        Some(avg) => avg as u32,
        None => 0,
    }
}

impl MintimePolicy {
    /// A policy for the node `local_uuid` with the given catalog.
    pub fn new(models: Vec<Model>, local_uuid: u128) -> (policy: MintimePolicy)
        ensures
            policy.catalog() == models@,
            policy.local_id() == local_uuid,
    {
        MintimePolicy { models, local_uuid }
    }

    /// The position of the model the request's hint leads to, if it carries a
    /// hint and a model's name contains it. Where this is `None`,
    /// `process_locally` falls back to the cheapest model.
    pub fn hinted_model(&self, request: &Request) -> (r: Option<usize>)
        ensures
            !hint_names_model(self.catalog(), *request) ==> r.is_none(),
            hint_names_model(self.catalog(), *request) ==> r.is_some() && is_first_named(
                self.catalog(),
                request.context.model.unwrap()@,
                r.unwrap() as int,
            ),
    {
        match &request.context.model {
            Some(model_name) => first_named(&self.models, model_name),
            None => None,
        }
    }
}

impl ProxyPolicy for MintimePolicy {
    closed spec fn local_id(&self) -> u128 {
        self.local_uuid
    }

    closed spec fn catalog(&self) -> Seq<Model> {
        self.models@
    }

    fn local_uuid(&self) -> (id: u128) {
        self.local_uuid
    }

    fn models(&self) -> (models: &Vec<Model>) {
        &self.models
    }

    fn choose_target(&mut self, request: &Request, endpts: &EndpointTable) -> (r: Result<
        u128,
        PolicyError,
    >)
        ensures
            mintime_decides(old(self).local_id(), *request, endpts@, r),
    {
        if request.jumps > 0 {
            return Ok(self.local_uuid);
        }
        let n = endpts.len();
        if n == 0 {
            return Err(PolicyError::NoEndpointsAvailable);
        }
        let mut found = false;
        let mut best: usize = 0;
        let mut best_weight: u32 = 0;
        let mut i: usize = 0;
        while i < n
            invariant
                i <= n,
                n == endpts@.len(),
                !found ==> forall|j: int|
                    0 <= j < i ==> !is_eligible(*request, #[trigger] endpts@[j]),
                found ==> {
                    &&& best < i
                    &&& is_eligible(*request, endpts@[best as int])
                    &&& best_weight == weight(endpts@[best as int])
                    &&& forall|j: int|
                        0 <= j < i && is_eligible(*request, #[trigger] endpts@[j]) ==> best_weight
                            <= weight(endpts@[j])
                    &&& forall|j: int|
                        0 <= j < best && is_eligible(*request, #[trigger] endpts@[j])
                            ==> best_weight < weight(endpts@[j])
                },
            decreases n - i,
        {
            let ep = endpts.entry(i);
            if !request.has_visited(ep.id()) && ep.pending() == 0 {
                let w = calculate_weight(ep);
                if !found || w < best_weight {
                    found = true;
                    best = i;
                    best_weight = w;
                }
            }
            i = i + 1;
        }
        if found {
            assert(is_mintime_choice(*request, endpts@, best as int));
            Ok(endpts.entry(best).id())
        } else {
            Err(PolicyError::NoEligiblePeer)
        }
    }

    fn process_locally(&self, request: &Request) -> (r: Result<usize, PolicyError>)
        ensures
            r matches Ok(i) ==> is_mintime_model(self.catalog(), *request, i as int),
    {
        match self.hinted_model(request) {
            Some(i) => Ok(i),
            None => match cheapest(&self.models) {
                Some(i) => Ok(i),
                None => Err(PolicyError::ModelCatalogEmpty),
            },
        }
    }
}

/// At most one endpoint answers to `is_mintime_choice`: ties are broken, and
/// always the same way.
pub proof fn lemma_mintime_choice_unique(request: Request, t: Seq<EndpointView>, i: int, j: int)
    requires
        is_mintime_choice(request, t, i),
        is_mintime_choice(request, t, j),
    ensures
        i == j,
{
    if i < j {
        assert(weight(t[j]) < weight(t[i]));
        assert(weight(t[i]) <= weight(t[j]));
    } else if j < i {
        assert(weight(t[i]) < weight(t[j]));
        assert(weight(t[j]) <= weight(t[i]));
    }
}

/// A request that has not been forwarded never goes to an endpoint it has
/// passed through, nor to one with a request in flight.
pub proof fn lemma_mintime_target_is_eligible(
    local: u128,
    request: Request,
    t: Seq<EndpointView>,
    r: Result<u128, PolicyError>,
    k: int,
)
    requires
        mintime_decides(local, request, t, r),
        request.jumps == 0,
        distinct_ids(t),
        0 <= k < t.len(),
        r == Ok::<u128, PolicyError>(t[k].id),
    ensures
        !request.visited(t[k].id),
        t[k].pending == 0,
{
    let i = choose|i: int| #[trigger]
        is_mintime_choice(request, t, i) && r == Ok::<u128, PolicyError>(t[i].id);
    assert(t[i].id == t[k].id);
}

/// Explore before exploit: where an endpoint never used is eligible, the
/// request goes to an eligible endpoint whose average latency is 0, and so
/// never to one with a nonzero average.
pub proof fn lemma_mintime_prefers_unused(
    local: u128,
    request: Request,
    t: Seq<EndpointView>,
    r: Result<u128, PolicyError>,
    unused: int,
)
    requires
        mintime_decides(local, request, t, r),
        request.jumps == 0,
        0 <= unused < t.len(),
        is_eligible(request, t[unused]),
        t[unused].outcomes.len() == 0,
    ensures
        exists|i: int|
            0 <= i < t.len() && r == Ok::<u128, PolicyError>((#[trigger] t[i]).id) && is_eligible(
                request,
                t[i],
            ) && weight(t[i]) == 0,
{
    let i = choose|i: int| #[trigger]
        is_mintime_choice(request, t, i) && r == Ok::<u128, PolicyError>(t[i].id);
    assert(weight(t[i]) <= weight(t[unused]));
}

} // verus!
