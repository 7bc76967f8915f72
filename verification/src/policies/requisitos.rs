//! What a request's requirements cost the local node.

use crate::endpoint::{Endpoint, EndpointView};
use crate::model::{cheapest_meeting, is_cheapest_meeting, some_model_meets, Model};
use crate::utils::{
    cola_estimada_ms, lemma_queue_delay_bound, lemma_queue_delay_monotonic, queue_delay_ms,
};
use vstd::prelude::*;

verus! {

/// `t` is the time in milliseconds the endpoint `v` is estimated to need for a
/// request of the given accuracy: the wait in its queue, then the run of the
/// cheapest model that is accurate enough.
pub open spec fn is_local_time(models: Seq<Model>, v: EndpointView, accuracy: u32, t: nat) -> bool {
    exists|i: int| #[trigger]
        is_cheapest_meeting(models, accuracy, i) && t == queue_delay_ms(v) + models[i].perf
}

/// The estimated time in milliseconds for a request of the given accuracy at
/// the endpoint, or `None` where no model of the catalog is accurate enough.
pub fn est_tiempo_para_acc(models: &Vec<Model>, ep: &Endpoint, accuracy: u32) -> (r: Option<u64>)
    ensures
        !some_model_meets(models@, accuracy) ==> r.is_none(),
        some_model_meets(models@, accuracy) ==> r.is_some() && is_local_time(
            models@,
            ep@,
            accuracy,
            r.unwrap() as nat,
        ),
{
    match cheapest_meeting(models, accuracy) {
        None => None,
        Some(i) => {
            let queue = cola_estimada_ms(ep);
            proof {
                lemma_queue_delay_bound(ep@);
            }
            Some(queue + models[i].perf as u64)
        },
    }
}

/// The estimate never shrinks as requests pile up: of two endpoints with the
/// same history, the one with more requests in flight is estimated to take at
/// least as long, whatever the accuracy asked for.
pub proof fn lemma_local_time_monotonic(
    models: Seq<Model>,
    a: EndpointView,
    b: EndpointView,
    accuracy: u32,
    ta: nat,
    tb: nat,
)
    requires
        a.outcomes == b.outcomes,
        a.pending <= b.pending,
        is_local_time(models, a, accuracy, ta),
        is_local_time(models, b, accuracy, tb),
    ensures
        ta <= tb,
{
    lemma_queue_delay_monotonic(a, b);
    let i = choose|i: int| #[trigger]
        is_cheapest_meeting(models, accuracy, i) && ta == queue_delay_ms(a) + models[i].perf;
    let j = choose|j: int| #[trigger]
        is_cheapest_meeting(models, accuracy, j) && tb == queue_delay_ms(b) + models[j].perf;
    assert(models[i].perf <= models[j].perf);
}

} // verus!
