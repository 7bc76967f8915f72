//! Estimates read off an endpoint's state.

use crate::endpoint::{Endpoint, EndpointView};
use crate::history::average_latency;
use crate::history::lemma_average_latency_bound;
use crate::policies::min_latencia::calculate_weight;
use vstd::prelude::*;

verus! {

/// How long a request that arrives now waits at the endpoint, in milliseconds:
/// each request in flight is taken to last as long as the recent average.
pub open spec fn queue_delay_ms(v: EndpointView) -> nat {
    v.pending as nat * average_latency(v.outcomes)
}

/// The endpoint's static hardware capability score.
pub fn calcular_hw(ep: &Endpoint) -> (hw: u32)
    ensures
        hw == ep@.hardware,
        hw > 0,
{
    ep.hardware()
}

/// The estimated queueing delay at the endpoint, in milliseconds.
pub fn cola_estimada_ms(ep: &Endpoint) -> (ms: u64)
    ensures
        ms == queue_delay_ms(ep@),
{
    let average = calculate_weight(ep);
    let pending = ep.pending();
    assert(pending as nat * average as nat <= u64::MAX) by (nonlinear_arith)
        requires
            pending <= u32::MAX,
            average <= u32::MAX,
    ;
    pending as u64 * average as u64
}

/// The queueing delay never shrinks as requests pile up: of two endpoints with
/// the same history, the one with more requests in flight waits at least as long.
pub proof fn lemma_queue_delay_monotonic(a: EndpointView, b: EndpointView)
    requires
        a.outcomes == b.outcomes,
        a.pending <= b.pending,
    ensures
        queue_delay_ms(a) <= queue_delay_ms(b),
{
    let avg = average_latency(a.outcomes) as int;
    let p = a.pending as int;
    let q = b.pending as int;
    assert(p * avg <= q * avg) by (nonlinear_arith)
        requires
            0 <= p <= q,
            0 <= avg,
    ;
}

/// A queueing delay fits in 64 bits with room for two more 32-bit terms.
pub proof fn lemma_queue_delay_bound(v: EndpointView)
    ensures
        queue_delay_ms(v) <= u32::MAX * u32::MAX,
{
    lemma_average_latency_bound(v.outcomes);
    let avg = average_latency(v.outcomes) as int;
    let p = v.pending as int;
    assert(p * avg <= u32::MAX * u32::MAX) by (nonlinear_arith)
        requires
            0 <= p <= u32::MAX,
            0 <= avg <= u32::MAX,
    ;
}

} // verus!
