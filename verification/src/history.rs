//! The bounded history of an endpoint's most recent call outcomes.
//!
//! An outcome is `Some(ms)` for a call that completed in `ms` milliseconds and
//! `None` for one that timed out or failed. The history lives in a
//! `ringbuffer::ConstGenericRingBuffer`; what is assumed of that crate is stated
//! on the four functions below that call it.

use ringbuffer::ConstGenericRingBuffer;
use ringbuffer::RingBuffer;
use vstd::prelude::*;

verus! {

/// How many outcomes an endpoint remembers.
pub const HISTORY_CAPACITY: usize = 5;

/// What a call without a duration counts for in an average, in milliseconds.
pub const FAILURE_PENALTY_MS: u32 = 10_000;

/// `ringbuffer::ConstGenericRingBuffer`, known to the verifier as a type
/// without an inside.
#[verifier::external_type_specification]
#[verifier::external_body]
#[verifier::reject_recursive_types(T)]
pub struct ExConstGenericRingBuffer<T, const CAP: usize>(ConstGenericRingBuffer<T, CAP>);

/// The outcomes a ring buffer holds, from the one pushed longest ago to the one
/// pushed last. What the buffer's methods do is stated over this sequence.
pub uninterp spec fn ring_items(buf: ConstGenericRingBuffer<Option<u32>, 5>) -> Seq<Option<u32>>;

/// `s` after one more outcome: appended at the end, the oldest dropped once
/// `HISTORY_CAPACITY` outcomes are held.
pub open spec fn appended(s: Seq<Option<u32>>, outcome: Option<u32>) -> Seq<Option<u32>> {
    if s.len() < HISTORY_CAPACITY {
        s.push(outcome)
    } else {
        s.subrange(1, s.len() as int).push(outcome)
    }
}

/// `s` after each outcome of `more` in turn.
pub open spec fn appended_all(s: Seq<Option<u32>>, more: Seq<Option<u32>>) -> Seq<Option<u32>>
    decreases more.len(),
{
    if more.len() == 0 {
        s
    } else {
        appended(appended_all(s, more.drop_last()), more.last())
    }
}

/// The last `HISTORY_CAPACITY` elements of `s`, or all of `s` if it has fewer.
pub open spec fn newest(s: Seq<Option<u32>>) -> Seq<Option<u32>> {
    if s.len() <= HISTORY_CAPACITY {
        s
    } else {
        s.subrange(s.len() - HISTORY_CAPACITY, s.len() as int)
    }
}

/// What one outcome adds to the sum of latencies.
pub open spec fn outcome_cost(outcome: Option<u32>) -> nat {
    match outcome {
        Some(ms) => ms as nat,
        None => FAILURE_PENALTY_MS as nat,
    }
}

/// The sum of the costs of all outcomes in `s`.
pub open spec fn latency_sum(s: Seq<Option<u32>>) -> nat
    decreases s.len(),
{
    if s.len() == 0 {
        0
    } else {
        latency_sum(s.drop_last()) + outcome_cost(s.last())
    }
}

/// The average cost of the outcomes in `s`, rounded down; 0 for an empty history.
pub open spec fn average_latency(s: Seq<Option<u32>>) -> nat {
    if s.len() == 0 {
        0
    } else {
        latency_sum(s) / s.len()
    }
}

/// `ConstGenericRingBuffer::new`: the buffer it returns holds nothing.
#[verifier::external_body]
pub(crate) fn ring_new() -> (buf: ConstGenericRingBuffer<Option<u32>, 5>)
    ensures
        ring_items(buf) == Seq::<Option<u32>>::empty(),
{
    ConstGenericRingBuffer::new()
}

/// `RingBuffer::len`: the number of items the buffer holds.
#[verifier::external_body]
pub(crate) fn ring_len(buf: &ConstGenericRingBuffer<Option<u32>, 5>) -> (n: usize)
    ensures
        n == ring_items(*buf).len(),
{
    buf.len()
}

/// `RingBuffer::push`: the value goes in behind the newest item; a buffer that
/// already holds as many items as its capacity drops its oldest item first.
/// Also assumed: the call does not unwind. It writes one slot of the buffer's
/// array and advances its two counters.
#[verifier::external_body]
pub(crate) fn ring_push(buf: &mut ConstGenericRingBuffer<Option<u32>, 5>, outcome: Option<u32>)
    ensures
        ring_items(*final(buf)) == appended(ring_items(*old(buf)), outcome),
    no_unwind
{
    buf.push(outcome);
}

/// `RingBuffer::to_vec`: a copy of the items, from the one pushed longest ago to
/// the one pushed last.
#[verifier::external_body]
pub(crate) fn ring_to_vec(buf: &ConstGenericRingBuffer<Option<u32>, 5>) -> (items: Vec<Option<u32>>)
    ensures
        items@ == ring_items(*buf),
{
    buf.to_vec()
}

/// No sum of latencies exceeds the number of outcomes times the largest duration.
pub proof fn lemma_latency_sum_bound(s: Seq<Option<u32>>)
    ensures
        latency_sum(s) <= s.len() * u32::MAX,
    decreases s.len(),
{
    if s.len() > 0 {
        lemma_latency_sum_bound(s.drop_last());
        assert(outcome_cost(s.last()) <= u32::MAX);
        assert(s.len() * u32::MAX == (s.len() - 1) * u32::MAX + u32::MAX) by (nonlinear_arith);
    }
}

/// An average of latencies is no larger than the largest duration.
pub proof fn lemma_average_latency_bound(s: Seq<Option<u32>>)
    ensures
        average_latency(s) <= u32::MAX,
{
    if s.len() > 0 {
        lemma_latency_sum_bound(s);
        let n = s.len() as int;
        let total = latency_sum(s) as int;
        assert(total / n <= u32::MAX) by (nonlinear_arith)
            requires
                n > 0,
                0 <= total <= n * u32::MAX,
        ;
    }
}

/// Appending never leaves more than `HISTORY_CAPACITY` outcomes in a history
/// that held no more before.
pub proof fn lemma_appended_len(s: Seq<Option<u32>>, outcome: Option<u32>)
    requires
        s.len() <= HISTORY_CAPACITY,
    ensures
        appended(s, outcome).len() <= HISTORY_CAPACITY,
        appended(s, outcome).len() == if s.len() < HISTORY_CAPACITY {
            s.len() + 1
        } else {
            s.len()
        },
        appended(s, outcome).last() == outcome,
{
}

/// Appending outcomes one after another keeps exactly the newest
/// `HISTORY_CAPACITY` of everything recorded, oldest first: after `more` has
/// been appended to a history `s`, the history is the tail of `s` followed by
/// `more`.
pub proof fn lemma_appended_all_keeps_newest(s: Seq<Option<u32>>, more: Seq<Option<u32>>)
    requires
        s.len() <= HISTORY_CAPACITY,
    ensures
        appended_all(s, more) == newest(s + more),
    decreases more.len(),
{
    if more.len() == 0 {
        assert(s + more == s);
    } else {
        let before = more.drop_last();
        lemma_appended_all_keeps_newest(s, before);
        let h = newest(s + before);
        assert(s + more == (s + before).push(more.last()));
        assert(appended(h, more.last()) == newest(s + more));
    }
}

} // verus!
