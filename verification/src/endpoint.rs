//! Endpoints and the table a node keeps of them.
//!
//! An endpoint is a node that can run inference requests, the local node
//! included. Its identity is the 128-bit value of its UUID.

use crate::history::{
    appended, ring_items, ring_len, ring_new, ring_push, ring_to_vec, HISTORY_CAPACITY,
};
use ringbuffer::ConstGenericRingBuffer;
use vstd::prelude::*;

verus! {

/// The runtime state of one node as the policies see it.
pub struct Endpoint {
    id: u128,
    name: String,
    hardware: u32,
    pending: u32,
    last_results: ConstGenericRingBuffer<Option<u32>, 5>,
}

/// What an endpoint is, as plain mathematical values.
pub struct EndpointView {
    pub id: u128,
    pub name: Seq<char>,
    /// The static hardware capability score.
    pub hardware: u32,
    /// Requests dispatched to the endpoint and not yet completed.
    pub pending: u32,
    /// The most recent outcomes, oldest first.
    pub outcomes: Seq<Option<u32>>,
}

/// A hardware score is positive and a history holds at most `HISTORY_CAPACITY` outcomes.
pub open spec fn valid_endpoint(v: EndpointView) -> bool {
    &&& v.hardware > 0
    &&& v.outcomes.len() <= HISTORY_CAPACITY
}

impl View for Endpoint {
    type V = EndpointView;

    closed spec fn view(&self) -> EndpointView {
        EndpointView {
            id: self.id,
            name: self.name@,
            hardware: self.hardware,
            pending: self.pending,
            outcomes: ring_items(self.last_results),
        }
    }
}

/// A change to an endpoint's runtime state.
#[derive(Clone, Copy, Debug)]
pub enum EndpointChange {
    /// A request was dispatched to the endpoint.
    Dispatched,
    /// A request left the endpoint's queue.
    Released,
    /// A call completed in so many milliseconds (`Some`), or timed out or failed (`None`).
    Completed(Option<u32>),
}

/// The endpoint `v` after `change`.
pub open spec fn changed(v: EndpointView, change: EndpointChange) -> EndpointView {
    match change {
        EndpointChange::Dispatched => EndpointView {
            pending: if v.pending < u32::MAX {
                (v.pending + 1) as u32
            } else {
                u32::MAX
            },
            ..v
        },
        EndpointChange::Released => EndpointView {
            pending: if v.pending > 0 {
                (v.pending - 1) as u32
            } else {
                0
            },
            ..v
        },
        EndpointChange::Completed(outcome) => EndpointView {
            outcomes: appended(v.outcomes, outcome),
            ..v
        },
    }
}

impl Endpoint {
    #[verifier::type_invariant]
    pub open spec fn wf(&self) -> bool {
        valid_endpoint(self@)
    }

    /// An idle endpoint without history. A hardware score of 0 is refused.
    pub fn new(id: u128, name: String, hardware: u32) -> (r: Option<Endpoint>)
        ensures
            hardware == 0 <==> r.is_none(),
            r matches Some(e) ==> e.wf() && e@ == (EndpointView {
                id,
                name: name@,
                hardware,
                pending: 0,
                outcomes: Seq::empty(),
            }),
    {
        if hardware == 0 {
            None
        } else {
            Some(Endpoint { id, name, hardware, pending: 0, last_results: ring_new() })
        }
    }

    pub fn id(&self) -> (r: u128)
        ensures
            r == self@.id,
    {
        self.id
    }

    pub fn name(&self) -> (r: &String)
        ensures
            r@ == self@.name,
    {
        &self.name
    }

    pub fn hardware(&self) -> (r: u32)
        ensures
            r == self@.hardware,
            r > 0,
    {
        proof {
            use_type_invariant(self);
        }
        self.hardware
    }

    pub fn pending(&self) -> (r: u32)
        ensures
            r == self@.pending,
    {
        self.pending
    }

    /// The recent outcomes, oldest first.
    pub fn results(&self) -> (r: Vec<Option<u32>>)
        ensures
            r@ == self@.outcomes,
            r.len() <= HISTORY_CAPACITY,
    {
        proof {
            use_type_invariant(self);
        }
        ring_to_vec(&self.last_results)
    }

    /// The number of outcomes remembered.
    pub fn results_len(&self) -> (r: usize)
        ensures
            r == self@.outcomes.len(),
            r <= HISTORY_CAPACITY,
    {
        proof {
            use_type_invariant(self);
        }
        ring_len(&self.last_results)
    }

    /// Applies one state change.
    pub fn apply(&mut self, change: EndpointChange)
        ensures
            final(self).wf(),
            final(self)@ == changed(old(self)@, change),
        no_unwind
    {
        match change {
            EndpointChange::Dispatched => self.add_pending(),
            EndpointChange::Released => self.remove_pending(),
            EndpointChange::Completed(outcome) => self.push_result(outcome),
        }
    }

    /// Counts one more request in flight. The count stays at `u32::MAX` once there.
    pub fn add_pending(&mut self)
        ensures
            final(self).wf(),
            final(self)@ == (EndpointView {
                pending: if old(self)@.pending < u32::MAX {
                    (old(self)@.pending + 1) as u32
                } else {
                    u32::MAX
                },
                ..old(self)@
            }),
        no_unwind
    {
        proof {
            use_type_invariant(&*self);
        }
        if self.pending < u32::MAX {
            self.pending = self.pending + 1;
        }
    }

    /// Counts one request in flight less. The count stays at 0 once there.
    pub fn remove_pending(&mut self)
        ensures
            final(self).wf(),
            final(self)@ == (EndpointView {
                pending: if old(self)@.pending > 0 {
                    (old(self)@.pending - 1) as u32
                } else {
                    0
                },
                ..old(self)@
            }),
        no_unwind
    {
        proof {
            use_type_invariant(&*self);
        }
        if self.pending > 0 {
            self.pending = self.pending - 1;
        }
    }

    /// Records the outcome of a completed call: `Some(ms)` with its duration in
    /// milliseconds, `None` for a timeout or failure.
    pub fn push_result(&mut self, outcome: Option<u32>)
        ensures
            final(self).wf(),
            final(self)@ == (EndpointView {
                outcomes: appended(old(self)@.outcomes, outcome),
                ..old(self)@
            }),
        no_unwind
    {
        proof {
            use_type_invariant(&*self);
        }
        ring_push(&mut self.last_results, outcome);
    }
}

/// The endpoints a node knows, the local node among them, in the order in which
/// they were first inserted. No two have the same identity.
pub struct EndpointTable {
    entries: Vec<Endpoint>,
}

/// No identity occurs twice in `t`.
pub open spec fn distinct_ids(t: Seq<EndpointView>) -> bool {
    forall|i: int, j: int|
        0 <= i < t.len() && 0 <= j < t.len() && (#[trigger] t[i]).id == (#[trigger] t[j]).id ==> i
            == j
}

/// Every endpoint of `t` is valid and no identity occurs twice.
pub open spec fn valid_table(t: Seq<EndpointView>) -> bool {
    &&& forall|i: int| 0 <= i < t.len() ==> valid_endpoint(#[trigger] t[i])
    &&& distinct_ids(t)
}

/// `t` holds an endpoint with identity `id`.
pub open spec fn has_id(t: Seq<EndpointView>, id: u128) -> bool {
    exists|i: int| 0 <= i < t.len() && (#[trigger] t[i]).id == id
}

/// The table unchanged but for position `i`, which holds `v`.
pub open spec fn with_entry(t: Seq<EndpointView>, i: int, v: EndpointView) -> Seq<EndpointView> {
    t.update(i, v)
}

impl View for EndpointTable {
    type V = Seq<EndpointView>;

    closed spec fn view(&self) -> Seq<EndpointView> {
        Seq::new(self.entries@.len(), |i: int| self.entries@[i]@)
    }
}

impl EndpointTable {
    #[verifier::type_invariant]
    pub open spec fn wf(&self) -> bool {
        valid_table(self@)
    }

    /// The empty table.
    pub fn new() -> (r: EndpointTable)
        ensures
            r.wf(),
            r@.len() == 0,
    {
        EndpointTable { entries: Vec::new() }
    }

    pub fn len(&self) -> (r: usize)
        ensures
            r == self@.len(),
    {
        self.entries.len()
    }

    pub fn is_empty(&self) -> (r: bool)
        ensures
            r == (self@.len() == 0),
    {
        self.entries.len() == 0
    }

    /// The endpoint at `position`.
    pub(crate) fn entry(&self, position: usize) -> (r: &Endpoint)
        requires
            position < self@.len(),
        ensures
            r@ == self@[position as int],
            valid_endpoint(r@),
    {
        proof {
            use_type_invariant(self);
        }
        &self.entries[position]
    }

    /// The endpoint at `position`, if the table has that many.
    pub fn at(&self, position: usize) -> (r: Option<&Endpoint>)
        ensures
            position >= self@.len() ==> r.is_none(),
            position < self@.len() ==> r.is_some() && r.unwrap()@ == self@[position as int]
                && valid_endpoint(r.unwrap()@),
    {
        if position < self.entries.len() {
            Some(self.entry(position))
        } else {
            None
        }
    }

    /// Where the endpoint with identity `id` stands.
    pub fn position(&self, id: u128) -> (r: Option<usize>)
        ensures
            !has_id(self@, id) ==> r.is_none(),
            has_id(self@, id) ==> r.is_some() && r.unwrap() < self@.len() && self@[r.unwrap() as int].id
                == id,
    {
        let mut i: usize = 0;
        while i < self.entries.len()
            invariant
                i <= self.entries.len(),
                self@.len() == self.entries.len(),
                forall|j: int| 0 <= j < i ==> (#[trigger] self@[j]).id != id,
            decreases self.entries.len() - i,
        {
            if self.entries[i].id == id {
                assert(self@[i as int].id == id);
                return Some(i);
            }
            i = i + 1;
        }
        None
    }

    /// The endpoint with identity `id`.
    pub fn get(&self, id: u128) -> (r: Option<&Endpoint>)
        ensures
            !has_id(self@, id) ==> r.is_none(),
            has_id(self@, id) ==> r.is_some() && r.unwrap()@.id == id && exists|i: int|
                0 <= i < self@.len() && #[trigger] self@[i] == r.unwrap()@,
    {
        match self.position(id) {
            Some(i) => Some(&self.entries[i]),
            None => None,
        }
    }

    /// Puts `endpoint` into the table: in the place of the endpoint with the same
    /// identity if there is one, else behind the last. Returns whether one was
    /// replaced.
    pub fn insert(&mut self, endpoint: Endpoint) -> (replaced: bool)
        ensures
            final(self).wf(),
            replaced == has_id(old(self)@, endpoint@.id),
            replaced ==> exists|i: int|
                0 <= i < old(self)@.len() && old(self)@[i].id == endpoint@.id && final(self)@
                    == #[trigger] with_entry(old(self)@, i, endpoint@),
            !replaced ==> final(self)@ == old(self)@.push(endpoint@),
    {
        proof {
            use_type_invariant(&*self);
            use_type_invariant(&endpoint);
        }
        let ghost before = self@;
        let ghost v = endpoint@;
        let found = self.position(endpoint.id);
        let mut entries: Vec<Endpoint> = Vec::new();
        core::mem::swap(&mut self.entries, &mut entries);
        let replaced = match found {
            Some(i) => {
                entries.set(i, endpoint);
                true
            },
            None => {
                entries.push(endpoint);
                false
            },
        };
        proof {
            let after = Seq::new(entries@.len(), |i: int| entries@[i]@);
            if replaced {
                assert(after == with_entry(before, found.unwrap() as int, v));
            } else {
                assert(after == before.push(v));
            }
        }
        self.entries = entries;
        replaced
    }

    /// Applies one state change to the endpoint with identity `id`, in place.
    /// Returns whether the table holds such an endpoint.
    pub fn update(&mut self, id: u128, change: EndpointChange) -> (found: bool)
        ensures
            final(self).wf(),
            found == has_id(old(self)@, id),
            !found ==> final(self)@ == old(self)@,
            found ==> exists|i: int|
                0 <= i < old(self)@.len() && old(self)@[i].id == id && final(self)@
                    == #[trigger] with_entry(old(self)@, i, changed(old(self)@[i], change)),
    {
        proof {
            use_type_invariant(&*self);
        }
        let ghost before = self@;
        match self.position(id) {
            Some(i) => {
                let mut entries: Vec<Endpoint> = Vec::new();
                core::mem::swap(&mut self.entries, &mut entries);
                let mut endpoint = entries.remove(i);
                endpoint.apply(change);
                proof {
                    use_type_invariant(&endpoint);
                }
                let ghost v = endpoint@;
                entries.insert(i, endpoint);
                proof {
                    let after = Seq::new(entries@.len(), |k: int| entries@[k]@);
                    assert(after == with_entry(before, i as int, v));
                }
                self.entries = entries;
                true
            },
            None => false,
        }
    }
}

} // verus!
