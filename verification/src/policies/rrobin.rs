//! Round robin: the endpoints of the table take turns, the local one included.

use crate::endpoint::{EndpointTable, EndpointView};
use crate::error::PolicyError;
use crate::model::{cheapest, is_cheapest, Model};
use crate::policies::{target_at_turn, turn_decides, ProxyPolicy};
use crate::request::Request;
use vstd::arithmetic::div_mod::{lemma_fundamental_div_mod, lemma_fundamental_div_mod_converse};
use vstd::prelude::*;

verus! {

/// The round-robin policy of one node, with the count of its turns.
pub struct RrobinPolicy {
    models: Vec<Model>,
    siguiente: usize,
    local_uuid: u128,
}

/// The turn after `turn` has been taken by `request` against the table `t`.
/// Only a decision that goes by the turn uses it up; past `usize::MAX` the
/// count starts again at 0.
pub open spec fn turn_after(request: Request, t: Seq<EndpointView>, turn: usize) -> usize {
    if request.jumps > 0 || t.len() == 0 {
        turn
    } else if turn == usize::MAX {
        0
    } else {
        (turn + 1) as usize
    }
}

impl RrobinPolicy {
    /// A policy for the node `local_uuid` with the given catalog, on its first turn.
    pub fn new(models: Vec<Model>, local_uuid: u128) -> (policy: RrobinPolicy)
        ensures
            policy.catalog() == models@,
            policy.local_id() == local_uuid,
            policy.turn() == 0,
    {
        RrobinPolicy { siguiente: 0, models, local_uuid }
    }

    /// The number of turns taken so far.
    pub closed spec fn turn(&self) -> usize {
        self.siguiente
    }

    pub fn siguiente(&self) -> (turn: usize)
        ensures
            turn == self.turn(),
    {
        self.siguiente
    }
}

impl ProxyPolicy for RrobinPolicy {
    closed spec fn local_id(&self) -> u128 {
        self.local_uuid
    }

    closed spec fn catalog(&self) -> Seq<Model> {
        self.models@
    }

    fn local_uuid(&self) -> (id: u128) {
        self.local_uuid
    }

    fn models(&self) -> (models: &Vec<Model>) {
        &self.models
    }

    fn choose_target(&mut self, request: &Request, endpoints: &EndpointTable) -> (r: Result<
        u128,
        PolicyError,
    >)
        ensures
            turn_decides(old(self).local_id(), *request, endpoints@, old(self).turn(), r),
            final(self).turn() == turn_after(*request, endpoints@, old(self).turn()),
    {
        let siguiente = self.siguiente;
        let target = target_at_turn(self.local_uuid, request, endpoints, siguiente);
        if request.jumps == 0 && endpoints.len() > 0 {
            self.siguiente = siguiente.wrapping_add(1);
        }
        target
    }

    fn process_locally(&self, _request: &Request) -> (r: Result<usize, PolicyError>)
        ensures
            r matches Ok(i) ==> is_cheapest(self.catalog(), i as int),
    {
        match cheapest(&self.models) {
            Some(i) => Ok(i),
            None => Err(PolicyError::ModelCatalogEmpty),
        }
    }
}

/// How many of the `n` turns from `first` on go to position `i` of a table of
/// `m` endpoints.
pub open spec fn visits(first: nat, n: nat, m: nat, i: nat) -> nat
    decreases n,
{
    if n == 0 {
        0
    } else {
        visits(first, (n - 1) as nat, m, i) + if (first + n - 1) % (m as int) == i {
            1nat
        } else {
            0nat
        }
    }
}

/// How many of the turns before `x` go to position `i` of a table of `m` endpoints.
pub open spec fn visits_before(x: nat, m: nat, i: nat) -> nat {
    ((x + m - 1 - i) / (m as int)) as nat
}

proof fn lemma_visits_before_step(x: nat, m: nat, i: nat)
    requires
        m > 0,
        i < m,
    ensures
        visits_before(x + 1, m, i) == visits_before(x, m, i) + if x % m == i {
            1nat
        } else {
            0nat
        },
{
    let d = m as int;
    let y = x + m - 1 - i;
    let q = y / d;
    let r = y % d;
    lemma_fundamental_div_mod(y, d);
    assert(y == d * q + r);
    assert(q >= 0) by (nonlinear_arith)
        requires
            y >= 0,
            d > 0,
            q == y / d,
    ;
    if r == d - 1 {
        assert(y + 1 == (q + 1) * d + 0) by (nonlinear_arith)
            requires
                y == d * q + r,
                r == d - 1,
        ;
        lemma_fundamental_div_mod_converse(y + 1, d, q + 1, 0);
        assert(x == q * d + i) by (nonlinear_arith)
            requires
                y == d * q + r,
                r == d - 1,
                y == x + d - 1 - i,
        ;
        lemma_fundamental_div_mod_converse(x as int, d, q, i as int);
    } else {
        assert(y + 1 == q * d + (r + 1)) by (nonlinear_arith)
            requires
                y == d * q + r,
        ;
        lemma_fundamental_div_mod_converse(y + 1, d, q, r + 1);
        if r + 1 + i < d {
            assert(x == (q - 1) * d + (r + 1 + i)) by (nonlinear_arith)
                requires
                    y == d * q + r,
                    y == x + d - 1 - i,
            ;
            lemma_fundamental_div_mod_converse(x as int, d, q - 1, r + 1 + i);
        } else {
            assert(x == q * d + (r + 1 + i - d)) by (nonlinear_arith)
                requires
                    y == d * q + r,
                    y == x + d - 1 - i,
            ;
            lemma_fundamental_div_mod_converse(x as int, d, q, r + 1 + i - d);
        }
    }
}

proof fn lemma_visits_closed_form(first: nat, n: nat, m: nat, i: nat)
    requires
        m > 0,
        i < m,
    ensures
        visits(first, n, m, i) + visits_before(first, m, i) == visits_before(first + n, m, i),
    decreases n,
{
    if n > 0 {
        lemma_visits_closed_form(first, (n - 1) as nat, m, i);
        lemma_visits_before_step((first + n - 1) as nat, m, i);
    }
}

/// Consecutive turns go through the table in its order and start again at its
/// head: the turn after the one for position `p` is for position `p + 1`, or
/// for position 0 where `p` is the last.
pub proof fn lemma_rrobin_in_table_order(turn: nat, m: nat)
    requires
        m > 0,
    ensures
        (turn as int + 1) % (m as int) == if turn as int % (m as int) + 1 == m {
            0
        } else {
            turn as int % (m as int) + 1
        },
{
    let d = m as int;
    let q = turn as int / d;
    let r = turn as int % d;
    lemma_fundamental_div_mod(turn as int, d);
    if r + 1 == d {
        assert(turn + 1 == (q + 1) * d + 0) by (nonlinear_arith)
            requires
                turn == d * q + r,
                r + 1 == d,
        ;
        lemma_fundamental_div_mod_converse(turn as int + 1, d, q + 1, 0);
    } else {
        assert(turn + 1 == q * d + (r + 1)) by (nonlinear_arith)
            requires
                turn == d * q + r,
        ;
        lemma_fundamental_div_mod_converse(turn as int + 1, d, q, r + 1);
    }
}

/// Round robin is fair: of any `n` consecutive turns against a table of `m`
/// endpoints, each position gets `n / m` or one more; and exactly `n / m`
/// where `m` divides `n`.
pub proof fn lemma_rrobin_fair(first: nat, n: nat, m: nat, i: nat)
    requires
        m > 0,
        i < m,
    ensures
        n / m <= visits(first, n, m, i) <= n / m + 1,
        n % m == 0 ==> visits(first, n, m, i) == n / m,
{
    lemma_visits_closed_form(first, n, m, i);
    let d = m as int;
    let a = first + n + m - 1 - i;
    let b = first + m - 1 - i;
    lemma_fundamental_div_mod(a, d);
    lemma_fundamental_div_mod(b, d);
    lemma_fundamental_div_mod(n as int, d);
    let qa = a / d;
    let qb = b / d;
    let qn = n as int / d;
    let ra = a % d;
    let rb = b % d;
    let rn = n as int % d;
    assert(qa >= 0 && qb >= 0) by (nonlinear_arith)
        requires
            a >= 0,
            b >= 0,
            d > 0,
            qa == a / d,
            qb == b / d,
    ;
    assert(d * (qa - qb - qn) == rn + rb - ra) by (nonlinear_arith)
        requires
            a == d * qa + ra,
            b == d * qb + rb,
            n == d * qn + rn,
            a - b == n,
    ;
    assert(0 <= qa - qb - qn <= 1 && (rn == 0 ==> qa - qb - qn == 0)) by (nonlinear_arith)
        requires
            d * (qa - qb - qn) == rn + rb - ra,
            d > 0,
            0 <= ra < d,
            0 <= rb < d,
            0 <= rn < d,
    ;
}

/// The turn after `n` requests in a row have taken theirs against the table `t`.
pub open spec fn turn_after_all(request: Request, t: Seq<EndpointView>, first: usize, n: nat) -> usize
    decreases n,
{
    if n == 0 {
        first
    } else {
        turn_after(request, t, turn_after_all(request, t, first, (n - 1) as nat))
    }
}

/// Against a table that does not change, the turns are consecutive: after `n`
/// decisions that went by the turn, the next one goes by the turn `first + n`,
/// as long as the count has not passed `usize::MAX`.
pub proof fn lemma_rrobin_turns_are_consecutive(
    request: Request,
    t: Seq<EndpointView>,
    first: usize,
    n: nat,
)
    requires
        request.jumps == 0,
        t.len() > 0,
        first + n <= usize::MAX,
    ensures
        turn_after_all(request, t, first, n) == first + n,
    decreases n,
{
    if n > 0 {
        lemma_rrobin_turns_are_consecutive(request, t, first, (n - 1) as nat);
    }
}

} // verus!
