//! The ordered pool of backend addresses and its round-robin rotation.

use crate::config::ConfigError;
use vstd::arithmetic::div_mod::{
    lemma_add_mod_noop, lemma_div_basics, lemma_fundamental_div_mod,
    lemma_fundamental_div_mod_converse, lemma_mod_multiples_vanish, lemma_mod_pos_bound,
    lemma_small_mod,
};
use vstd::prelude::*;

verus! {

/// The addresses held by a list of strings, each as its sequence of characters.
pub open spec fn addresses(list: Seq<String>) -> Seq<Seq<char>> {
    list.map_values(|s: String| s@)
}

/// The order of a pool after `steps` selections: a cyclic shift to the left.
pub open spec fn rotated(order: Seq<Seq<char>>, steps: nat) -> Seq<Seq<char>>
    recommends
        order.len() > 0,
{
    Seq::new(order.len(), |i: int| order[(i + steps) % (order.len() as int)])
}

/// The backend that the selection numbered `k` (from 0) returns, for a pool
/// that started in `order`.
pub open spec fn selection(order: Seq<Seq<char>>, k: nat) -> Seq<char>
    recommends
        order.len() > 0,
{
    order[(k as int) % (order.len() as int)]
}

/// How many of the first `rounds` selections on a pool of `size` backends
/// fall on the position `slot` of the configured order.
pub open spec fn times_selected(size: nat, slot: nat, rounds: nat) -> nat
    decreases rounds,
{
    if rounds == 0 {
        0
    } else {
        let earlier = times_selected(size, slot, (rounds - 1) as nat);
        if size > 0 && ((rounds - 1) as int) % (size as int) == slot {
            earlier + 1
        } else {
            earlier
        }
    }
}

/// A fixed, ordered, non-empty set of backend addresses. The only mutation is
/// the rotation made by [`ServerPool::select_next`].
pub struct ServerPool {
    backends: Vec<String>,
}

impl View for ServerPool {
    type V = Seq<Seq<char>>;

    /// The addresses in their current order, the next one to serve first.
    closed spec fn view(&self) -> Seq<Seq<char>> {
        addresses(self.backends@)
    }
}

impl ServerPool {
    /// A pool always holds at least one backend.
    pub open spec fn wf(&self) -> bool {
        self@.len() > 0
    }

    /// Builds the pool from the configured addresses, in their order.
    /// An empty list is refused.
    pub fn new(backends: Vec<String>) -> (made: Result<ServerPool, ConfigError>)
        ensures
            backends@.len() == 0 <==> made is Err,
            made matches Err(e) ==> e == ConfigError::NoBackends,
            made matches Ok(pool) ==> pool.wf() && pool@ == addresses(backends@),
    {
        if backends.len() == 0 {
            Err(ConfigError::NoBackends)
        } else {
            Ok(ServerPool { backends })
        }
    }

    /// The number of backends, which no operation changes.
    pub fn len(&self) -> (n: usize)
        ensures
            n == self@.len(),
    {
        self.backends.len()
    }

    /// Hands out the backend at the front and moves it to the back.
    pub fn select_next(&mut self) -> (backend: String)
        requires
            old(self).wf(),
        ensures
            final(self).wf(),
            backend@ == old(self)@[0],
            final(self)@ == rotated(old(self)@, 1),
    {
        let server = self.backends.remove(0);
        self.backends.push(server.clone());
        proof {
            let n = old(self)@.len() as int;
            assert forall|i: int| 0 <= i < n implies self@[i] == rotated(old(self)@, 1)[i] by {
                if i < n - 1 {
                    lemma_small_mod((i + 1) as nat, n as nat);
                } else {
                    lemma_mod_multiples_vanish(1, 0, n);
                }
            }
            assert(self@ =~= rotated(old(self)@, 1));
        }
        server
    }

    /// A copy of the addresses in their current order. The pool is not changed.
    pub fn snapshot(&self) -> (copy: Vec<String>)
        ensures
            addresses(copy@) == self@,
    {
        let mut copy: Vec<String> = Vec::new();
        let mut i: usize = 0;
        while i < self.backends.len()
            invariant
                i <= self.backends.len(),
                copy@.len() == i,
                forall|j: int| 0 <= j < i ==> copy@[j]@ == self.backends@[j]@,
            decreases self.backends.len() - i,
        {
            copy.push(self.backends[i].clone());
            i += 1;
        }
        assert(addresses(copy@) =~= self@);
        copy
    }
}

/// Rotating by `a` selections and then by `b` is rotating by `a + b`.
pub proof fn lemma_rotations_compose(order: Seq<Seq<char>>, a: nat, b: nat)
    requires
        order.len() > 0,
    ensures
        rotated(rotated(order, a), b) == rotated(order, a + b),
{
    let n = order.len() as int;
    assert forall|i: int| 0 <= i < n implies rotated(rotated(order, a), b)[i] == rotated(
        order,
        a + b,
    )[i] by {
        lemma_add_mod_noop(i + b, a as int, n);
        lemma_small_mod((a as int % n) as nat, n as nat);
        lemma_add_mod_noop((i + b) % n, a as int, n);
        lemma_small_mod(((i + b) % n) as nat, n as nat);
    }
    assert(rotated(rotated(order, a), b) =~= rotated(order, a + b));
}

/// One selection moves the front backend to the back and leaves the set of
/// backends, with their multiplicities, as it was.
proof fn lemma_one_rotation_keeps_backends(order: Seq<Seq<char>>)
    requires
        order.len() > 0,
    ensures
        rotated(order, 1).to_multiset() == order.to_multiset(),
{
    broadcast use vstd::multiset::group_multiset_axioms;

    let n = order.len() as int;
    assert forall|i: int| 0 <= i < n implies rotated(order, 1)[i] == order.remove(0).push(
        order[0],
    )[i] by {
        if i < n - 1 {
            lemma_small_mod((i + 1) as nat, n as nat);
        } else {
            lemma_mod_multiples_vanish(1, 0, n);
        }
    }
    assert(rotated(order, 1) =~= order.remove(0).push(order[0]));
    order.to_multiset_ensures();
    order.remove(0).to_multiset_ensures();
    assert(order.contains(order[0]));
    assert(order.to_multiset().remove(order[0]).insert(order[0]) =~= order.to_multiset());
}

/// Rotation is a cyclic permutation: whatever the number of selections, the
/// pool keeps its length and holds the same backends as often as before.
pub proof fn lemma_rotation_keeps_backends(order: Seq<Seq<char>>, steps: nat)
    requires
        order.len() > 0,
    ensures
        rotated(order, steps).len() == order.len(),
        rotated(order, steps).to_multiset() == order.to_multiset(),
    decreases steps,
{
    if steps == 0 {
        assert forall|i: int| 0 <= i < order.len() implies rotated(order, 0)[i] == order[i] by {
            lemma_small_mod(i as nat, order.len());
        }
        assert(rotated(order, 0) =~= order);
    } else {
        let earlier = (steps - 1) as nat;
        lemma_rotation_keeps_backends(order, earlier);
        lemma_rotations_compose(order, earlier, 1);
        lemma_one_rotation_keeps_backends(rotated(order, earlier));
    }
}

/// Round robin follows the configured order: after `k` selections the backend
/// at the front, the one that selection `k` returns, is the one at position
/// `k mod N` of the configured order, for every `k`.
pub proof fn lemma_selection_is_cyclic(order: Seq<Seq<char>>, k: nat)
    requires
        order.len() > 0,
    ensures
        rotated(order, k).len() == order.len(),
        rotated(order, k)[0] == selection(order, k),
        rotated(rotated(order, k), 1) == rotated(order, k + 1),
{
    lemma_rotations_compose(order, k, 1);
}

/// After any whole number of cycles the pool is back in its configured order.
pub proof fn lemma_full_cycles_restore_order(order: Seq<Seq<char>>, cycles: nat)
    requires
        order.len() > 0,
    ensures
        rotated(order, cycles * order.len()) == order,
{
    let n = order.len() as int;
    assert forall|i: int| 0 <= i < n implies rotated(order, cycles * order.len())[i] == order[i] by {
        lemma_mod_multiples_vanish(cycles as int, i, n);
        lemma_small_mod(i as nat, n as nat);
        assert(i + cycles * n == n * cycles + i) by (nonlinear_arith);
    }
    assert(rotated(order, cycles * order.len()) =~= order);
}

/// The number of the first `rounds` selections that fall on one position, in
/// closed form.
pub proof fn lemma_times_selected(size: nat, slot: nat, rounds: nat)
    requires
        size > 0,
        slot < size,
    ensures
        times_selected(size, slot, rounds) == rounds / size + if slot < rounds % size {
            1nat
        } else {
            0nat
        },
    decreases rounds,
{
    if rounds > 0 {
        let m = (rounds - 1) as int;
        let n = size as int;
        lemma_times_selected(size, slot, m as nat);
        lemma_fundamental_div_mod(m, n);
        lemma_mod_pos_bound(m, n);
        if m % n == n - 1 {
            assert((m + 1) == (m / n + 1) * n + 0) by (nonlinear_arith)
                requires
                    m == n * (m / n) + m % n,
                    m % n == n - 1,
            ;
            lemma_fundamental_div_mod_converse(m + 1, n, m / n + 1, 0);
        } else {
            assert((m + 1) == (m / n) * n + (m % n + 1)) by (nonlinear_arith)
                requires
                    m == n * (m / n) + m % n,
            ;
            lemma_fundamental_div_mod_converse(
                m + 1,
                n,
                m / n,
                m % n + 1,
            );
        }
    } else {
        lemma_small_mod(0, size);
        lemma_div_basics(size as int);
    }
}

/// Round-robin fairness: when the number of selections is a multiple of the
/// pool's length, every position of the configured order is selected equally
/// often: `rounds / size` times each.
pub proof fn lemma_round_robin_is_fair(size: nat, slot: nat, rounds: nat)
    requires
        size > 0,
        slot < size,
        rounds % size == 0,
    ensures
        times_selected(size, slot, rounds) == rounds / size,
{
    lemma_times_selected(size, slot, rounds);
}

/// Every selection hands out one of the configured backends.
pub proof fn lemma_selection_is_configured(order: Seq<Seq<char>>, k: nat)
    requires
        order.len() > 0,
    ensures
        0 <= (k as int) % (order.len() as int) < order.len(),
        order.contains(selection(order, k)),
{
    lemma_mod_pos_bound(k as int, order.len() as int);
}

/// Within one cycle no position is served twice: two different selections
/// less than a pool's length apart fall on different positions.
pub proof fn lemma_cycle_has_no_repeat(size: nat, first: nat, second: nat)
    requires
        size > 0,
        first < second < first + size,
    ensures
        (first as int) % (size as int) != (second as int) % (size as int),
{
    let n = size as int;
    lemma_fundamental_div_mod(first as int, n);
    lemma_fundamental_div_mod(second as int, n);
    if (first as int) % n == (second as int) % n {
        let d = (second as int) / n - (first as int) / n;
        assert(second - first == n * d) by (nonlinear_arith)
            requires
                first == n * ((first as int) / n) + (first as int) % n,
                second == n * ((second as int) / n) + (second as int) % n,
                (first as int) % n == (second as int) % n,
                d == (second as int) / n - (first as int) / n,
        ;
        assert(false) by (nonlinear_arith)
            requires
                0 < n * d < n,
                n > 0,
        ;
    }
}

/// No position is skipped: each selection falls on the position that follows
/// the one before it in the cyclic order.
pub proof fn lemma_selection_advances_by_one(size: nat, k: nat)
    requires
        size > 0,
    ensures
        ((k + 1) as int) % (size as int) == (((k as int) % (size as int)) + 1) % (size as int),
{
    lemma_add_mod_noop(k as int, 1, size as int);
    if size == 1 {
        lemma_small_mod(0, 1);
        assert(1int % 1 == 0);
    } else {
        lemma_small_mod(1, size);
    }
}

} // verus!
