//! Choosing a backend.
//!
//! A balancer holds the backends of one service in the order of the
//! configuration and a cursor into them. Round robin hands out the backend at
//! the cursor and moves the cursor on by one, around the end; random selection
//! takes the backend that a drawn number points at and leaves the cursor alone.

use crate::service::config::{BackendDefinition, LoadBalancingAlgorithm};
use vstd::arithmetic::div_mod::{
    lemma_add_mod_noop, lemma_mod_add_multiples_vanish, lemma_mod_multiples_vanish,
    lemma_small_mod,
};
use vstd::prelude::*;

verus! {

/// Why no backend could be connected to.
#[derive(Debug, Clone, Copy, PartialEq, Eq, Structural)]
pub enum ConnectionError {
    /// The service has no backend.
    BackendNotFound,
    /// Dialling the backend failed.
    IoError,
}

/// The cursor after one selection: one further, and from the last backend
/// back to the first.
pub open spec fn advance(cursor: nat, n: nat) -> nat {
    (cursor + 1) % n
}

/// The cursor after `k` selections that began at `start`.
pub open spec fn cursor_after(start: nat, n: nat, k: nat) -> nat
    decreases k,
{
    if k == 0 {
        start
    } else {
        advance(cursor_after(start, n, (k - 1) as nat), n)
    }
}

/// How many of the first `k` selections that began at `start` chose the
/// backend at `index`.
pub open spec fn times_chosen(start: nat, n: nat, k: nat, index: nat) -> nat
    decreases k,
{
    if k == 0 {
        0
    } else {
        times_chosen(start, n, (k - 1) as nat, index) + if cursor_after(start, n, (k - 1) as nat)
            == index {
            1nat
        } else {
            0nat
        }
    }
}

/// What one selection does: `before` is the balancer as it was, `result`
/// what the selection returned and `after` the balancer as it is left.
///
/// The backends and the algorithm stay. Without backends the selection
/// fails and the cursor stays. Round robin returns the backend at the cursor
/// and advances the cursor; random selection returns the backend at `draw`
/// modulo the number of backends and leaves the cursor.
pub open spec fn chosen(
    before: LoadBalancer,
    draw: u64,
    result: Result<BackendDefinition, ConnectionError>,
    after: LoadBalancer,
) -> bool {
    let n = before.backends().len();
    &&& after.backends() == before.backends()
    &&& after.algorithm() == before.algorithm()
    &&& n == 0 ==> result == Err::<BackendDefinition, ConnectionError>(
        ConnectionError::BackendNotFound,
    ) && after.cursor() == before.cursor()
    &&& n > 0 ==> before.wf() && after.wf() && match before.algorithm() {
        LoadBalancingAlgorithm::RoundRobin => {
            &&& result == Ok::<BackendDefinition, ConnectionError>(
                before.backends()[before.cursor() as int],
            )
            &&& after.cursor() == advance(before.cursor(), n)
        },
        LoadBalancingAlgorithm::Random => {
            &&& result == Ok::<BackendDefinition, ConnectionError>(
                before.backends()[draw as int % n as int],
            )
            &&& after.cursor() == before.cursor()
        },
    }
}

/// The backends of a service and the cursor of its round robin.
#[derive(Debug)]
pub struct LoadBalancer {
    current_connection_index: usize,
    algo: LoadBalancingAlgorithm,
    backends: Vec<BackendDefinition>,
}

impl LoadBalancer {
    /// The backends, in the order of the configuration.
    pub closed spec fn backends(&self) -> Seq<BackendDefinition> {
        self.backends@
    }

    /// The position of the backend that round robin hands out next.
    pub closed spec fn cursor(&self) -> nat {
        self.current_connection_index as nat
    }

    /// The way of choosing.
    pub closed spec fn algorithm(&self) -> LoadBalancingAlgorithm {
        self.algo
    }

    /// The cursor points at a backend, or there is none and it is zero.
    #[verifier::type_invariant]
    spec fn cursor_in_range(self) -> bool {
        self.current_connection_index < self.backends.len() || (self.backends.len() == 0
            && self.current_connection_index == 0)
    }

    /// There is a backend to choose, and the cursor points at one.
    pub open spec fn wf(&self) -> bool {
        self.backends().len() >= 1 && self.cursor() < self.backends().len()
    }

    /// A balancer over `backends` with its cursor at the first of them.
    pub fn new(backends: Vec<BackendDefinition>, algo: LoadBalancingAlgorithm) -> (r: LoadBalancer)
        ensures
            r.backends() == backends@,
            r.algorithm() == algo,
            r.cursor() == 0,
            r.wf() <==> backends@.len() >= 1,
    {
        LoadBalancer { current_connection_index: 0, algo, backends }
    }

    /// The number of backends.
    pub fn len(&self) -> (r: usize)
        ensures
            r == self.backends().len(),
    {
        self.backends.len()
    }

    /// Chooses the backend of the next connection.
    ///
    /// Round robin returns the backend at the cursor and advances the cursor.
    /// Random selection returns the backend at `draw` modulo the number of
    /// backends and leaves the cursor where it is; `draw` is a number that the
    /// caller has drawn at random, and round robin does not look at it. A
    /// balancer without backends has nothing to return.
    pub fn next(&mut self, draw: u64) -> (r: Result<BackendDefinition, ConnectionError>)
        ensures
            chosen(*old(self), draw, r, *final(self)),
    {
        proof {
            use_type_invariant(&*self);
        }
        let n = self.backends.len();
        if n == 0 {
            return Err(ConnectionError::BackendNotFound);
        }
        match self.algo {
            LoadBalancingAlgorithm::RoundRobin => {
                let chosen = self.backends[self.current_connection_index];
                let here = self.current_connection_index;
                self.current_connection_index = if here + 1 == n {
                    0
                } else {
                    here + 1
                };
                proof {
                    if here + 1 == n {
                        lemma_mod_multiples_vanish(1, 0, n as int);
                    } else {
                        lemma_small_mod((here + 1) as nat, n as nat);
                    }
                }
                Ok(chosen)
            },
            LoadBalancingAlgorithm::Random => {
                let at = (draw % (n as u64)) as usize;
                Ok(self.backends[at])
            },
        }
    }
}

/// A number below twice the modulus loses the modulus at most once.
proof fn lemma_mod_range(x: int, n: int)
    requires
        n > 0,
        0 <= x < 2 * n,
    ensures
        x % n == if x < n {
            x
        } else {
            x - n
        },
{
    if x < n {
        lemma_small_mod(x as nat, n as nat);
    } else {
        lemma_small_mod((x - n) as nat, n as nat);
        lemma_mod_add_multiples_vanish(x - n, n);
    }
}

/// The cursor after `k` selections is `k` positions further, around the end.
pub proof fn lemma_cursor_after(start: nat, n: nat, k: nat)
    requires
        n > 0,
        start < n,
    ensures
        cursor_after(start, n, k) == (start + k) % n,
        cursor_after(start, n, k) < n,
    decreases k,
{
    if k == 0 {
        lemma_small_mod(start, n);
    } else {
        lemma_cursor_after(start, n, (k - 1) as nat);
        let before = (start + k - 1) as int;
        lemma_add_mod_noop(before, 1, n as int);
        lemma_mod_range(1, n as int);
        lemma_mod_range(before % (n as int) + 1, n as int);
        lemma_mod_range(before % (n as int), n as int);
    }
}

/// Round robin repeats after as many selections as there are backends.
pub proof fn lemma_round_robin_period(start: nat, n: nat, k: nat)
    requires
        n > 0,
        start < n,
    ensures
        cursor_after(start, n, k + n) == cursor_after(start, n, k),
{
    lemma_cursor_after(start, n, k);
    lemma_cursor_after(start, n, k + n);
    lemma_mod_add_multiples_vanish((start + k) as int, n as int);
}

/// Within the first `n` selections each backend is chosen once, at the
/// selection that its distance from the start gives.
proof fn lemma_first_round(start: nat, n: nat, m: nat, index: nat)
    requires
        n > 0,
        start < n,
        index < n,
        m <= n,
    ensures
        times_chosen(start, n, m, index) == if (index + n - start) % (n as int) < m {
            1nat
        } else {
            0nat
        },
    decreases m,
{
    let turn = (index + n - start) % (n as int);
    lemma_mod_range((index + n - start) as int, n as int);
    if m > 0 {
        let i = (m - 1) as nat;
        lemma_first_round(start, n, i, index);
        lemma_cursor_after(start, n, i);
        lemma_mod_range((start + i) as int, n as int);
        assert((cursor_after(start, n, i) == index) <==> (i == turn));
    }
}

/// One more round chooses each backend once more.
proof fn lemma_next_round(start: nat, n: nat, k: nat, index: nat)
    requires
        n > 0,
        start < n,
        index < n,
    ensures
        times_chosen(start, n, k + n, index) == times_chosen(start, n, k, index) + 1,
    decreases k,
{
    if k == 0 {
        lemma_first_round(start, n, n, index);
        lemma_mod_range((index + n - start) as int, n as int);
    } else {
        lemma_next_round(start, n, (k - 1) as nat, index);
        lemma_round_robin_period(start, n, (k - 1) as nat);
        assert((k + n - 1) as nat == (k - 1) as nat + n);
    }
}

/// Round robin is fair. Of `k` selections in a row over `n` backends, each
/// backend gets the whole part of `k / n`, or one more where `n` does not
/// divide `k`: no fewer than `k / n` rounded down, no more than `k / n`
/// rounded up.
pub proof fn lemma_round_robin_fair(start: nat, n: nat, k: nat, index: nat)
    requires
        n > 0,
        start < n,
        index < n,
    ensures
        k / n <= times_chosen(start, n, k, index) <= (k + n - 1) / (n as int),
    decreases k,
{
    if k < n {
        lemma_first_round(start, n, k, index);
        assert(k as int / n as int == 0) by (nonlinear_arith)
            requires
                0 <= k < n,
        ;
        if k > 0 {
            assert((k + n - 1) / (n as int) == 1) by (nonlinear_arith)
                requires
                    0 < k < n,
            ;
        }
    } else {
        let rest = (k - n) as nat;
        lemma_round_robin_fair(start, n, rest, index);
        lemma_next_round(start, n, rest, index);
        assert(k as int / n as int == rest as int / n as int + 1) by (nonlinear_arith)
            requires
                n > 0,
                k == rest + n,
        ;
        assert((k + n - 1) / (n as int) == (rest + n - 1) / (n as int) + 1) by (nonlinear_arith)
            requires
                n > 0,
                k == rest + n,
        ;
    }
}

} // verus!
