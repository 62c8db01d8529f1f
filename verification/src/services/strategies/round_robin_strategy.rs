use vstd::prelude::*;
use vstd::arithmetic::div_mod::{lemma_fundamental_div_mod, lemma_fundamental_div_mod_converse};
use crate::domain::error::LoadBalancerError;
use crate::domain::loadbalancer_strategy::LoadBalancingStrategy;
use crate::domain::server_type::ServerType;

verus! {

/// Picks the workers in registry order, one after the other, and starts
/// again at the first when the last has had its turn.
pub struct RoundRobinStrategy {
    current_worker: usize,
}

/// The cursor after one selection. It wraps at the top of its range.
pub open spec fn next_cursor(cursor: nat) -> nat {
    if cursor >= usize::MAX {
        0
    } else {
        cursor + 1
    }
}

impl RoundRobinStrategy {
    /// The number of selections made so far, up to wrapping.
    pub closed spec fn cursor(&self) -> nat {
        self.current_worker as nat
    }

    /// The strategy that has made no selection yet.
    pub closed spec fn starting() -> RoundRobinStrategy {
        RoundRobinStrategy { current_worker: 0 }
    }

    /// The strategy that has made no selection yet has its cursor at zero.
    pub proof fn lemma_starting_cursor()
        ensures
            Self::starting().cursor() == 0,
    {
    }

    /// A strategy whose first pick is the first worker.
    pub fn new() -> (strategy: RoundRobinStrategy)
        ensures
            strategy == Self::starting(),
            strategy.cursor() == 0,
    {
        RoundRobinStrategy { current_worker: 0 }
    }

    /// The strategy after `selections` selections.
    pub open spec fn advanced_by(self, selections: nat) -> RoundRobinStrategy
        decreases selections,
    {
        if selections == 0 {
            self
        } else {
            self.advanced_by((selections - 1) as nat).advanced()
        }
    }

    /// The worker picked by selection number `turn`, counted from zero, in
    /// a registry of `workers` workers.
    pub open spec fn pick_at(self, workers: nat, turn: nat) -> int {
        (self.advanced_by(turn).cursor() % workers) as int
    }

    /// How many of the first `selections` selections pick `worker`.
    pub open spec fn times_picked(self, workers: nat, selections: nat, worker: int) -> nat
        decreases selections,
    {
        if selections == 0 {
            0
        } else {
            let earlier = self.times_picked(workers, (selections - 1) as nat, worker);
            if self.pick_at(workers, (selections - 1) as nat) == worker {
                earlier + 1
            } else {
                earlier
            }
        }
    }

    /// The pick of selection number `turn` is the choice that the strategy
    /// makes after `turn` selections, whatever the workers' loads are.
    pub proof fn lemma_pick_at_is_choice(self, counts: Seq<nat>, turn: nat)
        ensures
            self.pick_at(counts.len(), turn) == self.advanced_by(turn).choice(counts),
    {
    }

    /// One selection moves the cursor by one.
    pub proof fn lemma_advanced_cursor(self)
        ensures
            self.advanced().cursor() == next_cursor(self.cursor()),
    {
    }

    /// As long as the cursor does not wrap, `selections` selections move it
    /// by `selections`.
    pub proof fn lemma_advanced_by_cursor(self, selections: nat)
        requires
            self.cursor() + selections <= usize::MAX,
        ensures
            self.advanced_by(selections).cursor() == self.cursor() + selections,
        decreases selections,
    {
        if selections > 0 {
            self.lemma_advanced_by_cursor((selections - 1) as nat);
        }
    }

    /// The selections cycle through the registry in registry order: each
    /// pick is the worker after the previous pick, and the first worker
    /// follows the last.
    pub proof fn lemma_round_robin_cycles(self, workers: nat, turn: nat)
        requires
            workers > 0,
            self.cursor() + turn < usize::MAX,
        ensures
            self.pick_at(workers, turn + 1) == (self.pick_at(workers, turn) + 1) % (workers as int),
    {
        self.lemma_advanced_by_cursor(turn);
        self.lemma_advanced_by_cursor(turn + 1);
        let cursor = (self.cursor() + turn) as int;
        let n = workers as int;
        lemma_fundamental_div_mod(cursor, n);
        let q = cursor / n;
        let r = cursor % n;
        assert(n * q == q * n) by (nonlinear_arith);
        if r + 1 < n {
            lemma_fundamental_div_mod_converse(cursor + 1, n, q, r + 1);
            lemma_fundamental_div_mod_converse(r + 1, n, 0, r + 1);
        } else {
            assert((q + 1) * n == q * n + n) by (nonlinear_arith);
            lemma_fundamental_div_mod_converse(cursor + 1, n, q + 1, 0);
            assert(1 * n == n) by (nonlinear_arith);
            lemma_fundamental_div_mod_converse(r + 1, n, 1, 0);
        }
    }

    /// Selection number `turn` picks the worker that stands `turn` places
    /// after the cursor, counted round the registry.
    pub proof fn lemma_pick_at_turn(self, workers: nat, turn: nat)
        requires
            workers > 0,
            self.cursor() + turn <= usize::MAX,
        ensures
            self.pick_at(workers, turn) == (self.cursor() + turn) % workers,
    {
        self.lemma_advanced_by_cursor(turn);
    }

    /// A strategy that starts afresh goes through the registry in registry
    /// order: selection number `turn`, counted from zero, picks the worker
    /// at `turn` modulo the number of workers.
    pub proof fn lemma_fresh_pick(workers: nat, turn: nat)
        requires
            workers > 0,
            turn <= usize::MAX,
        ensures
            Self::starting().pick_at(workers, turn) == turn % workers,
    {
        Self::starting().lemma_pick_at_turn(workers, turn);
    }

    /// A strategy that starts afresh picks every worker the number of
    /// selections divided by the number of workers, rounded down, and one
    /// time more the workers that stand before the remainder.
    pub proof fn lemma_fresh_times_picked(workers: nat, selections: nat, worker: int)
        requires
            workers > 0,
            0 <= worker < workers,
            selections <= usize::MAX + 1,
        ensures
            Self::starting().times_picked(workers, selections, worker) == selections / workers
                + if worker < selections % workers {
                1int
            } else {
                0int
            },
    {
        let n = workers as int;
        let k = selections as int;
        Self::starting().lemma_times_picked_closed_form(workers, selections, worker);
        lemma_fundamental_div_mod_converse(n - 1 - worker, n, 0, n - 1 - worker);
        lemma_fundamental_div_mod(k, n);
        let q = k / n;
        let r = k % n;
        assert(n * q == q * n) by (nonlinear_arith);
        assert((q + 1) * n == q * n + n) by (nonlinear_arith);
        if worker < r {
            lemma_fundamental_div_mod_converse(k + n - 1 - worker, n, q + 1, r - 1 - worker);
        } else {
            lemma_fundamental_div_mod_converse(k + n - 1 - worker, n, q, r + n - 1 - worker);
        }
    }

    /// Round robin is fair. Over any run of selections in which the cursor
    /// does not wrap, every worker is picked the number of selections
    /// divided by the number of workers, rounded down or rounded up: the
    /// counts of two workers never differ by more than one, and they are
    /// equal when the workers divide the selections.
    pub proof fn lemma_round_robin_fair(self, workers: nat, selections: nat, worker: int)
        requires
            workers > 0,
            0 <= worker < workers,
            self.cursor() + selections <= usize::MAX + 1,
        ensures
            selections / workers <= self.times_picked(workers, selections, worker) <= selections
                / workers + 1,
            selections % workers == 0 ==> self.times_picked(workers, selections, worker)
                == selections / workers,
    {
        let start = self.cursor() as int;
        let n = workers as int;
        let k = selections as int;
        self.lemma_times_picked_closed_form(workers, selections, worker);
        lemma_window_bounds(start + n - 1 - worker, k, n);
    }

    proof fn lemma_times_picked_closed_form(self, workers: nat, selections: nat, worker: int)
        requires
            workers > 0,
            0 <= worker < workers,
            self.cursor() + selections <= usize::MAX + 1,
        ensures
            self.times_picked(workers, selections, worker) == picks_below(
                (self.cursor() + selections) as int,
                workers as int,
                worker,
            ) - picks_below(self.cursor() as int, workers as int, worker),
        decreases selections,
    {
        if selections > 0 {
            let turn = (selections - 1) as nat;
            self.lemma_times_picked_closed_form(workers, turn, worker);
            self.lemma_advanced_by_cursor(turn);
            lemma_picks_below_step((self.cursor() + turn) as int, workers as int, worker);
        }
    }
}

/// How many of the cursors `0, 1, .., below - 1` pick `worker` among
/// `workers` workers.
spec fn picks_below(below: int, workers: int, worker: int) -> int {
    (below + workers - 1 - worker) / workers
}

proof fn lemma_picks_below_step(cursor: int, workers: int, worker: int)
    requires
        workers > 0,
        0 <= worker < workers,
        0 <= cursor,
    ensures
        picks_below(cursor + 1, workers, worker) == picks_below(cursor, workers, worker) + if cursor
            % workers == worker {
            1int
        } else {
            0int
        },
{
    let a = cursor + workers - 1 - worker;
    lemma_fundamental_div_mod(a, workers);
    let q = a / workers;
    let r = a % workers;
    assert(workers * q == q * workers) by (nonlinear_arith);
    assert((q + 1) * workers == q * workers + workers) by (nonlinear_arith);
    assert((q - 1) * workers == q * workers - workers) by (nonlinear_arith);
    if r + 1 < workers {
        lemma_fundamental_div_mod_converse(a + 1, workers, q, r + 1);
        let s = r + 1 + worker;
        if s < workers {
            lemma_fundamental_div_mod_converse(cursor, workers, q - 1, s);
        } else {
            lemma_fundamental_div_mod_converse(cursor, workers, q, s - workers);
        }
    } else {
        lemma_fundamental_div_mod_converse(a + 1, workers, q + 1, 0);
        lemma_fundamental_div_mod_converse(cursor, workers, q, worker);
    }
}

proof fn lemma_window_bounds(a: int, k: int, d: int)
    requires
        d > 0,
        0 <= a,
        0 <= k,
    ensures
        k / d <= (a + k) / d - a / d <= k / d + 1,
        k % d == 0 ==> (a + k) / d - a / d == k / d,
{
    lemma_fundamental_div_mod(a, d);
    lemma_fundamental_div_mod(k, d);
    let qa = a / d;
    let ra = a % d;
    let qk = k / d;
    let rk = k % d;
    assert(d * qa == qa * d) by (nonlinear_arith);
    assert(d * qk == qk * d) by (nonlinear_arith);
    assert((qa + qk) * d == qa * d + qk * d) by (nonlinear_arith);
    assert((qa + qk + 1) * d == qa * d + qk * d + d) by (nonlinear_arith);
    if ra + rk < d {
        lemma_fundamental_div_mod_converse(a + k, d, qa + qk, ra + rk);
    } else {
        lemma_fundamental_div_mod_converse(a + k, d, qa + qk + 1, ra + rk - d);
    }
}

impl LoadBalancingStrategy for RoundRobinStrategy {
    open spec fn strategy_name(&self) -> Seq<char> {
        "Round Robin Strategy"@
    }

    open spec fn choice(&self, counts: Seq<nat>) -> int {
        (self.cursor() % counts.len()) as int
    }

    closed spec fn advanced(&self) -> Self {
        RoundRobinStrategy {
            current_worker: if self.current_worker == usize::MAX {
                0
            } else {
                (self.current_worker + 1) as usize
            },
        }
    }

    proof fn choice_in_range(&self, counts: Seq<nat>) {
    }

    fn current_strategy(&self) -> (name: &'static str) {
        "Round Robin Strategy"
    }

    fn get_worker(&mut self, worker_hosts: &Vec<ServerType>) -> (selected: Result<
        usize,
        LoadBalancerError,
    >)
        ensures
            final(self).cursor() == next_cursor(old(self).cursor()),
    {
        let turn = self.current_worker;
        self.current_worker = turn.wrapping_add(1);
        if worker_hosts.len() == 0 {
            return Err(LoadBalancerError::NoAvailableWorkers);
        }
        Ok(turn % worker_hosts.len())
    }
}

} // verus!
