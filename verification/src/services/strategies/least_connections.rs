use vstd::prelude::*;
use crate::domain::error::LoadBalancerError;
use crate::domain::loadbalancer_strategy::{connection_counts, LoadBalancingStrategy};
use crate::domain::server_type::ServerType;

verus! {

/// Whether `index` is the first position in `counts` that holds the least
/// count: no count is smaller, and every count before it is larger.
pub open spec fn is_first_minimum(counts: Seq<nat>, index: int) -> bool {
    &&& 0 <= index < counts.len()
    &&& forall|j: int| 0 <= j < counts.len() ==> counts[index] <= #[trigger] counts[j]
    &&& forall|j: int| 0 <= j < index ==> counts[index] < #[trigger] counts[j]
}

/// The first position in `counts` that holds the least count.
pub open spec fn first_minimum(counts: Seq<nat>) -> int {
    choose|index: int| is_first_minimum(counts, index)
}

/// At most one position is the first minimum.
pub proof fn lemma_first_minimum_unique(counts: Seq<nat>, a: int, b: int)
    requires
        is_first_minimum(counts, a),
        is_first_minimum(counts, b),
    ensures
        a == b,
{
    if a < b {
        assert(counts[b] < counts[a]);
        assert(counts[a] <= counts[b]);
    } else if b < a {
        assert(counts[a] < counts[b]);
        assert(counts[b] <= counts[a]);
    }
}

/// Picks the worker with the fewest open connections; among equals, the
/// one that stands first in the registry.
pub struct LeastConnectionsStrategy;

impl Default for LeastConnectionsStrategy {
    fn default() -> (strategy: LeastConnectionsStrategy)
        ensures
            strategy == LeastConnectionsStrategy,
    {
        LeastConnectionsStrategy
    }
}

impl LoadBalancingStrategy for LeastConnectionsStrategy {
    open spec fn strategy_name(&self) -> Seq<char> {
        "Least Connections Strategy"@
    }

    open spec fn choice(&self, counts: Seq<nat>) -> int {
        first_minimum(counts)
    }

    open spec fn advanced(&self) -> Self {
        *self
    }

    proof fn choice_in_range(&self, counts: Seq<nat>) {
        lemma_first_minimum_exists(counts);
    }

    fn current_strategy(&self) -> (name: &'static str) {
        "Least Connections Strategy"
    }

    fn get_worker(&mut self, worker_hosts: &Vec<ServerType>) -> (selected: Result<
        usize,
        LoadBalancerError,
    >)
        ensures
            selected matches Ok(index) ==> is_first_minimum(
                connection_counts(worker_hosts@),
                index as int,
            ),
    {
        if worker_hosts.len() == 0 {
            return Err(LoadBalancerError::NoAvailableWorkers);
        }
        let ghost counts = connection_counts(worker_hosts@);
        let mut least_connected_worker: usize = 0;
        let mut min_connections: usize = worker_hosts[0].active_connection_count();
        let mut i: usize = 1;
        while i < worker_hosts.len()
            invariant
                1 <= i <= worker_hosts.len(),
                counts == connection_counts(worker_hosts@),
                least_connected_worker < i,
                min_connections == counts[least_connected_worker as int],
                is_first_minimum(counts.take(i as int), least_connected_worker as int),
            decreases worker_hosts.len() - i,
        {
            let count = worker_hosts[i].active_connection_count();
            if count < min_connections {
                min_connections = count;
                least_connected_worker = i;
            }
            i = i + 1;
        }
        proof {
            assert(counts.take(i as int) == counts);
            lemma_first_minimum_unique(counts, least_connected_worker as int, first_minimum(counts));
        }
        Ok(least_connected_worker)
    }
}

/// Every sequence of counts that is not empty has a first minimum.
pub proof fn lemma_first_minimum_exists(counts: Seq<nat>)
    requires
        counts.len() > 0,
    ensures
        is_first_minimum(counts, first_minimum(counts)),
{
    lemma_prefix_has_first_minimum(counts, counts.len() as int);
    assert(counts.take(counts.len() as int) == counts);
}

proof fn lemma_prefix_has_first_minimum(counts: Seq<nat>, len: int)
    requires
        0 < len <= counts.len(),
    ensures
        is_first_minimum(counts.take(len), first_minimum(counts.take(len))),
    decreases len,
{
    let prefix = counts.take(len);
    if len == 1 {
        assert(is_first_minimum(prefix, 0));
    } else {
        lemma_prefix_has_first_minimum(counts, len - 1);
        let shorter = counts.take(len - 1);
        let before = first_minimum(shorter);
        assert(forall|j: int| 0 <= j < len - 1 ==> shorter[j] == prefix[j]);
        if prefix[len - 1] < prefix[before] {
            assert forall|j: int| 0 <= j < len - 1 implies prefix[len - 1] < #[trigger] prefix[j] by {
                assert(shorter[before] <= shorter[j]);
            }
            assert(is_first_minimum(prefix, len - 1));
        } else {
            assert forall|j: int| 0 <= j < prefix.len() implies prefix[before] <= #[trigger] prefix[j] by {
                if j < len - 1 {
                    assert(shorter[before] <= shorter[j]);
                }
            }
            assert forall|j: int| 0 <= j < before implies prefix[before] < #[trigger] prefix[j] by {
                assert(shorter[before] < shorter[j]);
            }
            assert(is_first_minimum(prefix, before));
        }
    }
}

} // verus!
