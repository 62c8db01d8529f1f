use vstd::prelude::*;
use crate::domain::error::LoadBalancerError;
use crate::domain::server_type::{view_counts, worker_views, ServerType};
use crate::services::strategies::least_connections::LeastConnectionsStrategy;
use crate::services::strategies::round_robin_strategy::RoundRobinStrategy;

verus! {

/// The connection counts of a registry, in registry order.
pub open spec fn connection_counts(workers: Seq<ServerType>) -> Seq<nat> {
    view_counts(worker_views(workers))
}

/// A policy that picks a worker from the registry.
///
/// A policy is a value with, at most, a cursor of its own. Which worker it
/// picks is a function of that value and of the registry's connection
/// counts alone, and every selection moves the policy to its next value,
/// whether or not a worker could be picked.
pub trait LoadBalancingStrategy: Sized {
    /// The display name of the policy.
    spec fn strategy_name(&self) -> Seq<char>;

    /// The index this policy picks in a registry with these connection
    /// counts. It means nothing for an empty registry.
    spec fn choice(&self, counts: Seq<nat>) -> int;

    /// The policy after one selection.
    spec fn advanced(&self) -> Self;

    /// On a registry that is not empty the choice is one of its indices.
    proof fn choice_in_range(&self, counts: Seq<nat>)
        requires
            counts.len() > 0,
        ensures
            0 <= self.choice(counts) < counts.len(),
    ;

    /// The name of the policy: a fixed text, the same for every value of
    /// one policy.
    fn current_strategy(&self) -> (name: &'static str)
        ensures
            name@ == self.strategy_name(),
    ;

    /// Picks a worker and returns its index in the registry. An empty
    /// registry gives `NoAvailableWorkers`.
    fn get_worker(&mut self, worker_hosts: &Vec<ServerType>) -> (selected: Result<
        usize,
        LoadBalancerError,
    >)
        ensures
            *final(self) == old(self).advanced(),
            worker_hosts@.len() == 0 ==> selected is Err && selected->Err_0
                is NoAvailableWorkers,
            worker_hosts@.len() > 0 ==> selected is Ok && selected->Ok_0 < worker_hosts@.len()
                && selected->Ok_0 == old(self).choice(connection_counts(worker_hosts@)),
    ;
}

/// One of the two policies the balancer can run.
pub enum LoadBalancingStrategyType {
    RoundRobin(RoundRobinStrategy),
    LeastConnections(LeastConnectionsStrategy),
}

impl LoadBalancingStrategy for LoadBalancingStrategyType {
    open spec fn strategy_name(&self) -> Seq<char> {
        match self {
            LoadBalancingStrategyType::RoundRobin(strategy) => strategy.strategy_name(),
            LoadBalancingStrategyType::LeastConnections(strategy) => strategy.strategy_name(),
        }
    }

    open spec fn choice(&self, counts: Seq<nat>) -> int {
        match self {
            LoadBalancingStrategyType::RoundRobin(strategy) => strategy.choice(counts),
            LoadBalancingStrategyType::LeastConnections(strategy) => strategy.choice(counts),
        }
    }

    open spec fn advanced(&self) -> Self {
        match self {
            LoadBalancingStrategyType::RoundRobin(strategy) => LoadBalancingStrategyType::RoundRobin(
                strategy.advanced(),
            ),
            LoadBalancingStrategyType::LeastConnections(strategy) =>
                LoadBalancingStrategyType::LeastConnections(strategy.advanced()),
        }
    }

    proof fn choice_in_range(&self, counts: Seq<nat>) {
        match self {
            LoadBalancingStrategyType::RoundRobin(strategy) => strategy.choice_in_range(counts),
            LoadBalancingStrategyType::LeastConnections(strategy) => strategy.choice_in_range(
                counts,
            ),
        }
    }

    fn current_strategy(&self) -> (name: &'static str) {
        match self {
            LoadBalancingStrategyType::RoundRobin(strategy) => strategy.current_strategy(),
            LoadBalancingStrategyType::LeastConnections(strategy) => strategy.current_strategy(),
        }
    }

    fn get_worker(&mut self, worker_hosts: &Vec<ServerType>) -> (selected: Result<
        usize,
        LoadBalancerError,
    >) {
        match self {
            LoadBalancingStrategyType::RoundRobin(strategy) => strategy.get_worker(worker_hosts),
            LoadBalancingStrategyType::LeastConnections(strategy) => strategy.get_worker(
                worker_hosts,
            ),
        }
    }
}

/// Holds the strategy that is currently active.
///
/// Dispatch reads it, the switch operation replaces it, and nothing else
/// touches it. A replacement is one assignment, so a reader sees the old
/// strategy or the new one and never a mixture.
pub struct StrategyType {
    pub current_strategy: LoadBalancingStrategyType,
}

impl StrategyType {
    /// A controller that starts with `new_strategy`.
    pub fn new(new_strategy: LoadBalancingStrategyType) -> (controller: StrategyType)
        ensures
            controller.current_strategy == new_strategy,
    {
        StrategyType { current_strategy: new_strategy }
    }

    /// The name of the active strategy.
    pub fn get_current_strategy(&self) -> (name: String)
        ensures
            name@ == self.current_strategy.strategy_name(),
    {
        self.current_strategy.current_strategy().to_owned()
    }

    /// Replaces the active strategy.
    pub fn switch_strategy(&mut self, new_strategy: LoadBalancingStrategyType)
        ensures
            final(self).current_strategy == new_strategy,
    {
        self.current_strategy = new_strategy;
    }
}

} // verus!
