use vstd::prelude::*;
use hyper::header::HeaderValue;
use hyper::HeaderMap;
use crate::domain::error::LoadBalancerError;
use crate::domain::loadbalancer_strategy::{
    LoadBalancingStrategy, LoadBalancingStrategyType, StrategyType,
};
use crate::domain::server_type::{
    acquired, released, view_counts, worker_views, ServerType, ServerView,
};
use crate::services::connection_guard::ConnectionGuard;
use crate::services::headers::{
    copy_headers, distinct_names, field_value, header_fields, lemma_copy_keeps_every_header,
    lemma_field_value_set, lemma_set_field_distinct, set_all, set_field, set_host, HEADER_ROOM,
};
use crate::services::strategies::least_connections::LeastConnectionsStrategy;
use crate::services::strategies::round_robin_strategy::RoundRobinStrategy;
use crate::services::switch_barrier::SwitchBarrier;
use crate::services::upstream::{parsed_target, upstream_target, upstream_uri, UpstreamTarget};

verus! {

#[verifier::external_type_specification]
#[verifier::external_body]
pub struct ExStatusCode(hyper::StatusCode);

#[verifier::external_type_specification]
#[verifier::external_body]
pub struct ExVersion(hyper::Version);

/// The connection count above which a worker counts as highly loaded,
/// unless the balancer is given another.
pub const HIGH_LOAD_THRESHOLD: usize = 5;

/// The parts of an inbound request that decide where and how it is
/// forwarded. Method and body go upstream as they are and stay with the
/// caller.
pub struct InboundRequest {
    /// Path and query of the request URI, if it has them.
    pub path_and_query: Option<String>,
    /// The headers of the request.
    pub headers: HeaderMap<HeaderValue>,
}

/// What the caller needs to forward one request to the worker chosen for
/// it.
pub struct ForwardPlan {
    /// The reservation on the chosen worker. It goes back to the balancer
    /// when the forwarding attempt is over.
    pub guard: ConnectionGuard,
    /// The name of the chosen worker.
    pub worker_name: String,
    /// Where to connect and which URL to ask for.
    pub target: UpstreamTarget,
    /// The headers of the upstream request.
    pub headers: HeaderMap<HeaderValue>,
}

/// The balancer's answer to a request that wants to be forwarded.
pub enum Dispatch {
    /// A switch is in progress. The request waits until it is woken and
    /// asks again.
    Wait,
    /// The request goes to a worker.
    Forward(ForwardPlan),
}

/// Status, version, headers and body of a response.
pub struct ResponseParts {
    pub status: hyper::StatusCode,
    pub version: hyper::Version,
    pub headers: HeaderMap<HeaderValue>,
    pub body: Vec<u8>,
}

/// Whether any worker has more open connections than `threshold`.
pub open spec fn above_threshold(workers: Seq<ServerView>, threshold: nat) -> bool {
    exists|i: int| 0 <= i < workers.len() && (#[trigger] workers[i]).connections > threshold
}

/// The strategy after the load was looked at. Round robin under high load
/// gives way to least connections, least connections without high load
/// gives way to a round robin that starts afresh, and in the other two
/// cases the strategy stays as it is, cursor and all.
pub open spec fn switched(
    current: LoadBalancingStrategyType,
    high_load: bool,
) -> LoadBalancingStrategyType {
    match current {
        LoadBalancingStrategyType::RoundRobin(_) => if high_load {
            LoadBalancingStrategyType::LeastConnections(LeastConnectionsStrategy)
        } else {
            current
        },
        LoadBalancingStrategyType::LeastConnections(_) => if high_load {
            current
        } else {
            LoadBalancingStrategyType::RoundRobin(RoundRobinStrategy::starting())
        },
    }
}

/// The headers of the upstream request: the inbound headers, copied field
/// by field, with `Host` set to the worker's authority.
pub open spec fn upstream_fields(
    inbound: Seq<(Seq<char>, Seq<u8>)>,
    authority: Seq<char>,
) -> Seq<(Seq<char>, Seq<u8>)> {
    set_field(set_all(Seq::empty(), inbound), "host"@, vstd::utf8::encode_utf8(authority))
}

/// The upstream request holds `Host` once, with the worker's authority,
/// and every other header of the inbound request once, with the value that
/// the inbound request gives last under its name.
pub proof fn lemma_upstream_fields(inbound: Seq<(Seq<char>, Seq<u8>)>, authority: Seq<char>)
    ensures
        distinct_names(upstream_fields(inbound, authority)),
        field_value(upstream_fields(inbound, authority), "host"@) == Some(
            vstd::utf8::encode_utf8(authority),
        ),
        forall|name: Seq<char>|
            name != "host"@ ==> #[trigger] field_value(upstream_fields(inbound, authority), name)
                == field_value(inbound, name),
{
    let copied = set_all(Seq::empty(), inbound);
    let value = vstd::utf8::encode_utf8(authority);
    lemma_copy_keeps_every_header(inbound);
    lemma_set_field_distinct(copied, "host"@, value);
    lemma_field_value_set(copied, "host"@, value, "host"@);
    assert forall|name: Seq<char>| name != "host"@ implies #[trigger] field_value(
        upstream_fields(inbound, authority),
        name,
    ) == field_value(inbound, name) by {
        lemma_field_value_set(copied, "host"@, value, name);
        assert(field_value(copied, name) == field_value(inbound, name));
    }
}

/// A switch never leaves anything between two strategies behind: the
/// strategy after it is the one before it, untouched, or the fresh strategy
/// that the load calls for, and it goes by one of the two names.
pub proof fn lemma_switch_is_whole(current: LoadBalancingStrategyType, high_load: bool)
    ensures
        switched(current, high_load) == current || switched(current, high_load)
            == LoadBalancingStrategyType::LeastConnections(LeastConnectionsStrategy) || switched(
            current,
            high_load,
        ) == LoadBalancingStrategyType::RoundRobin(RoundRobinStrategy::starting()),
        switched(current, high_load).strategy_name() == "Round Robin Strategy"@ || switched(
            current,
            high_load,
        ).strategy_name() == "Least Connections Strategy"@,
{
}

/// Decides whether the load calls for another strategy, and for which.
/// `None` means that the current one stays.
pub fn next_strategy(current: &LoadBalancingStrategyType, high_load: bool) -> (next: Option<
    LoadBalancingStrategyType,
>)
    ensures
        match next {
            Some(strategy) => strategy == switched(*current, high_load) && strategy.strategy_name()
                != current.strategy_name(),
            None => switched(*current, high_load) == *current,
        },
        next is Some <==> (current is RoundRobin && high_load) || (current is LeastConnections
            && !high_load),
{
    proof {
        reveal_strlit("Round Robin Strategy");
        reveal_strlit("Least Connections Strategy");
        assert("Round Robin Strategy"@.len() != "Least Connections Strategy"@.len());
    }
    match current {
        LoadBalancingStrategyType::RoundRobin(_) => {
            if high_load {
                Some(LoadBalancingStrategyType::LeastConnections(LeastConnectionsStrategy::default()))
            } else {
                None
            }
        },
        LoadBalancingStrategyType::LeastConnections(_) => {
            if high_load {
                None
            } else {
                Some(LoadBalancingStrategyType::RoundRobin(RoundRobinStrategy::new()))
            }
        },
    }
}

/// Makes the response for the client from the response of the worker:
/// the same status, version and body, and the headers copied field by
/// field.
///
/// A response of no more than [`HEADER_ROOM`] header fields is always
/// made. A larger one fails with an `UnexpectedError` if the header map of
/// the new response becomes full.
pub fn build_response(upstream: ResponseParts) -> (response: Result<
    ResponseParts,
    LoadBalancerError,
>)
    ensures
        response matches Ok(parts) ==> parts.status == upstream.status && parts.version
            == upstream.version && parts.body == upstream.body && header_fields(parts.headers)
            == set_all(Seq::empty(), header_fields(upstream.headers)),
        response matches Err(error) ==> error is UnexpectedError,
        header_fields(upstream.headers).len() <= HEADER_ROOM ==> response is Ok,
{
    match copy_headers(&upstream.headers) {
        Ok(headers) => Ok(
            ResponseParts {
                status: upstream.status,
                version: upstream.version,
                headers,
                body: upstream.body,
            },
        ),
        Err(error) => Err(error),
    }
}

/// The dispatcher: a registry of workers, fixed when the balancer is made,
/// the strategy that picks among them, and the load above which the
/// strategy is switched.
///
/// A balancer is made with a registry that holds at least one worker, and
/// no operation adds or removes a worker.
pub struct LoadBalancer {
    worker_hosts: Vec<ServerType>,
    strategy: StrategyType,
    load_threshold: usize,
}

impl LoadBalancer {
    /// The registry, in registry order.
    pub closed spec fn workers(&self) -> Seq<ServerView> {
        worker_views(self.worker_hosts@)
    }

    /// The active strategy.
    pub closed spec fn active(&self) -> LoadBalancingStrategyType {
        self.strategy.current_strategy
    }

    /// The connection count above which a worker counts as highly loaded.
    pub closed spec fn threshold(&self) -> nat {
        self.load_threshold as nat
    }

    /// Whether the registry holds a worker. It does in every balancer that
    /// [`LoadBalancer::new`] has made.
    pub open spec fn well_formed(&self) -> bool {
        self.workers().len() > 0
    }

    /// The worker that the active strategy picks next.
    pub open spec fn next_choice(&self) -> int {
        self.active().choice(view_counts(self.workers()))
    }

    /// A balancer over `worker_hosts` that starts with `working_strategy`.
    /// A registry without workers is refused with `NoAvailableWorkers`.
    pub fn new(worker_hosts: Vec<ServerType>, working_strategy: LoadBalancingStrategyType) -> (balancer:
        Result<LoadBalancer, LoadBalancerError>)
        ensures
            worker_hosts@.len() == 0 ==> balancer is Err && balancer->Err_0 is NoAvailableWorkers,
            worker_hosts@.len() > 0 ==> balancer is Ok && balancer->Ok_0.workers() == worker_views(
                worker_hosts@,
            ) && balancer->Ok_0.active() == working_strategy && balancer->Ok_0.threshold()
                == HIGH_LOAD_THRESHOLD && balancer->Ok_0.well_formed(),
    {
        if worker_hosts.len() == 0 {
            return Err(LoadBalancerError::NoAvailableWorkers);
        }
        Ok(
            LoadBalancer {
                worker_hosts,
                strategy: StrategyType::new(working_strategy),
                load_threshold: HIGH_LOAD_THRESHOLD,
            },
        )
    }

    /// The same balancer with another threshold for high load.
    pub fn with_load_threshold(self, load_threshold: usize) -> (balancer: LoadBalancer)
        ensures
            balancer.workers() == self.workers(),
            balancer.active() == self.active(),
            balancer.threshold() == load_threshold,
    {
        LoadBalancer {
            worker_hosts: self.worker_hosts,
            strategy: self.strategy,
            load_threshold,
        }
    }

    /// The controller that holds the active strategy.
    pub fn strategy(&self) -> (controller: &StrategyType)
        ensures
            controller.current_strategy == self.active(),
    {
        &self.strategy
    }

    /// The registry.
    pub fn worker_hosts(&self) -> (workers: &Vec<ServerType>)
        ensures
            worker_views(workers@) == self.workers(),
    {
        &self.worker_hosts
    }

    /// The name of the active strategy.
    pub fn current_strategy_name(&self) -> (name: String)
        ensures
            name@ == self.active().strategy_name(),
    {
        self.strategy.get_current_strategy()
    }

    /// The number of workers in the registry.
    pub fn worker_count(&self) -> (count: usize)
        ensures
            count == self.workers().len(),
    {
        self.worker_hosts.len()
    }

    /// The open connections of every worker, in registry order.
    pub fn active_connection_counts(&self) -> (counts: Vec<usize>)
        ensures
            counts@.len() == self.workers().len(),
            forall|i: int| 0 <= i < counts@.len() ==> counts@[i] == self.workers()[i].connections,
    {
        let mut counts: Vec<usize> = Vec::new();
        let mut i: usize = 0;
        while i < self.worker_hosts.len()
            invariant
                i <= self.worker_hosts@.len(),
                counts@.len() == i,
                forall|k: int| 0 <= k < i ==> counts@[k] == self.worker_hosts@[k]@.connections,
            decreases self.worker_hosts@.len() - i,
        {
            counts.push(self.worker_hosts[i].active_connection_count());
            i = i + 1;
        }
        counts
    }

    /// Whether any worker has more open connections than the threshold.
    pub fn is_high_load(&self) -> (high: bool)
        ensures
            high == above_threshold(self.workers(), self.threshold()),
    {
        let mut i: usize = 0;
        while i < self.worker_hosts.len()
            invariant
                i <= self.worker_hosts@.len(),
                forall|k: int|
                    0 <= k < i ==> (#[trigger] self.workers()[k]).connections <= self.threshold(),
            decreases self.worker_hosts@.len() - i,
        {
            if self.worker_hosts[i].active_connection_count() > self.load_threshold {
                assert(self.workers()[i as int].connections > self.threshold());
                return true;
            }
            i = i + 1;
        }
        false
    }

    /// Looks at the load and switches the strategy if the load calls for
    /// it. The workers are not touched.
    pub fn monitor_and_switch(&mut self)
        ensures
            final(self).active() == switched(
                old(self).active(),
                above_threshold(old(self).workers(), old(self).threshold()),
            ),
            final(self).workers() == old(self).workers(),
            final(self).threshold() == old(self).threshold(),
    {
        let high_load = self.is_high_load();
        match next_strategy(&self.strategy.current_strategy, high_load) {
            Some(new_strategy) => {
                self.strategy.switch_strategy(new_strategy);
            },
            None => {},
        }
    }

    /// The whole switch: closes the barrier, looks at the load, switches
    /// the strategy if the load calls for it, and opens the barrier again.
    /// The barrier is open afterwards whatever was decided.
    pub fn request_switch(&mut self, barrier: &mut SwitchBarrier)
        ensures
            !final(barrier).switching(),
            final(self).active() == switched(
                old(self).active(),
                above_threshold(old(self).workers(), old(self).threshold()),
            ),
            final(self).workers() == old(self).workers(),
            final(self).threshold() == old(self).threshold(),
    {
        barrier.begin_switch();
        self.monitor_and_switch();
        barrier.end_switch();
    }

    /// Gives a reservation back: the forwarding attempt it was made for is
    /// over, however it ended.
    pub fn release_guard(&mut self, guard: ConnectionGuard)
        ensures
            final(self).workers() == if guard.worker_index() < old(self).workers().len() {
                released(old(self).workers(), guard.worker_index())
            } else {
                old(self).workers()
            },
            final(self).active() == old(self).active(),
            final(self).threshold() == old(self).threshold(),
    {
        if guard.worker() < self.worker_hosts.len() {
            guard.release(&mut self.worker_hosts);
        }
    }

    /// Starts the dispatch of one request.
    ///
    /// While a switch is in progress the answer is `Wait` and nothing
    /// changes. Otherwise the active strategy picks a worker, a connection
    /// is counted for it, and the answer is the plan for the upstream
    /// request: the worker's base URL with the request's path and query
    /// appended, the address to connect to, and the request's headers with
    /// `Host` set to the worker's authority.
    ///
    /// A plan is made whenever the URL has a host and a port and the
    /// request has fewer than [`HEADER_ROOM`] header fields.
    ///
    /// If no plan can be made the connection is counted off again and the
    /// answer is the error: `InvalidAddress` where the URL has no host or
    /// port, `UnexpectedError` where a header map refuses a field. In a
    /// registry without workers nothing can be picked, and the answer is
    /// `NoAvailableWorkers`.
    pub fn forward_request(&mut self, request: &InboundRequest, barrier: &SwitchBarrier) -> (dispatch:
        Result<Dispatch, LoadBalancerError>)
        ensures
            final(self).threshold() == old(self).threshold(),
            barrier.switching() ==> dispatch is Ok && dispatch->Ok_0 is Wait && final(self).workers()
                == old(self).workers() && final(self).active() == old(self).active(),
            !barrier.switching() ==> final(self).active() == old(self).active().advanced(),
            !barrier.switching() && !old(self).well_formed() ==> dispatch is Err && dispatch->Err_0
                is NoAvailableWorkers && final(self).workers() == old(self).workers(),
            !barrier.switching() && old(self).well_formed() ==> 0 <= old(self).next_choice() < old(
                self,
            ).workers().len() && {
                let chosen = old(self).next_choice();
                let worker = old(self).workers()[chosen];
                let target = parsed_target(
                    upstream_uri(
                        worker.address,
                        match request.path_and_query {
                            Some(path) => Some(path@),
                            None => None,
                        },
                    ),
                );
                &&& target is Some && header_fields(request.headers).len() < HEADER_ROOM
                    ==> dispatch is Ok
                &&& match dispatch {
                    Ok(Dispatch::Wait) => false,
                    Ok(Dispatch::Forward(plan)) => {
                        &&& target is Some
                        &&& plan.guard.worker_index() == chosen
                        &&& plan.worker_name@ == worker.name
                        &&& plan.target@ == target->0
                        &&& header_fields(plan.headers) == upstream_fields(
                            header_fields(request.headers),
                            target->0.authority,
                        )
                        &&& final(self).workers() == acquired(old(self).workers(), chosen)
                    },
                    Err(error) => {
                        &&& final(self).workers() == released(
                            acquired(old(self).workers(), chosen),
                            chosen,
                        )
                        &&& worker.connections < usize::MAX ==> final(self).workers() == old(
                            self,
                        ).workers()
                        &&& if target is None {
                            error is InvalidAddress
                        } else {
                            error is UnexpectedError
                        }
                    },
                }
            },
    {
        if barrier.is_switching() {
            return Ok(Dispatch::Wait);
        }
        let chosen = match self.strategy.current_strategy.get_worker(&self.worker_hosts) {
            Ok(chosen) => chosen,
            Err(error) => {
                return Err(error);
            },
        };
        let worker_name = self.worker_hosts[chosen].name().clone();
        let worker_address = self.worker_hosts[chosen].address_ip().clone();
        let guard = ConnectionGuard::new(&mut self.worker_hosts, chosen);
        let path_and_query = match &request.path_and_query {
            Some(path) => Some(path.as_str()),
            None => None,
        };
        let target = match upstream_target(worker_address.as_str(), path_and_query) {
            Ok(target) => target,
            Err(error) => {
                guard.release(&mut self.worker_hosts);
                return Err(error);
            },
        };
        let mut headers = match copy_headers(&request.headers) {
            Ok(headers) => headers,
            Err(error) => {
                guard.release(&mut self.worker_hosts);
                return Err(error);
            },
        };
        match set_host(&mut headers, target.authority.as_str()) {
            Ok(()) => {},
            Err(error) => {
                guard.release(&mut self.worker_hosts);
                return Err(error);
            },
        }
        Ok(Dispatch::Forward(ForwardPlan { guard, worker_name, target, headers }))
    }

    /// Ends the dispatch of one request: takes the reservation back and
    /// turns what came of the upstream exchange into the answer for the
    /// client.
    ///
    /// A failed exchange, given by its cause, becomes an `UnexpectedError`
    /// that carries the cause. A response becomes the response for the
    /// client as [`build_response`] makes it, which it always does for a
    /// response of no more than [`HEADER_ROOM`] header fields. The
    /// reservation is given back in either case.
    pub fn complete_request(
        &mut self,
        guard: ConnectionGuard,
        outcome: Result<ResponseParts, String>,
    ) -> (response: Result<ResponseParts, LoadBalancerError>)
        ensures
            final(self).workers() == if guard.worker_index() < old(self).workers().len() {
                released(old(self).workers(), guard.worker_index())
            } else {
                old(self).workers()
            },
            final(self).active() == old(self).active(),
            final(self).threshold() == old(self).threshold(),
            match outcome {
                Ok(upstream) => {
                    &&& response matches Ok(parts) ==> parts.status == upstream.status
                        && parts.version == upstream.version && parts.body == upstream.body
                        && header_fields(parts.headers) == set_all(
                        Seq::empty(),
                        header_fields(upstream.headers),
                    )
                    &&& response matches Err(error) ==> error is UnexpectedError
                    &&& header_fields(upstream.headers).len() <= HEADER_ROOM ==> response is Ok
                },
                Err(cause) => response is Err && response->Err_0 is UnexpectedError
                    && response->Err_0.cause() == cause@,
            },
    {
        self.release_guard(guard);
        match outcome {
            Ok(upstream) => build_response(upstream),
            Err(cause) => Err(LoadBalancerError::UnexpectedError(cause)),
        }
    }
}

} // verus!
