use hyper::header::{HeaderName, HeaderValue};
use hyper::{HeaderMap, StatusCode, Version};
use proxy_load_balancer::domain::{LoadBalancerError, LoadBalancingStrategyType, ServerType};
use proxy_load_balancer::services::load_balancer::{build_response, next_strategy};
use proxy_load_balancer::services::{
    Dispatch, ForwardPlan, InboundRequest, LeastConnectionsStrategy, LoadBalancer, ResponseParts,
    RoundRobinStrategy, SwitchBarrier,
};

fn round_robin() -> LoadBalancingStrategyType {
    LoadBalancingStrategyType::RoundRobin(RoundRobinStrategy::new())
}

fn least_connections() -> LoadBalancingStrategyType {
    LoadBalancingStrategyType::LeastConnections(LeastConnectionsStrategy::default())
}

fn registry(counts: &[usize]) -> Vec<ServerType> {
    let mut workers = Vec::new();
    for (i, count) in counts.iter().enumerate() {
        let mut w = ServerType::new(format!("Server {}", i), format!("http://127.0.0.1:{}", 5000 + i));
        for _ in 0..*count {
            w.add_connection();
        }
        workers.push(w);
    }
    workers
}

fn balancer(counts: &[usize], strategy: LoadBalancingStrategyType) -> LoadBalancer {
    LoadBalancer::new(registry(counts), strategy).unwrap()
}

fn request(path: &str) -> InboundRequest {
    let mut headers = HeaderMap::new();
    headers.insert(HeaderName::from_static("host"), HeaderValue::from_static("proxy.example:4000"));
    headers.insert(HeaderName::from_static("accept"), HeaderValue::from_static("*/*"));
    InboundRequest { path_and_query: Some(path.to_string()), headers }
}

fn plan_of(dispatch: Result<Dispatch, LoadBalancerError>) -> ForwardPlan {
    match dispatch {
        Ok(Dispatch::Forward(plan)) => plan,
        Ok(Dispatch::Wait) => panic!("the barrier is open, the request must not wait"),
        Err(error) => panic!("no plan: {}", error.message()),
    }
}

fn response(status: StatusCode, version: Version, body: &[u8]) -> ResponseParts {
    let mut headers = HeaderMap::new();
    headers.insert(HeaderName::from_static("content-type"), HeaderValue::from_static("text/plain"));
    headers.insert(HeaderName::from_static("set-cookie"), HeaderValue::from_static("a=1"));
    headers.append(HeaderName::from_static("set-cookie"), HeaderValue::from_static("b=2"));
    ResponseParts { status, version, headers, body: body.to_vec() }
}

#[test]
fn balancer_without_workers_is_refused() {
    assert!(matches!(
        LoadBalancer::new(Vec::new(), round_robin()),
        Err(LoadBalancerError::NoAvailableWorkers)
    ));
    assert!(matches!(
        LoadBalancer::new(Vec::new(), least_connections()),
        Err(LoadBalancerError::NoAvailableWorkers)
    ));
}

#[test]
fn balancer_starts_with_the_given_strategy_and_registry() {
    let lb = balancer(&[0, 2, 1], least_connections());
    assert_eq!(lb.current_strategy_name(), "Least Connections Strategy");
    assert_eq!(lb.worker_count(), 3);
    assert_eq!(lb.active_connection_counts(), vec![0, 2, 1]);
    let lb = balancer(&[0], round_robin());
    assert_eq!(lb.current_strategy_name(), "Round Robin Strategy");
}

#[test]
fn high_load_is_a_count_above_the_threshold() {
    assert!(!balancer(&[0, 0], round_robin()).is_high_load());
    assert!(!balancer(&[5, 5, 5], round_robin()).is_high_load());
    assert!(balancer(&[0, 6, 0], round_robin()).is_high_load());
    assert!(balancer(&[0, 0, 17], round_robin()).is_high_load());
}

#[test]
fn threshold_can_be_set() {
    let lb = balancer(&[2, 3], round_robin()).with_load_threshold(2);
    assert!(lb.is_high_load());
    let lb = balancer(&[2, 3], round_robin()).with_load_threshold(3);
    assert!(!lb.is_high_load());
    let lb = balancer(&[6, 7], round_robin()).with_load_threshold(7);
    assert!(!lb.is_high_load());
    assert_eq!(lb.active_connection_counts(), vec![6, 7]);
    assert_eq!(lb.current_strategy_name(), "Round Robin Strategy");
}

#[test]
fn round_robin_under_low_load_stays() {
    let mut lb = balancer(&[5, 0, 3], round_robin());
    let mut barrier = SwitchBarrier::new();
    lb.request_switch(&mut barrier);
    assert_eq!(lb.current_strategy_name(), "Round Robin Strategy");
    assert!(!barrier.is_switching());
}

#[test]
fn round_robin_under_high_load_gives_way_to_least_connections() {
    let mut lb = balancer(&[0, 6, 0], round_robin());
    let mut barrier = SwitchBarrier::new();
    lb.request_switch(&mut barrier);
    assert_eq!(lb.current_strategy_name(), "Least Connections Strategy");
    assert!(!barrier.is_switching());
    assert_eq!(lb.active_connection_counts(), vec![0, 6, 0]);
}

#[test]
fn least_connections_under_low_load_reverts_to_round_robin() {
    let mut lb = balancer(&[1, 5, 2], least_connections());
    let mut barrier = SwitchBarrier::new();
    lb.request_switch(&mut barrier);
    assert_eq!(lb.current_strategy_name(), "Round Robin Strategy");
    assert!(!barrier.is_switching());
}

#[test]
fn least_connections_under_high_load_stays() {
    let mut lb = balancer(&[9, 0], least_connections());
    lb.monitor_and_switch();
    assert_eq!(lb.current_strategy_name(), "Least Connections Strategy");
}

#[test]
fn switch_back_starts_round_robin_afresh() {
    let mut lb = balancer(&[0, 0, 0], round_robin());
    let barrier = SwitchBarrier::new();
    let first = plan_of(lb.forward_request(&request("/"), &barrier));
    assert_eq!(first.guard.worker(), 0);
    let second = plan_of(lb.forward_request(&request("/"), &barrier));
    assert_eq!(second.guard.worker(), 1);
    lb.release_guard(first.guard);
    lb.release_guard(second.guard);
    let mut lb = lb.with_load_threshold(0);
    let held = plan_of(lb.forward_request(&request("/"), &barrier));
    assert_eq!(held.guard.worker(), 2);
    lb.monitor_and_switch();
    assert_eq!(lb.current_strategy_name(), "Least Connections Strategy");
    lb.release_guard(held.guard);
    lb.monitor_and_switch();
    assert_eq!(lb.current_strategy_name(), "Round Robin Strategy");
    let again = plan_of(lb.forward_request(&request("/"), &barrier));
    assert_eq!(again.guard.worker(), 0);
}

#[test]
fn no_change_keeps_the_round_robin_cursor() {
    let mut lb = balancer(&[0, 0, 0], round_robin());
    let barrier = SwitchBarrier::new();
    let first = plan_of(lb.forward_request(&request("/"), &barrier));
    lb.release_guard(first.guard);
    lb.monitor_and_switch();
    let second = plan_of(lb.forward_request(&request("/"), &barrier));
    assert_eq!(second.guard.worker(), 1);
}

#[test]
fn next_strategy_follows_the_decision_table() {
    let to_lc = next_strategy(&round_robin(), true);
    assert!(matches!(to_lc, Some(LoadBalancingStrategyType::LeastConnections(_))));
    let to_rr = next_strategy(&least_connections(), false);
    assert!(matches!(to_rr, Some(LoadBalancingStrategyType::RoundRobin(_))));
    assert!(next_strategy(&round_robin(), false).is_none());
    assert!(next_strategy(&least_connections(), true).is_none());
}

#[test]
fn barrier_opens_and_closes() {
    let mut barrier = SwitchBarrier::new();
    assert!(!barrier.is_switching());
    barrier.begin_switch();
    assert!(barrier.is_switching());
    barrier.begin_switch();
    assert!(barrier.is_switching());
    barrier.end_switch();
    assert!(!barrier.is_switching());
    barrier.end_switch();
    assert!(!barrier.is_switching());
}

#[test]
fn request_waits_while_a_switch_is_in_progress() {
    let mut lb = balancer(&[0, 0], round_robin());
    let mut barrier = SwitchBarrier::new();
    barrier.begin_switch();
    assert!(matches!(lb.forward_request(&request("/work"), &barrier), Ok(Dispatch::Wait)));
    assert!(matches!(lb.forward_request(&request("/work"), &barrier), Ok(Dispatch::Wait)));
    assert_eq!(lb.active_connection_counts(), vec![0, 0]);
    barrier.end_switch();
    let plan = plan_of(lb.forward_request(&request("/work"), &barrier));
    assert_eq!(plan.guard.worker(), 0);
    assert_eq!(lb.active_connection_counts(), vec![1, 0]);
}

#[test]
fn forward_plan_names_the_worker_and_the_target() {
    let mut lb = balancer(&[2, 0, 1], least_connections());
    let barrier = SwitchBarrier::new();
    let plan = plan_of(lb.forward_request(&request("/work?job=7"), &barrier));
    assert_eq!(plan.guard.worker(), 1);
    assert_eq!(plan.worker_name, "Server 1");
    assert_eq!(plan.target.uri, "http://127.0.0.1:5001/work?job=7");
    assert_eq!(plan.target.host, "127.0.0.1");
    assert_eq!(plan.target.port, 5001);
    assert_eq!(plan.target.authority, "127.0.0.1:5001");
    assert_eq!(plan.target.address, "127.0.0.1:5001");
    assert_eq!(lb.active_connection_counts(), vec![2, 1, 1]);
}

#[test]
fn forward_plan_rewrites_the_host_header_and_keeps_the_others() {
    let mut lb = balancer(&[0], round_robin());
    let barrier = SwitchBarrier::new();
    let plan = plan_of(lb.forward_request(&request("/"), &barrier));
    assert_eq!(plan.headers.len(), 2);
    assert_eq!(plan.headers.get("host").unwrap(), "127.0.0.1:5000");
    assert_eq!(plan.headers.get("accept").unwrap(), "*/*");
}

#[test]
fn forward_plan_adds_the_host_header_when_the_request_has_none() {
    let mut lb = balancer(&[0], round_robin());
    let barrier = SwitchBarrier::new();
    let bare = InboundRequest { path_and_query: None, headers: HeaderMap::new() };
    let plan = plan_of(lb.forward_request(&bare, &barrier));
    assert_eq!(plan.target.uri, "http://127.0.0.1:5000");
    assert_eq!(plan.headers.len(), 1);
    assert_eq!(plan.headers.get("host").unwrap(), "127.0.0.1:5000");
}

#[test]
fn dispatches_follow_round_robin() {
    let mut lb = balancer(&[0, 0, 0], round_robin());
    let barrier = SwitchBarrier::new();
    let mut picks = Vec::new();
    for _ in 0..5 {
        let plan = plan_of(lb.forward_request(&request("/"), &barrier));
        picks.push(plan.guard.worker());
        lb.release_guard(plan.guard);
    }
    assert_eq!(picks, vec![0, 1, 2, 0, 1]);
    assert_eq!(lb.active_connection_counts(), vec![0, 0, 0]);
}

#[test]
fn dispatches_in_flight_steer_least_connections() {
    let mut lb = balancer(&[0, 0], least_connections());
    let barrier = SwitchBarrier::new();
    let first = plan_of(lb.forward_request(&request("/"), &barrier));
    let second = plan_of(lb.forward_request(&request("/"), &barrier));
    let third = plan_of(lb.forward_request(&request("/"), &barrier));
    assert_eq!(first.guard.worker(), 0);
    assert_eq!(second.guard.worker(), 1);
    assert_eq!(third.guard.worker(), 0);
    assert_eq!(lb.active_connection_counts(), vec![2, 1]);
    lb.release_guard(first.guard);
    lb.release_guard(third.guard);
    let fourth = plan_of(lb.forward_request(&request("/"), &barrier));
    assert_eq!(fourth.guard.worker(), 0);
}

#[test]
fn count_after_a_successful_dispatch_is_the_count_before() {
    let mut lb = balancer(&[3, 1], least_connections());
    let barrier = SwitchBarrier::new();
    let plan = plan_of(lb.forward_request(&request("/"), &barrier));
    assert_eq!(lb.active_connection_counts(), vec![3, 2]);
    let answer = lb.complete_request(plan.guard, Ok(response(StatusCode::OK, Version::HTTP_11, b"done")));
    assert!(answer.is_ok());
    assert_eq!(lb.active_connection_counts(), vec![3, 1]);
}

#[test]
fn count_after_a_failed_dispatch_is_the_count_before() {
    let mut lb = balancer(&[3, 1], least_connections());
    let barrier = SwitchBarrier::new();
    let plan = plan_of(lb.forward_request(&request("/"), &barrier));
    let answer = lb.complete_request(plan.guard, Err("connection refused".to_string()));
    match answer {
        Err(LoadBalancerError::UnexpectedError(cause)) => assert_eq!(cause, "connection refused"),
        _ => panic!("a failed exchange must be an unexpected error"),
    }
    assert_eq!(lb.active_connection_counts(), vec![3, 1]);
}

#[test]
fn count_after_a_cancelled_dispatch_is_the_count_before() {
    let mut lb = balancer(&[0, 4], round_robin());
    let barrier = SwitchBarrier::new();
    let plan = plan_of(lb.forward_request(&request("/"), &barrier));
    assert_eq!(lb.active_connection_counts(), vec![1, 4]);
    lb.release_guard(plan.guard);
    assert_eq!(lb.active_connection_counts(), vec![0, 4]);
}

#[test]
fn worker_without_port_is_an_invalid_address_and_keeps_its_count() {
    let workers = vec![ServerType::new("Server 0".to_string(), "http://127.0.0.1".to_string())];
    let mut lb = LoadBalancer::new(workers, round_robin()).unwrap();
    let barrier = SwitchBarrier::new();
    assert!(matches!(
        lb.forward_request(&request("/work"), &barrier),
        Err(LoadBalancerError::InvalidAddress)
    ));
    assert_eq!(lb.active_connection_counts(), vec![0]);
}

#[test]
fn failed_dispatch_still_moves_round_robin_on() {
    let workers = vec![
        ServerType::new("Server 0".to_string(), "no url at all".to_string()),
        ServerType::new("Server 1".to_string(), "http://127.0.0.1:5001".to_string()),
    ];
    let mut lb = LoadBalancer::new(workers, round_robin()).unwrap();
    let barrier = SwitchBarrier::new();
    assert!(matches!(
        lb.forward_request(&request("/"), &barrier),
        Err(LoadBalancerError::InvalidAddress)
    ));
    let plan = plan_of(lb.forward_request(&request("/"), &barrier));
    assert_eq!(plan.guard.worker(), 1);
    assert_eq!(lb.active_connection_counts(), vec![0, 1]);
}

#[test]
fn response_keeps_status_version_body_and_headers() {
    let upstream = response(StatusCode::NOT_FOUND, Version::HTTP_10, b"nothing here");
    let parts = build_response(upstream).unwrap();
    assert_eq!(parts.status, StatusCode::NOT_FOUND);
    assert_eq!(parts.version, Version::HTTP_10);
    assert_eq!(parts.body, b"nothing here".to_vec());
    assert_eq!(parts.headers.keys_len(), 2);
    assert_eq!(parts.headers.get("content-type").unwrap(), "text/plain");
    assert_eq!(parts.headers.get("set-cookie").unwrap(), "b=2");
    assert_eq!(parts.headers.len(), 2);
}

#[test]
fn completed_request_hands_the_response_through() {
    let mut lb = balancer(&[0], round_robin());
    let barrier = SwitchBarrier::new();
    let plan = plan_of(lb.forward_request(&request("/"), &barrier));
    let parts = lb
        .complete_request(plan.guard, Ok(response(StatusCode::CREATED, Version::HTTP_11, b"made")))
        .unwrap();
    assert_eq!(parts.status, StatusCode::CREATED);
    assert_eq!(parts.version, Version::HTTP_11);
    assert_eq!(parts.body, b"made".to_vec());
    assert_eq!(parts.headers.get("content-type").unwrap(), "text/plain");
}

#[test]
fn balancer_shows_its_controller_and_registry() {
    let lb = balancer(&[1, 0], round_robin());
    assert_eq!(lb.strategy().get_current_strategy(), "Round Robin Strategy");
    assert_eq!(lb.worker_hosts().len(), 2);
    assert_eq!(lb.worker_hosts()[0].active_connection_count(), 1);
    assert_eq!(lb.worker_hosts()[1].name().as_str(), "Server 1");
}

#[test]
fn response_without_headers_is_always_built() {
    let upstream = ResponseParts {
        status: StatusCode::NO_CONTENT,
        version: Version::HTTP_11,
        headers: HeaderMap::new(),
        body: Vec::new(),
    };
    let parts = build_response(upstream).unwrap();
    assert_eq!(parts.status, StatusCode::NO_CONTENT);
    assert!(parts.headers.is_empty());
    assert!(parts.body.is_empty());
}

#[test]
fn request_with_many_headers_gets_a_plan_and_an_answer() {
    let mut lb = balancer(&[0, 0], round_robin());
    let barrier = SwitchBarrier::new();
    let mut headers = HeaderMap::new();
    for i in 0..300 {
        let field = HeaderName::from_bytes(format!("x-field-{}", i).as_bytes()).unwrap();
        headers.insert(field, HeaderValue::from_static("v"));
    }
    headers.append(HeaderName::from_static("host"), HeaderValue::from_static("first.example"));
    headers.append(HeaderName::from_static("host"), HeaderValue::from_static("second.example"));
    let crowded = InboundRequest { path_and_query: Some("/work".to_string()), headers };
    let plan = plan_of(lb.forward_request(&crowded, &barrier));
    assert_eq!(plan.headers.len(), 301);
    assert_eq!(plan.headers.get_all("host").iter().count(), 1);
    assert_eq!(plan.headers.get("host").unwrap(), "127.0.0.1:5000");
    assert_eq!(plan.headers.get("x-field-299").unwrap(), "v");
    let mut upstream = response(StatusCode::OK, Version::HTTP_11, b"ok");
    for i in 0..300 {
        let field = HeaderName::from_bytes(format!("x-answer-{}", i).as_bytes()).unwrap();
        upstream.headers.insert(field, HeaderValue::from_static("w"));
    }
    let parts = lb.complete_request(plan.guard, Ok(upstream)).unwrap();
    assert_eq!(parts.headers.keys_len(), 302);
    assert_eq!(parts.headers.get("x-answer-0").unwrap(), "w");
    assert_eq!(lb.active_connection_counts(), vec![0, 0]);
}
