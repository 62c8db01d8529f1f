//! The dispatcher and the parts it is made of.

pub mod connection_guard;
pub mod headers;
pub mod load_balancer;
pub mod routing;
pub mod strategies;
pub mod switch_barrier;
pub mod upstream;

pub use self::connection_guard::ConnectionGuard;
pub use self::load_balancer::{
    Dispatch, ForwardPlan, InboundRequest, LoadBalancer, ResponseParts,
};
pub use self::routing::{route, Route};
pub use self::strategies::least_connections::LeastConnectionsStrategy;
pub use self::strategies::round_robin_strategy::RoundRobinStrategy;
pub use self::switch_barrier::SwitchBarrier;
