//! The data model: workers, strategies and errors.

pub mod error;
pub mod loadbalancer_strategy;
pub mod server_type;

pub use self::error::LoadBalancerError;
pub use self::loadbalancer_strategy::{
    LoadBalancingStrategy, LoadBalancingStrategyType, StrategyType,
};
pub use self::server_type::{ServerType, ServerView};
