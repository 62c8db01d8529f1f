//! The two selection policies.

pub mod least_connections;
pub mod round_robin_strategy;
