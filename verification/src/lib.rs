//! A reverse-proxy load balancer core: worker selection, connection
//! accounting, the forwarding plan of one request and the protocol for
//! switching the selection strategy while requests are in flight.
//!
//! The library performs no I/O. A caller hands it the parsed parts of an
//! inbound request, receives a plan for the upstream exchange, performs that
//! exchange, and reports the outcome back.

pub mod domain;
pub mod services;
