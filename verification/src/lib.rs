//! Verified core of a StarkNet wallet-transaction graph service: the rules
//! that turn node replies into transactions, transactions into a graph, and
//! settings into a configuration. Network and HTTP plumbing live in `app/`.

pub mod addresses;
pub mod api;
pub mod config;
pub mod errors;
pub mod json;
pub mod models;
pub mod routes;
pub mod rpc;
pub mod text;
