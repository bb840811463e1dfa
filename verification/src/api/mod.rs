//! The HTTP endpoints of the service.

pub mod transactions;
