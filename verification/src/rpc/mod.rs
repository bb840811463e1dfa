//! Talking to a StarkNet node.

pub mod client;
pub mod scan;
pub mod transaction_utils;
