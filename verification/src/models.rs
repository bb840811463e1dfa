//! The transactions the service reads and the graph it answers with.
//!
//! Amounts are kept as integers in wei (10^-18 ETH): a value of `w` wei is
//! the ETH amount `w / 10^18`. Arrow scale factors are kept in percent.

use vstd::prelude::*;

verus! {

/// A transaction between two StarkNet addresses.
#[derive(Debug)]
pub struct Transaction {
    pub hash: String,
    pub from_address: String,
    pub to_address: String,
    /// The transferred amount, in wei.
    pub value_wei: u64,
    /// The fee paid, in wei.
    pub gas_used_wei: u64,
}

/// A transaction as a value.
pub struct TransactionView {
    pub hash: Seq<char>,
    pub from_address: Seq<char>,
    pub to_address: Seq<char>,
    pub value_wei: u64,
    pub gas_used_wei: u64,
}

impl View for Transaction {
    type V = TransactionView;

    open spec fn view(&self) -> TransactionView {
        TransactionView {
            hash: self.hash@,
            from_address: self.from_address@,
            to_address: self.to_address@,
            value_wei: self.value_wei,
            gas_used_wei: self.gas_used_wei,
        }
    }
}

/// A wallet in the graph: its number and its address.
#[derive(Debug)]
pub struct Node {
    pub id: u64,
    pub label: String,
    pub group: u8,
}

/// How the arrow head of an edge is drawn.
#[derive(Debug)]
pub struct EdgeArrow {
    pub enabled: bool,
    /// The arrow's scale factor in percent (50 stands for 0.5).
    pub scale_factor_percent: u32,
}

/// The arrow heads of an edge.
#[derive(Debug)]
pub struct EdgeArrows {
    pub to: EdgeArrow,
}

/// A transaction drawn as an edge between two wallet nodes.
#[derive(Debug)]
pub struct Edge {
    pub to: u64,
    pub from: u64,
    pub label: String,
    /// The fee of the transaction, in wei.
    pub gas_wei: u64,
    pub arrows: EdgeArrows,
    pub id: String,
}

/// The wallets and the transactions between them.
#[derive(Debug)]
pub struct Graph {
    pub nodes: Vec<Node>,
    pub edges: Vec<Edge>,
}

/// The answer to a request for a wallet's transaction graph.
#[derive(Debug)]
pub struct TransactionGraphResponse {
    pub graph: Graph,
    pub counter: u64,
}

} // verus!
