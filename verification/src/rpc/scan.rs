//! The lookup of an address's transactions, as a machine that the
//! application feeds with the node's replies: each reply moves it to its
//! next state and tells which call to make next, until it is done.
//!
//! The lookup asks for the events that name the address and fetches the
//! transaction of each event (a failed fetch is skipped). When fewer than
//! ten transactions were found, it also reads the latest block number and
//! scans the blocks from a thousand blocks back up to the latest one for
//! transactions that concern the address. A failure of any other call ends
//! the lookup with that failure.
//!
//! The graph of a wallet is drawn from the transactions of the wallet and,
//! past the first degree, of every address they connect it to; a
//! `GraphLookup` decides which addresses are looked up, one after another.

use vstd::prelude::*;

use crate::errors::{AppError, AppErrorView};
use crate::json::JsonValue;
use crate::models::{Transaction, TransactionView};
use crate::rpc::client::{
    block_number_of, block_transactions, error_views, failures_in, scan_block, event_hashes, event_transaction_hashes, fetched_transaction,
    matching_in, needs_block_scan, parse_block_number, scan_start_block, transaction_from_reply,
    RpcCall, MIN_EVENT_TRANSACTIONS, SCAN_WINDOW,
};
use crate::addresses::{excluding, lemma_distinct_len, lemma_excluding_len, texts};
use crate::rpc::client::{lemma_related_addresses, related_addresses, second_degree_addresses};
use crate::api::transactions::{endpoint_addresses, transaction_views};

verus! {

/// What the lookup waits for.
#[derive(Debug)]
pub enum ScanPhase {
    /// The events that name the address.
    Events,
    /// A transaction; `pending` are the hashes still to fetch after it.
    Transactions { pending: Vec<String> },
    /// The latest block number.
    LatestBlock,
    /// Block `next`; the scan ends with block `last`.
    Blocks { next: u64, last: u64 },
}

/// A lookup in progress: the address, what it waits for, and the
/// transactions found so far.
#[derive(Debug)]
pub struct AddressScan {
    pub address: String,
    pub phase: ScanPhase,
    pub found: Vec<Transaction>,
}

/// What the lookup does after a reply: make another call, or finish.
#[derive(Debug)]
pub enum ScanStep {
    Call(AddressScan, RpcCall),
    Done(Result<Vec<Transaction>, AppError>),
}

/// A call as a value.
pub enum CallView {
    Events(Seq<char>),
    Transaction(Seq<char>),
    LatestBlock,
    Block(u64),
}

/// A phase as a value.
pub enum PhaseView {
    Events,
    Transactions(Seq<Seq<char>>),
    LatestBlock,
    Blocks(u64, u64),
}

/// A lookup as a value.
pub struct ScanView {
    pub address: Seq<char>,
    pub phase: PhaseView,
    pub found: Seq<TransactionView>,
}

/// A step as a value.
pub enum StepView {
    Call(ScanView, CallView),
    Done(Result<Seq<TransactionView>, AppErrorView>),
}

impl View for RpcCall {
    type V = CallView;

    open spec fn view(&self) -> CallView {
        match self {
            RpcCall::GetEvents { address } => CallView::Events(address@),
            RpcCall::GetTransactionByHash { hash } => CallView::Transaction(hash@),
            RpcCall::BlockHashAndNumber => CallView::LatestBlock,
            RpcCall::GetBlockWithTxs { block_number } => CallView::Block(*block_number),
        }
    }
}

impl View for AddressScan {
    type V = ScanView;

    open spec fn view(&self) -> ScanView {
        ScanView {
            address: self.address@,
            phase: match self.phase {
                ScanPhase::Events => PhaseView::Events,
                ScanPhase::Transactions { pending } => PhaseView::Transactions(texts(pending@)),
                ScanPhase::LatestBlock => PhaseView::LatestBlock,
                ScanPhase::Blocks { next, last } => PhaseView::Blocks(next, last),
            },
            found: transaction_views(self.found@),
        }
    }
}

impl View for ScanStep {
    type V = StepView;

    open spec fn view(&self) -> StepView {
        match self {
            ScanStep::Call(s, c) => StepView::Call(s@, c@),
            ScanStep::Done(Ok(found)) => StepView::Done(Ok(transaction_views(found@))),
            ScanStep::Done(Err(e)) => StepView::Done(Err(e@)),
        }
    }
}

/// Once the event transactions are fetched: scan recent blocks when fewer
/// than ten were found, finish otherwise.
pub open spec fn after_fetching(address: Seq<char>, found: Seq<TransactionView>) -> StepView {
    if found.len() < MIN_EVENT_TRANSACTIONS {
        StepView::Call(ScanView { address, phase: PhaseView::LatestBlock, found }, CallView::LatestBlock)
    } else {
        StepView::Done(Ok(found))
    }
}

/// Fetch the next pending transaction, if any is left.
pub open spec fn fetch_next(address: Seq<char>, pending: Seq<Seq<char>>, found: Seq<TransactionView>) -> StepView {
    if pending.len() > 0 {
        StepView::Call(
            ScanView { address, phase: PhaseView::Transactions(pending.drop_first()), found },
            CallView::Transaction(pending[0]),
        )
    } else {
        after_fetching(address, found)
    }
}

/// The first block of the scan for a latest block number.
pub open spec fn scan_start(latest: u64) -> u64 {
    if latest > SCAN_WINDOW { (latest - SCAN_WINDOW) as u64 } else { 0 }
}

/// How a lookup answers a reply of the node.
pub open spec fn scan_transition(s: ScanView, reply: Result<JsonValue, AppError>) -> StepView {
    match s.phase {
        PhaseView::Events => match reply {
            Err(e) => StepView::Done(Err(e@)),
            Ok(answer) => fetch_next(s.address, event_hashes(answer), s.found),
        },
        PhaseView::Transactions(pending) => {
            let found = match fetched_transaction(reply) {
                Ok(t) => s.found.push(t),
                Err(_) => s.found,
            };
            fetch_next(s.address, pending, found)
        },
        PhaseView::LatestBlock => match reply {
            Err(e) => StepView::Done(Err(e@)),
            Ok(answer) => match block_number_of(answer) {
                Err(e) => StepView::Done(Err(e)),
                Ok(latest) => StepView::Call(
                    ScanView {
                        address: s.address,
                        phase: PhaseView::Blocks(scan_start(latest), latest),
                        found: s.found,
                    },
                    CallView::Block(scan_start(latest)),
                ),
            },
        },
        PhaseView::Blocks(next, last) => match reply {
            Err(e) => StepView::Done(Err(e@)),
            Ok(block) => {
                let found = s.found + matching_in(block_transactions(block), s.address);
                if next >= last {
                    StepView::Done(Ok(found))
                } else {
                    StepView::Call(
                        ScanView { address: s.address, phase: PhaseView::Blocks((next + 1) as u64, last), found },
                        CallView::Block((next + 1) as u64),
                    )
                }
            },
        },
    }
}

/// The errors of the transactions a lookup skips on a reply: a failed
/// fetch of a transaction, or the block transactions that concern the
/// address but do not read as transactions.
pub open spec fn scan_skipped(s: ScanView, reply: Result<JsonValue, AppError>) -> Seq<AppErrorView> {
    match s.phase {
        PhaseView::Transactions(_) => match fetched_transaction(reply) {
            Ok(_) => Seq::empty(),
            Err(e) => seq![e],
        },
        PhaseView::Blocks(_, _) => match reply {
            Ok(block) => failures_in(block_transactions(block), s.address),
            Err(_) => Seq::empty(),
        },
        _ => Seq::empty(),
    }
}

/// How far a lookup is from its end: the phase (later phases are smaller),
/// then the calls left within the phase.
pub open spec fn scan_measure(s: ScanView) -> (nat, nat) {
    match s.phase {
        PhaseView::Events => (3, 0),
        PhaseView::Transactions(pending) => (2, pending.len()),
        PhaseView::LatestBlock => (1, 0),
        PhaseView::Blocks(next, last) => (0, (if last >= next { last - next } else { 0 }) as nat),
    }
}

/// One pair is below another in the lexicographic order.
pub open spec fn measure_below(a: (nat, nat), b: (nat, nat)) -> bool {
    a.0 < b.0 || (a.0 == b.0 && a.1 < b.1)
}

/// Every call the lookup makes brings it closer to its end, so it makes
/// finitely many calls whatever the node replies.
pub proof fn lemma_scan_terminates(s: ScanView, reply: Result<JsonValue, AppError>)
    ensures
        scan_transition(s, reply) matches StepView::Call(next, _) ==> measure_below(
            scan_measure(next),
            scan_measure(s),
        ),
{
}

/// Once every event hash has been fetched, the lookup asks for the latest
/// block, to scan recent blocks, exactly when fewer than ten transactions
/// were found (the one just fetched counted, a failed fetch not), and
/// finishes with those transactions otherwise.
pub proof fn lemma_block_scan_threshold(s: ScanView, reply: Result<JsonValue, AppError>)
    requires
        s.phase == PhaseView::Transactions(Seq::empty()),
    ensures
        ({
            let found = match fetched_transaction(reply) {
                Ok(t) => s.found.push(t),
                Err(_) => s.found,
            };
            &&& found.len() < 10 ==> scan_transition(s, reply) == StepView::Call(
                ScanView { address: s.address, phase: PhaseView::LatestBlock, found },
                CallView::LatestBlock,
            )
            &&& found.len() >= 10 ==> scan_transition(s, reply) == StepView::Done(Ok(found))
        }),
{
}

/// When the events name no transaction, the lookup scans recent blocks
/// exactly when it has found fewer than ten transactions, and finishes with
/// them otherwise.
pub proof fn lemma_no_events_threshold(s: ScanView, answer: JsonValue)
    requires
        s.phase == PhaseView::Events,
        event_hashes(answer).len() == 0,
    ensures
        s.found.len() < 10 ==> scan_transition(s, Ok(answer)) == StepView::Call(
            ScanView { address: s.address, phase: PhaseView::LatestBlock, found: s.found },
            CallView::LatestBlock,
        ),
        s.found.len() >= 10 ==> scan_transition(s, Ok(answer)) == StepView::Done(Ok(s.found)),
{
}

/// The lookup fetches the pending transactions one by one in the order the
/// events named them, keeping each that reads and skipping each that does
/// not.
pub proof fn lemma_fetches_in_order(s: ScanView, pending: Seq<Seq<char>>, reply: Result<JsonValue, AppError>)
    requires
        s.phase == PhaseView::Transactions(pending),
        pending.len() > 0,
    ensures
        scan_transition(s, reply) == StepView::Call(
            ScanView {
                address: s.address,
                phase: PhaseView::Transactions(pending.subrange(1, pending.len() as int)),
                found: match fetched_transaction(reply) {
                    Ok(t) => s.found.push(t),
                    Err(_) => s.found,
                },
            },
            CallView::Transaction(pending[0]),
        ),
{
    assert(pending.drop_first() =~= pending.subrange(1, pending.len() as int));
}

/// The events answer decides the fetches: the transaction of the first
/// event comes first, the others wait in the order the events name them.
pub proof fn lemma_events_start_fetching(s: ScanView, answer: JsonValue)
    requires
        s.phase == PhaseView::Events,
        event_hashes(answer).len() > 0,
    ensures
        scan_transition(s, Ok(answer)) == StepView::Call(
            ScanView {
                address: s.address,
                phase: PhaseView::Transactions(event_hashes(answer).subrange(1, event_hashes(answer).len() as int)),
                found: s.found,
            },
            CallView::Transaction(event_hashes(answer)[0]),
        ),
{
    assert(event_hashes(answer).drop_first() =~= event_hashes(answer).subrange(1, event_hashes(answer).len() as int));
}

/// A failed call for the events, the latest block or a block ends the
/// lookup with that failure; a failed fetch of a transaction never does.
pub proof fn lemma_failures_end_scan(s: ScanView, e: AppError)
    ensures
        !(s.phase is Transactions) ==> scan_transition(s, Err(e)) == StepView::Done(
            Err::<Seq<TransactionView>, AppErrorView>(e@),
        ),
        s.phase is Transactions ==> !(scan_transition(s, Err(e)) matches StepView::Done(Err(_))),
{
}

/// The scan covers the thousand blocks before the latest one (from the
/// genesis block on a shorter chain) and the latest one, one after the
/// other, adding the transactions of each block that concern the address.
pub proof fn lemma_block_window(s: ScanView, answer: JsonValue, latest: u64, block: JsonValue)
    requires
        block_number_of(answer) == Ok::<u64, AppErrorView>(latest),
    ensures
        s.phase == PhaseView::LatestBlock ==> scan_transition(s, Ok(answer)) == StepView::Call(
            ScanView {
                address: s.address,
                phase: PhaseView::Blocks(
                    if latest >= 1000 { (latest - 1000) as u64 } else { 0 },
                    latest,
                ),
                found: s.found,
            },
            CallView::Block(if latest >= 1000 { (latest - 1000) as u64 } else { 0 }),
        ),
        s.phase matches PhaseView::Blocks(next, last) ==> (next < last ==> scan_transition(s, Ok(block))
            == StepView::Call(
            ScanView {
                address: s.address,
                phase: PhaseView::Blocks((next + 1) as u64, last),
                found: s.found + matching_in(block_transactions(block), s.address),
            },
            CallView::Block((next + 1) as u64),
        )),
        s.phase matches PhaseView::Blocks(next, last) ==> (next >= last ==> scan_transition(s, Ok(block))
            == StepView::Done(Ok(s.found + matching_in(block_transactions(block), s.address)))),
{
}

impl AddressScan {
    /// Starts the lookup of an address: first the events that name it.
    pub fn start(address: String) -> (r: (AddressScan, RpcCall))
        ensures
            r.0@ == (ScanView { address: address@, phase: PhaseView::Events, found: Seq::empty() }),
            r.1@ == CallView::Events(address@),
    {
        let call = RpcCall::GetEvents { address: address.clone() };
        let scan = AddressScan { address, phase: ScanPhase::Events, found: Vec::new() };
        assert(transaction_views(scan.found@) =~= Seq::<TransactionView>::empty());
        (scan, call)
    }

    fn fetch_next(self, pending: Vec<String>) -> (step: ScanStep)
        ensures
            step@ == fetch_next(self.address@, texts(pending@), transaction_views(self.found@)),
    {
        let mut pending = pending;
        if pending.len() > 0 {
            let ghost before = pending@;
            let hash = pending.remove(0);
            assert(texts(pending@) =~= texts(before).drop_first());
            let call = RpcCall::GetTransactionByHash { hash };
            ScanStep::Call(AddressScan { address: self.address, phase: ScanPhase::Transactions { pending }, found: self.found }, call)
        } else if needs_block_scan(self.found.len()) {
            ScanStep::Call(AddressScan { address: self.address, phase: ScanPhase::LatestBlock, found: self.found }, RpcCall::BlockHashAndNumber)
        } else {
            ScanStep::Done(Ok(self.found))
        }
    }

    /// Takes the node's reply to the last call and moves the lookup on.
    /// Beside the step it gives the errors of the transactions it skipped
    /// on this reply: a failed fetch, or block transactions that concern
    /// the address but do not read as transactions.
    pub fn on_reply(self, reply: Result<JsonValue, AppError>) -> (r: (ScanStep, Vec<AppError>))
        ensures
            r.0@ == scan_transition(self@, reply),
            error_views(r.1@) == scan_skipped(self@, reply),
    {
        let AddressScan { address, phase, found } = self;
        let mut skipped: Vec<AppError> = Vec::new();
        assert(error_views(skipped@) =~= Seq::<AppErrorView>::empty());
        match phase {
            ScanPhase::Events => match reply {
                Err(e) => (ScanStep::Done(Err(e)), skipped),
                Ok(answer) => {
                    let hashes = event_transaction_hashes(&answer);
                    (AddressScan { address, phase: ScanPhase::Events, found }.fetch_next(hashes), skipped)
                },
            },
            ScanPhase::Transactions { pending } => {
                let mut found = found;
                let ghost before = found@;
                match transaction_from_reply(reply) {
                    Ok(t) => {
                        found.push(t);
                        assert(transaction_views(found@) =~= transaction_views(before).push(t@));
                    },
                    Err(e) => {
                        skipped.push(e);
                        assert(error_views(skipped@) =~= seq![e@]);
                    },
                }
                (AddressScan { address, phase: ScanPhase::Events, found }.fetch_next(pending), skipped)
            },
            ScanPhase::LatestBlock => match reply {
                Err(e) => (ScanStep::Done(Err(e)), skipped),
                Ok(answer) => match parse_block_number(&answer) {
                    Err(e) => (ScanStep::Done(Err(e)), skipped),
                    Ok(latest) => {
                        let first = scan_start_block(latest);
                        (ScanStep::Call(
                            AddressScan { address, phase: ScanPhase::Blocks { next: first, last: latest }, found },
                            RpcCall::GetBlockWithTxs { block_number: first },
                        ), skipped)
                    },
                },
            },
            ScanPhase::Blocks { next, last } => match reply {
                Err(e) => (ScanStep::Done(Err(e)), skipped),
                Ok(block) => {
                    let mut found = found;
                    let ghost before = found@;
                    let (mut more, failures) = scan_block(&block, address.as_str());
                    found.append(&mut more);
                    assert(transaction_views(found@) =~= transaction_views(before) + matching_in(
                        block_transactions(block),
                        address@,
                    ));
                    if next >= last {
                        (ScanStep::Done(Ok(found)), failures)
                    } else {
                        (ScanStep::Call(
                            AddressScan { address, phase: ScanPhase::Blocks { next: next + 1, last }, found },
                            RpcCall::GetBlockWithTxs { block_number: next + 1 },
                        ), failures)
                    }
                },
            },
        }
    }
}

// ---------------------------------------------------------------------------
// Up to the second degree

/// What the graph lookup waits for: the wallet's own transactions, or those
/// of a related address; `pending` are the addresses still to look up after it.
#[derive(Debug)]
pub enum GraphPhase {
    Wallet,
    Related { pending: Vec<String> },
}

/// The lookup of the transactions a wallet's graph is drawn from: the
/// wallet's own, then, past the first degree, those of every address they
/// connect it to. Each address is looked up by an `AddressScan`.
#[derive(Debug)]
pub struct GraphLookup {
    pub address: String,
    pub depth: usize,
    pub phase: GraphPhase,
    pub all: Vec<Transaction>,
}

/// What the graph lookup does after a finished address lookup.
#[derive(Debug)]
pub enum GraphStep {
    /// Look up the transactions of this address next.
    Lookup(GraphLookup, String),
    Done(Result<Vec<Transaction>, AppError>),
}

/// A graph-lookup phase as a value.
pub enum GraphPhaseView {
    Wallet,
    Related(Seq<Seq<char>>),
}

/// A graph lookup as a value.
pub struct GraphLookupView {
    pub address: Seq<char>,
    pub depth: usize,
    pub phase: GraphPhaseView,
    pub all: Seq<TransactionView>,
}

/// A graph-lookup step as a value.
pub enum GraphStepView {
    Lookup(GraphLookupView, Seq<char>),
    Done(Result<Seq<TransactionView>, AppErrorView>),
}

impl View for GraphLookup {
    type V = GraphLookupView;

    open spec fn view(&self) -> GraphLookupView {
        GraphLookupView {
            address: self.address@,
            depth: self.depth,
            phase: match self.phase {
                GraphPhase::Wallet => GraphPhaseView::Wallet,
                GraphPhase::Related { pending } => GraphPhaseView::Related(texts(pending@)),
            },
            all: transaction_views(self.all@),
        }
    }
}

impl View for GraphStep {
    type V = GraphStepView;

    open spec fn view(&self) -> GraphStepView {
        match self {
            GraphStep::Lookup(g, a) => GraphStepView::Lookup(g@, a@),
            GraphStep::Done(Ok(all)) => GraphStepView::Done(Ok(transaction_views(all@))),
            GraphStep::Done(Err(e)) => GraphStepView::Done(Err(e@)),
        }
    }
}

/// Look up the next pending address, or finish with everything found.
pub open spec fn lookup_next(
    address: Seq<char>,
    depth: usize,
    pending: Seq<Seq<char>>,
    all: Seq<TransactionView>,
) -> GraphStepView {
    if pending.len() > 0 {
        GraphStepView::Lookup(
            GraphLookupView { address, depth, phase: GraphPhaseView::Related(pending.drop_first()), all },
            pending[0],
        )
    } else {
        GraphStepView::Done(Ok(all))
    }
}

/// How the graph lookup answers a finished address lookup: a failure ends
/// it; the wallet's own transactions decide which addresses come next (the
/// related ones when the depth is above one, none otherwise); the
/// transactions of a related address are added after those found before.
pub open spec fn graph_transition(g: GraphLookupView, result: Result<Vec<Transaction>, AppError>) -> GraphStepView {
    match result {
        Err(e) => GraphStepView::Done(Err(e@)),
        Ok(txs) => match g.phase {
            GraphPhaseView::Wallet => {
                let all = transaction_views(txs@);
                let next = if g.depth > 1 { related_addresses(all, g.address) } else { Seq::empty() };
                lookup_next(g.address, g.depth, next, all)
            },
            GraphPhaseView::Related(pending) => lookup_next(
                g.address,
                g.depth,
                pending,
                g.all + transaction_views(txs@),
            ),
        },
    }
}

/// How far a graph lookup is from its end.
pub open spec fn graph_measure(g: GraphLookupView) -> (nat, nat) {
    match g.phase {
        GraphPhaseView::Wallet => (1, 0),
        GraphPhaseView::Related(pending) => (0, pending.len()),
    }
}

/// Every address lookup the graph lookup asks for brings it closer to its
/// end.
pub proof fn lemma_graph_lookup_terminates(g: GraphLookupView, result: Result<Vec<Transaction>, AppError>)
    ensures
        graph_transition(g, result) matches GraphStepView::Lookup(next, _) ==> measure_below(
            graph_measure(next),
            graph_measure(g),
        ),
{
}

/// The same lookup with another depth.
pub open spec fn with_depth(g: GraphLookupView, depth: usize) -> GraphLookupView {
    GraphLookupView { address: g.address, depth, phase: g.phase, all: g.all }
}

/// The same step with another depth.
pub open spec fn step_with_depth(step: GraphStepView, depth: usize) -> GraphStepView {
    match step {
        GraphStepView::Lookup(g, a) => GraphStepView::Lookup(with_depth(g, depth), a),
        GraphStepView::Done(r) => GraphStepView::Done(r),
    }
}

/// What a graph lookup does when the address lookups it asks for give the
/// given results in order: the addresses it asks for, and its answer once
/// it is done (nothing while it still waits).
pub open spec fn graph_run(
    g: GraphLookupView,
    results: Seq<Result<Vec<Transaction>, AppError>>,
) -> (Seq<Seq<char>>, Option<Result<Seq<TransactionView>, AppErrorView>>)
    decreases results.len(),
{
    if results.len() == 0 {
        (Seq::empty(), None)
    } else {
        match graph_transition(g, results[0]) {
            GraphStepView::Lookup(next, a) => {
                let rest = graph_run(next, results.drop_first());
                (seq![a] + rest.0, rest.1)
            },
            GraphStepView::Done(r) => (Seq::empty(), Some(r)),
        }
    }
}

/// A lookup reads its depth only as "above one or not": two depths on the
/// same side of that line take the same step.
pub proof fn lemma_graph_step_depth(g: GraphLookupView, depth: usize, result: Result<Vec<Transaction>, AppError>)
    requires
        (g.depth > 1) == (depth > 1),
    ensures
        graph_transition(with_depth(g, depth), result) == step_with_depth(graph_transition(g, result), depth),
{
}

/// Lookups that differ only in depth, both depths at most one or both
/// above one, ask for the same addresses and give the same answer whatever
/// the address lookups give: a depth of 0 looks up what a depth of 1 does,
/// and any depth above 2 what a depth of 2 does (never a third degree).
pub proof fn lemma_graph_run_depth(g: GraphLookupView, d1: usize, d2: usize, results: Seq<Result<Vec<Transaction>, AppError>>)
    requires
        (d1 > 1) == (d2 > 1),
    ensures
        graph_run(with_depth(g, d1), results) == graph_run(with_depth(g, d2), results),
    decreases results.len(),
{
    if results.len() > 0 {
        lemma_graph_step_depth(with_depth(g, d1), d2, results[0]);
        assert(with_depth(with_depth(g, d1), d2) == with_depth(g, d2));
        match graph_transition(with_depth(g, d1), results[0]) {
            GraphStepView::Lookup(next, a) => {
                lemma_graph_run_depth(next, d1, d2, results.drop_first());
                assert(with_depth(next, d1) == next);
            },
            GraphStepView::Done(_) => {},
        }
    }
}

/// The transactions of a run of address lookups, one lookup after the
/// other (a failed lookup adds none).
pub open spec fn results_views(results: Seq<Result<Vec<Transaction>, AppError>>) -> Seq<TransactionView>
    decreases results.len(),
{
    if results.len() == 0 {
        Seq::empty()
    } else {
        match results[0] {
            Ok(txs) => transaction_views(txs@) + results_views(results.drop_first()),
            Err(_) => results_views(results.drop_first()),
        }
    }
}

/// While it looks up related addresses, the graph lookup asks for every
/// pending address in turn and, when every lookup succeeds, answers with
/// what it had followed by the transactions of each lookup.
pub proof fn lemma_related_run(
    g: GraphLookupView,
    pending: Seq<Seq<char>>,
    results: Seq<Result<Vec<Transaction>, AppError>>,
)
    requires
        g.phase == GraphPhaseView::Related(pending),
        results.len() > pending.len(),
        forall|i: int| 0 <= i < results.len() ==> #[trigger] results[i] is Ok,
    ensures
        graph_run(g, results).0 == pending,
        graph_run(g, results).1 == Some(
            Ok::<Seq<TransactionView>, AppErrorView>(g.all + results_views(results.take(pending.len() as int + 1))),
        ),
    decreases pending.len(),
{
    assert(results[0] is Ok);
    let txs = results[0]->Ok_0;
    assert(results[0] == Ok::<Vec<Transaction>, AppError>(txs));
    let all2 = g.all + transaction_views(txs@);
    let first = results.take(pending.len() as int + 1);
    assert(first[0] == results[0]);
    assert(results_views(first) == transaction_views(txs@) + results_views(first.drop_first()));
    assert(first.drop_first() =~= results.drop_first().take(pending.len() as int));
    if pending.len() == 0 {
        assert(first.drop_first() =~= Seq::<Result<Vec<Transaction>, AppError>>::empty());
        assert(results_views(first.drop_first()) == Seq::<TransactionView>::empty());
        assert(results_views(first) =~= transaction_views(txs@));
    } else {
        let next = GraphLookupView {
            address: g.address,
            depth: g.depth,
            phase: GraphPhaseView::Related(pending.drop_first()),
            all: all2,
        };
        let rest = results.drop_first();
        assert forall|i: int| 0 <= i < rest.len() implies #[trigger] rest[i] is Ok by {
            assert(rest[i] == results[i + 1]);
        }
        lemma_related_run(next, pending.drop_first(), rest);
        assert(rest.take(pending.drop_first().len() as int + 1) =~= first.drop_first());
        assert(seq![pending[0]] + pending.drop_first() =~= pending);
        assert(all2 + results_views(first.drop_first()) =~= g.all + results_views(first));
    }
}

/// The senders and recipients of a list of transactions are two per
/// transaction.
pub proof fn lemma_endpoint_addresses_len(txs: Seq<TransactionView>)
    ensures
        endpoint_addresses(txs).len() == 2 * txs.len(),
    decreases txs.len(),
{
    if txs.len() > 0 {
        lemma_endpoint_addresses_len(txs.drop_last());
    }
}

/// Past the first degree, the graph lookup asks, after the wallet's own
/// lookup, for every address the wallet's transactions connect it to (each
/// sender and recipient other than the wallet itself and "0x0"), each of
/// them once and no other; when every lookup succeeds it answers with the
/// wallet's transactions followed by those of each of these addresses in
/// the order it asked for them.
pub proof fn lemma_graph_asks_every_related(
    g: GraphLookupView,
    txs: Vec<Transaction>,
    rest: Seq<Result<Vec<Transaction>, AppError>>,
)
    requires
        g.phase == GraphPhaseView::Wallet,
        g.depth > 1,
        rest.len() >= 2 * txs@.len(),
        forall|i: int| 0 <= i < rest.len() ==> #[trigger] rest[i] is Ok,
    ensures
        ({
            let run = graph_run(g, seq![Ok::<Vec<Transaction>, AppError>(txs)] + rest);
            &&& run.0.no_duplicates()
            &&& forall|x: Seq<char>| #[trigger] run.0.contains(x) <==> (x != g.address && x != "0x0"@
                && exists|k: int| 0 <= k < txs@.len() && (txs@[k]@.from_address == x || txs@[k]@.to_address == x))
            &&& run.1 == Some(Ok::<Seq<TransactionView>, AppErrorView>(
                transaction_views(txs@) + results_views(rest.take(run.0.len() as int)),
            ))
        }),
{
    let results = seq![Ok::<Vec<Transaction>, AppError>(txs)] + rest;
    let views = transaction_views(txs@);
    let related = related_addresses(views, g.address);
    assert(results[0] == Ok::<Vec<Transaction>, AppError>(txs));
    assert(results.drop_first() =~= rest);
    lemma_related_addresses(views, g.address);
    lemma_endpoint_addresses_len(views);
    lemma_excluding_len(endpoint_addresses(views), g.address);
    lemma_excluding_len(excluding(endpoint_addresses(views), g.address), "0x0"@);
    lemma_distinct_len(excluding(excluding(endpoint_addresses(views), g.address), "0x0"@));
    assert(related.len() <= rest.len());
    if related.len() > 0 {
        let next = GraphLookupView {
            address: g.address,
            depth: g.depth,
            phase: GraphPhaseView::Related(related.drop_first()),
            all: views,
        };
        lemma_related_run(next, related.drop_first(), rest);
        assert(seq![related[0]] + related.drop_first() =~= related);
    } else {
        assert(rest.take(0) =~= Seq::<Result<Vec<Transaction>, AppError>>::empty());
        assert(views + results_views(rest.take(0)) =~= views);
    }
    let run = graph_run(g, results);
    assert(run.0 == related);
    assert forall|x: Seq<char>| #[trigger] run.0.contains(x) <==> (x != g.address && x != "0x0"@
        && exists|k: int| 0 <= k < txs@.len() && (txs@[k]@.from_address == x || txs@[k]@.to_address == x)) by {
        if exists|k: int| 0 <= k < views.len() && (views[k].from_address == x || views[k].to_address == x) {
            let k = choose|k: int| 0 <= k < views.len() && (views[k].from_address == x || views[k].to_address == x);
            assert(views[k] == txs@[k]@);
        }
        if exists|k: int| 0 <= k < txs@.len() && (txs@[k]@.from_address == x || txs@[k]@.to_address == x) {
            let k = choose|k: int| 0 <= k < txs@.len() && (txs@[k]@.from_address == x || txs@[k]@.to_address == x);
            assert(views[k] == txs@[k]@);
        }
    }
}

/// A failed address lookup ends the graph lookup with that failure; at a
/// depth of at most one, the wallet's own transactions are the answer and
/// nothing more is looked up.
pub proof fn lemma_graph_first_degree_and_failures(g: GraphLookupView, txs: Vec<Transaction>, e: AppError)
    ensures
        graph_transition(g, Err(e)) == GraphStepView::Done(Err::<Seq<TransactionView>, AppErrorView>(e@)),
        (g.phase == GraphPhaseView::Wallet && g.depth <= 1) ==> graph_transition(g, Ok(txs)) == GraphStepView::Done(
            Ok::<Seq<TransactionView>, AppErrorView>(transaction_views(txs@)),
        ),
{
}

impl GraphLookup {
    /// Starts the lookup for a wallet: first its own transactions.
    pub fn start(address: String, depth: usize) -> (r: (GraphLookup, String))
        ensures
            r.0@ == (GraphLookupView { address: address@, depth, phase: GraphPhaseView::Wallet, all: Seq::empty() }),
            r.1@ == address@,
    {
        let first = address.clone();
        let lookup = GraphLookup { address, depth, phase: GraphPhase::Wallet, all: Vec::new() };
        assert(transaction_views(lookup.all@) =~= Seq::<TransactionView>::empty());
        (lookup, first)
    }

    fn lookup_next(self, pending: Vec<String>) -> (step: GraphStep)
        ensures
            step@ == lookup_next(self.address@, self.depth, texts(pending@), transaction_views(self.all@)),
    {
        let mut pending = pending;
        if pending.len() > 0 {
            let ghost before = pending@;
            let next = pending.remove(0);
            assert(texts(pending@) =~= texts(before).drop_first());
            GraphStep::Lookup(GraphLookup { address: self.address, depth: self.depth, phase: GraphPhase::Related { pending }, all: self.all }, next)
        } else {
            GraphStep::Done(Ok(self.all))
        }
    }

    /// Takes the result of the last address lookup and moves on.
    pub fn on_result(self, result: Result<Vec<Transaction>, AppError>) -> (step: GraphStep)
        ensures
            step@ == graph_transition(self@, result),
    {
        let GraphLookup { address, depth, phase, all } = self;
        match result {
            Err(e) => GraphStep::Done(Err(e)),
            Ok(txs) => match phase {
                GraphPhase::Wallet => {
                    let pending = second_degree_addresses(&txs, address.as_str(), depth);
                    GraphLookup { address, depth, phase: GraphPhase::Wallet, all: txs }.lookup_next(pending)
                },
                GraphPhase::Related { pending } => {
                    let mut all = all;
                    let mut txs = txs;
                    let ghost before = all@;
                    let ghost added = txs@;
                    all.append(&mut txs);
                    assert(transaction_views(all@) =~= transaction_views(before) + transaction_views(added));
                    GraphLookup { address, depth, phase: GraphPhase::Wallet, all }.lookup_next(pending)
                },
            },
        }
    }
}

} // verus!
