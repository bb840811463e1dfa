//! The decisions of the StarkNet RPC client: which calls to make, how a
//! node's reply is judged, and which transactions of the replies concern an
//! address. The calls themselves are made by the application.

use vstd::prelude::*;

use crate::addresses::{
    distinct_in_order, excluding, lemma_distinct_in_order, lemma_distinct_push, lemma_excluding,
    lemma_excluding_push,
    push_if_absent, texts,
};
use crate::errors::{AppError, AppErrorView};
use crate::json::{elements_of, field, field_elements, field_text, text_of, JsonValue};
use crate::models::{Transaction, TransactionView};
use crate::text::{decimal_digits, u64_to_decimal, hex_quantity, int_parse_error_message, int_parse_error_text, parse_hex_quantity, push_signed_decimal, signed_decimal};
use crate::rpc::transaction_utils::{parse_transaction_from_response, transaction_from_json, transaction_result_view};
use crate::api::transactions::{endpoint_addresses, lemma_endpoint_addresses, transaction_views};

verus! {

/// The endpoint used when none is configured.
pub open spec fn fallback_rpc_endpoint() -> Seq<char> {
    "https://starknet-mainnet.infura.io/v3/your-api-key"@
}

/// The configured node endpoint, or the fallback one.
pub fn rpc_endpoint_or_default(configured: Option<String>) -> (endpoint: String)
    ensures
        endpoint@ == match configured {
            Some(s) => s@,
            None => fallback_rpc_endpoint(),
        },
{
    match configured {
        Some(s) => s,
        None => String::from_str("https://starknet-mainnet.infura.io/v3/your-api-key"),
    }
}

/// A call to a StarkNet node.
#[derive(Debug)]
pub enum RpcCall {
    /// The events that name an address.
    GetEvents { address: String },
    /// A transaction, by its hash.
    GetTransactionByHash { hash: String },
    /// The hash and number of the latest block.
    BlockHashAndNumber,
    /// A block with its transactions, by its number.
    GetBlockWithTxs { block_number: u64 },
}

impl RpcCall {
    /// The JSON-RPC method of the call.
    pub fn method(&self) -> (m: &'static str)
        ensures
            m@ == match self {
                RpcCall::GetEvents { .. } => "starknet_getEvents"@,
                RpcCall::GetTransactionByHash { .. } => "starknet_getTransactionByHash"@,
                RpcCall::BlockHashAndNumber => "starknet_blockHashAndNumber"@,
                RpcCall::GetBlockWithTxs { .. } => "starknet_getBlockWithTxs"@,
            },
    {
        match self {
            RpcCall::GetEvents { .. } => "starknet_getEvents",
            RpcCall::GetTransactionByHash { .. } => "starknet_getTransactionByHash",
            RpcCall::BlockHashAndNumber => "starknet_blockHashAndNumber",
            RpcCall::GetBlockWithTxs { .. } => "starknet_getBlockWithTxs",
        }
    }
}

/// A string value with the given text.
pub open spec fn is_text(v: JsonValue, s: Seq<char>) -> bool {
    v matches JsonValue::Str(t) && t@ == s
}

/// A number value written as the given text.
pub open spec fn is_number(v: JsonValue, s: Seq<char>) -> bool {
    v matches JsonValue::Number(t) && t@ == s
}

/// A block reference by number: `{"block_number": n}`.
pub open spec fn is_block_ref(v: JsonValue, number: Seq<char>) -> bool {
    &&& v matches JsonValue::Object(m)
    &&& m@.len() == 1
    &&& m@[0].0@ == "block_number"@
    &&& is_number(m@[0].1, number)
}

/// The events filter for an address: events of every block from the first
/// (block 0) to the latest, up to 50 of them, with no key constraint.
pub open spec fn is_events_filter(v: JsonValue, address: Seq<char>) -> bool {
    &&& v matches JsonValue::Object(m)
    &&& m@.len() == 5
    &&& m@[0].0@ == "address"@ && is_text(m@[0].1, address)
    &&& m@[1].0@ == "from_block"@ && is_block_ref(m@[1].1, "0"@)
    &&& m@[2].0@ == "to_block"@ && is_text(m@[2].1, "latest"@)
    &&& m@[3].0@ == "page_size"@ && is_number(m@[3].1, "50"@)
    &&& m@[4].0@ == "keys"@ && (m@[4].1 matches JsonValue::Array(k) && k@.len() == 0)
}

/// The parameters of each call, a JSON array.
pub open spec fn are_call_params(call: RpcCall, params: JsonValue) -> bool {
    &&& params matches JsonValue::Array(items)
    &&& match call {
        RpcCall::GetEvents { address } => items@.len() == 1 && is_events_filter(items@[0], address@),
        RpcCall::GetTransactionByHash { hash } => items@.len() == 1 && is_text(items@[0], hash@),
        RpcCall::BlockHashAndNumber => items@.len() == 0,
        RpcCall::GetBlockWithTxs { block_number } => items@.len() == 1 && is_block_ref(
            items@[0],
            decimal_digits(block_number as nat),
        ),
    }
}

fn text_value(s: &str) -> (v: JsonValue)
    ensures
        is_text(v, s@),
{
    JsonValue::Str(String::from_str(s))
}

fn number_value(s: String) -> (v: JsonValue)
    ensures
        is_number(v, s@),
{
    JsonValue::Number(s)
}

fn block_ref(number: u64) -> (v: JsonValue)
    ensures
        is_block_ref(v, decimal_digits(number as nat)),
{
    let mut members: Vec<(String, JsonValue)> = Vec::new();
    members.push((String::from_str("block_number"), number_value(u64_to_decimal(number))));
    JsonValue::Object(members)
}

impl RpcCall {
    /// The JSON-RPC parameters of the call.
    pub fn params(&self) -> (p: JsonValue)
        ensures
            are_call_params(*self, p),
    {
        let mut items: Vec<JsonValue> = Vec::new();
        match self {
            RpcCall::GetEvents { address } => {
                let mut filter: Vec<(String, JsonValue)> = Vec::new();
                filter.push((String::from_str("address"), text_value(address.as_str())));
                filter.push((String::from_str("from_block"), block_ref(0)));
                filter.push((String::from_str("to_block"), text_value("latest")));
                filter.push((String::from_str("page_size"), number_value(u64_to_decimal(50))));
                filter.push((String::from_str("keys"), JsonValue::Array(Vec::new())));
                proof {
                    assert(decimal_digits(0) == seq!['0']);
                    assert(decimal_digits(50) == seq!['5', '0']) by {
                        assert(decimal_digits(5) == seq!['5']);
                    }
                    reveal_strlit("0");
                    reveal_strlit("50");
                    assert("0"@ =~= seq!['0']);
                    assert("50"@ =~= seq!['5', '0']);
                }
                items.push(JsonValue::Object(filter));
            },
            RpcCall::GetTransactionByHash { hash } => {
                items.push(text_value(hash.as_str()));
            },
            RpcCall::BlockHashAndNumber => {},
            RpcCall::GetBlockWithTxs { block_number } => {
                items.push(block_ref(*block_number));
            },
        }
        JsonValue::Array(items)
    }
}

/// The error object of a JSON-RPC reply.
#[derive(Debug)]
pub struct RpcErrorObject {
    pub code: i64,
    pub message: String,
}

/// A JSON-RPC reply: a result, an error, or (wrongly) neither.
#[derive(Debug)]
pub struct RpcReply {
    pub result: Option<JsonValue>,
    pub error: Option<RpcErrorObject>,
}

/// The detail of the error for a reply that carries an error object.
pub open spec fn rpc_error_detail(code: i64, message: Seq<char>) -> Seq<char> {
    "RPC error: "@ + message + " ("@ + signed_decimal(code as int) + ")"@
}

/// Judges a node's reply: an error object makes an RPC error naming its
/// message and code; otherwise the result is the answer, and a reply with
/// no result is an RPC error too.
pub fn interpret_rpc_reply(reply: RpcReply) -> (r: Result<JsonValue, AppError>)
    ensures
        match reply.error {
            Some(err) => r matches Err(e) && e@ == AppErrorView::RpcError(
                rpc_error_detail(err.code, err.message@),
            ),
            None => match reply.result {
                Some(v) => r == Ok::<JsonValue, AppError>(v),
                None => r matches Err(e) && e@ == AppErrorView::RpcError("No result in response"@),
            },
        },
{
    match reply.error {
        Some(err) => {
            let mut detail = String::from_str("RPC error: ");
            detail.append(err.message.as_str());
            detail.append(" (");
            push_signed_decimal(&mut detail, err.code);
            detail.append(")");
            Err(AppError::RpcError(detail))
        },
        None => match reply.result {
            Some(v) => Ok(v),
            None => Err(AppError::RpcError(String::from_str("No result in response"))),
        },
    }
}

/// The latest block number a `starknet_blockHashAndNumber` answer gives:
/// its `block_number` string read as a hexadecimal quantity.
pub open spec fn block_number_of(answer: JsonValue) -> Result<u64, AppErrorView> {
    match text_of(field(answer, "block_number"@)) {
        None => Err(AppErrorView::RpcError("Missing block number"@)),
        Some(s) => match hex_quantity(s) {
            Ok(n) => Ok(n),
            Err(e) => Err(AppErrorView::RpcError("Failed to parse block number: "@ + int_parse_error_message(e))),
        },
    }
}

/// Reads the latest block number out of a `starknet_blockHashAndNumber` answer.
pub fn parse_block_number(answer: &JsonValue) -> (r: Result<u64, AppError>)
    ensures
        match r {
            Ok(n) => block_number_of(*answer) == Ok::<u64, AppErrorView>(n),
            Err(e) => block_number_of(*answer) == Err::<u64, AppErrorView>(e@),
        },
{
    match field_text(answer, "block_number") {
        None => Err(AppError::RpcError(String::from_str("Missing block number"))),
        Some(s) => match parse_hex_quantity(s.as_str()) {
            Ok(n) => Ok(n),
            Err(e) => {
                let mut detail = String::from_str("Failed to parse block number: ");
                detail.append(int_parse_error_text(e));
                Err(AppError::RpcError(detail))
            },
        },
    }
}

/// The transaction hashes that a list of events names, in order; an event
/// without a hash string names none.
pub open spec fn hashes_of(events: Seq<JsonValue>) -> Seq<Seq<char>>
    decreases events.len(),
{
    if events.len() == 0 {
        Seq::empty()
    } else {
        let earlier = hashes_of(events.drop_last());
        match text_of(field(events.last(), "transaction_hash"@)) {
            Some(h) => earlier.push(h),
            None => earlier,
        }
    }
}

/// The transaction hashes named by the events of a `starknet_getEvents` answer.
pub open spec fn event_hashes(answer: JsonValue) -> Seq<Seq<char>> {
    match elements_of(field(answer, "events"@)) {
        Some(events) => hashes_of(events),
        None => Seq::empty(),
    }
}

/// The transactions to fetch for a `starknet_getEvents` answer: the hash of
/// each event, in order.
pub fn event_transaction_hashes(answer: &JsonValue) -> (hashes: Vec<String>)
    ensures
        texts(hashes@) == event_hashes(*answer),
{
    let mut hashes: Vec<String> = Vec::new();
    match field_elements(answer, "events") {
        None => {
            assert(texts(hashes@) =~= Seq::<Seq<char>>::empty());
        },
        Some(events) => {
            let n = events.len();
            let mut k: usize = 0;
            assert(events@.take(0) =~= Seq::<JsonValue>::empty());
            assert(texts(hashes@) =~= Seq::<Seq<char>>::empty());
            while k < n
                invariant
                    n == events@.len(),
                    k <= n,
                    texts(hashes@) == hashes_of(events@.take(k as int)),
                decreases n - k,
            {
                let ghost before = hashes@;
                assert(events@.take(k + 1).drop_last() =~= events@.take(k as int));
                assert(events@.take(k + 1).last() == events@[k as int]);
                match field_text(&events[k], "transaction_hash") {
                    Some(h) => {
                        hashes.push(h.clone());
                        assert(texts(hashes@) =~= texts(before).push(h@));
                    },
                    None => {},
                }
                k = k + 1;
            }
            assert(events@.take(n as int) =~= events@);
        },
    }
    hashes
}

/// What fetching a transaction by its hash gives: the node's error, or the
/// transaction read out of its answer.
pub open spec fn fetched_transaction(reply: Result<JsonValue, AppError>) -> Result<TransactionView, AppErrorView> {
    match reply {
        Ok(v) => transaction_from_json(v),
        Err(e) => Err(e@),
    }
}

/// The transaction a `starknet_getTransactionByHash` reply gives.
pub fn transaction_from_reply(reply: Result<JsonValue, AppError>) -> (r: Result<Transaction, AppError>)
    ensures
        transaction_result_view(r) == fetched_transaction(reply),
{
    match reply {
        Ok(v) => parse_transaction_from_response(&v),
        Err(e) => Err(e),
    }
}

/// How many transactions the events must give for the block scan to be skipped.
pub const MIN_EVENT_TRANSACTIONS: usize = 10;

/// How many blocks before the latest one the scan starts.
pub const SCAN_WINDOW: u64 = 1000;

/// Whether recent blocks are scanned too: when the events gave fewer than
/// ten transactions.
pub fn needs_block_scan(found: usize) -> (b: bool)
    ensures
        b == (found < MIN_EVENT_TRANSACTIONS),
{
    found < MIN_EVENT_TRANSACTIONS
}

/// The first block of the scan: a thousand blocks before the latest one, or
/// the genesis block when the chain is shorter. The scan runs up to and
/// including the latest block.
pub fn scan_start_block(latest: u64) -> (first: u64)
    ensures
        first == if latest > SCAN_WINDOW { (latest - SCAN_WINDOW) as u64 } else { 0 },
{
    if latest > SCAN_WINDOW {
        latest - SCAN_WINDOW
    } else {
        0
    }
}

/// The sender a block transaction names, "" when it names none.
pub open spec fn sender_text(tx: JsonValue) -> Seq<char> {
    match text_of(field(tx, "sender_address"@)) {
        Some(s) => s,
        None => ""@,
    }
}

/// The second call-data word of a block transaction, "" when there is none.
pub open spec fn second_word(tx: JsonValue) -> Seq<char> {
    match elements_of(field(tx, "calldata"@)) {
        Some(items) => if items.len() > 1 {
            match text_of(Some(items[1])) {
                Some(s) => s,
                None => ""@,
            }
        } else {
            ""@
        },
        None => ""@,
    }
}

/// A block transaction concerns an address when it is its sender or its
/// second call-data word.
pub open spec fn involves(tx: JsonValue, address: Seq<char>) -> bool {
    sender_text(tx) == address || second_word(tx) == address
}

/// The transactions of a list that concern an address and read as
/// transactions, in order.
pub open spec fn matching_in(txs: Seq<JsonValue>, address: Seq<char>) -> Seq<TransactionView>
    decreases txs.len(),
{
    if txs.len() == 0 {
        Seq::empty()
    } else {
        let earlier = matching_in(txs.drop_last(), address);
        if involves(txs.last(), address) {
            match transaction_from_json(txs.last()) {
                Ok(t) => earlier.push(t),
                Err(_) => earlier,
            }
        } else {
            earlier
        }
    }
}

/// The transactions a block carries.
pub open spec fn block_transactions(block: JsonValue) -> Seq<JsonValue> {
    match elements_of(field(block, "transactions"@)) {
        Some(txs) => txs,
        None => Seq::empty(),
    }
}

/// The transactions of the blocks that concern an address, block after block.
pub open spec fn matching_in_blocks(blocks: Seq<JsonValue>, address: Seq<char>) -> Seq<TransactionView>
    decreases blocks.len(),
{
    if blocks.len() == 0 {
        Seq::empty()
    } else {
        matching_in_blocks(blocks.drop_last(), address) + matching_in(block_transactions(blocks.last()), address)
    }
}

fn text_or_empty(s: Option<&String>) -> (r: String)
    ensures
        r@ == match s {
            Some(t) => t@,
            None => ""@,
        },
{
    proof {
        reveal_strlit("");
        assert(""@ =~= Seq::<char>::empty());
    }
    match s {
        Some(t) => t.clone(),
        None => String::new(),
    }
}

/// Whether a block transaction concerns an address.
fn involves_exec(tx: &JsonValue, address: &String) -> (b: bool)
    ensures
        b == involves(*tx, address@),
{
    let from = text_or_empty(field_text(tx, "sender_address"));
    let to = match field_elements(tx, "calldata") {
        Some(items) => {
            if items.len() > 1 {
                text_or_empty(items[1].as_str())
            } else {
                String::new()
            }
        },
        None => String::new(),
    };
    proof {
        reveal_strlit("");
        assert(""@ =~= Seq::<char>::empty());
    }
    from == *address || to == *address
}

/// Why the transactions of a list that concern an address but do not read
/// as transactions were skipped, in order.
pub open spec fn failures_in(txs: Seq<JsonValue>, address: Seq<char>) -> Seq<AppErrorView>
    decreases txs.len(),
{
    if txs.len() == 0 {
        Seq::empty()
    } else {
        let earlier = failures_in(txs.drop_last(), address);
        if involves(txs.last(), address) {
            match transaction_from_json(txs.last()) {
                Ok(_) => earlier,
                Err(e) => earlier.push(e),
            }
        } else {
            earlier
        }
    }
}

/// The views of a list of errors.
pub open spec fn error_views(errors: Seq<AppError>) -> Seq<AppErrorView> {
    errors.map_values(|e: AppError| e@)
}

fn push_matching(out: &mut Vec<Transaction>, failures: &mut Vec<AppError>, txs: &Vec<JsonValue>, address: &String)
    ensures
        transaction_views(final(out)@) == transaction_views(old(out)@) + matching_in(txs@, address@),
        error_views(final(failures)@) == error_views(old(failures)@) + failures_in(txs@, address@),
{
    let n = txs.len();
    let mut k: usize = 0;
    let ghost start = transaction_views(out@);
    let ghost start_failures = error_views(failures@);
    assert(txs@.take(0) =~= Seq::<JsonValue>::empty());
    assert(start + matching_in(txs@.take(0), address@) =~= start);
    assert(start_failures + failures_in(txs@.take(0), address@) =~= start_failures);
    while k < n
        invariant
            n == txs@.len(),
            k <= n,
            transaction_views(out@) == start + matching_in(txs@.take(k as int), address@),
            error_views(failures@) == start_failures + failures_in(txs@.take(k as int), address@),
        decreases n - k,
    {
        let ghost before = out@;
        let ghost before_failures = failures@;
        assert(txs@.take(k + 1).drop_last() =~= txs@.take(k as int));
        assert(txs@.take(k + 1).last() == txs@[k as int]);
        if involves_exec(&txs[k], address) {
            match parse_transaction_from_response(&txs[k]) {
                Ok(t) => {
                    out.push(t);
                    assert(transaction_views(out@) =~= transaction_views(before).push(t@));
                },
                Err(e) => {
                    failures.push(e);
                    assert(error_views(failures@) =~= error_views(before_failures).push(e@));
                },
            }
        }
        k = k + 1;
    }
    assert(txs@.take(n as int) =~= txs@);
}

/// The transactions of a block that concern an address, and why those of
/// them that do not read as transactions were skipped.
pub fn scan_block(block: &JsonValue, address: &str) -> (r: (Vec<Transaction>, Vec<AppError>))
    ensures
        transaction_views(r.0@) == matching_in(block_transactions(*block), address@),
        error_views(r.1@) == failures_in(block_transactions(*block), address@),
{
    let address = address.to_owned();
    let mut found: Vec<Transaction> = Vec::new();
    let mut failures: Vec<AppError> = Vec::new();
    assert(transaction_views(found@) =~= Seq::<TransactionView>::empty());
    assert(error_views(failures@) =~= Seq::<AppErrorView>::empty());
    match field_elements(block, "transactions") {
        Some(txs) => {
            push_matching(&mut found, &mut failures, txs, &address);
            assert(transaction_views(found@) =~= matching_in(txs@, address@));
            assert(error_views(failures@) =~= failures_in(txs@, address@));
        },
        None => {},
    }
    (found, failures)
}

/// The transactions of the scanned blocks that concern an address: those
/// it sends or whose second call-data word it is, block after block, each
/// read as a transaction; one that does not read is skipped.
pub fn transactions_in_blocks(blocks: &Vec<JsonValue>, address: &str) -> (found: Vec<Transaction>)
    ensures
        transaction_views(found@) == matching_in_blocks(blocks@, address@),
{
    let address = address.to_owned();
    let mut found: Vec<Transaction> = Vec::new();
    let n = blocks.len();
    let mut k: usize = 0;
    assert(blocks@.take(0) =~= Seq::<JsonValue>::empty());
    assert(transaction_views(found@) =~= Seq::<TransactionView>::empty());
    while k < n
        invariant
            n == blocks@.len(),
            k <= n,
            transaction_views(found@) == matching_in_blocks(blocks@.take(k as int), address@),
        decreases n - k,
    {
        assert(blocks@.take(k + 1).drop_last() =~= blocks@.take(k as int));
        assert(blocks@.take(k + 1).last() == blocks@[k as int]);
        let ghost before = found@;
        let (mut more, _skipped) = scan_block(&blocks[k], address.as_str());
        found.append(&mut more);
        assert(transaction_views(found@) =~= transaction_views(before) + matching_in(block_transactions(blocks@[k as int]), address@));
        k = k + 1;
    }
    assert(blocks@.take(n as int) =~= blocks@);
    found
}

/// The addresses a wallet's transactions connect it to: every sender and
/// recipient other than the wallet itself and "0x0", each once, in order of
/// first appearance.
pub open spec fn related_addresses(txs: Seq<TransactionView>, address: Seq<char>) -> Seq<Seq<char>> {
    distinct_in_order(excluding(excluding(endpoint_addresses(txs), address), "0x0"@))
}

/// The second-degree addresses are each named once, and are exactly the
/// senders and recipients of the wallet's transactions other than the
/// wallet itself and "0x0".
pub proof fn lemma_related_addresses(txs: Seq<TransactionView>, address: Seq<char>)
    ensures
        related_addresses(txs, address).no_duplicates(),
        forall|x: Seq<char>|
            #[trigger] related_addresses(txs, address).contains(x) <==> (x != address && x != "0x0"@
                && exists|k: int| 0 <= k < txs.len() && (txs[k].from_address == x || txs[k].to_address == x)),
{
    let e = endpoint_addresses(txs);
    lemma_endpoint_addresses(txs);
    lemma_excluding(e, address);
    lemma_excluding(excluding(e, address), "0x0"@);
    lemma_distinct_in_order(excluding(excluding(e, address), "0x0"@));
}

fn push_related(out: &mut Vec<String>, candidate: &String, address: &String, zero: &String)
    requires
        zero@ == "0x0"@,
    ensures
        texts(final(out)@) == (if candidate@ == address@ || candidate@ == "0x0"@ {
            texts(old(out)@)
        } else if texts(old(out)@).contains(candidate@) {
            texts(old(out)@)
        } else {
            texts(old(out)@).push(candidate@)
        }),
{
    if *candidate != *address && *candidate != *zero {
        push_if_absent(out, candidate);
    }
}

/// The addresses whose transactions are fetched next: when the graph looks
/// past the first degree, every address the wallet's transactions connect it
/// to; none otherwise.
pub fn second_degree_addresses(transactions: &Vec<Transaction>, address: &str, depth: usize) -> (next: Vec<String>)
    ensures
        texts(next@) == if depth > 1 {
            related_addresses(transaction_views(transactions@), address@)
        } else {
            Seq::empty()
        },
{
    let mut next: Vec<String> = Vec::new();
    if depth <= 1 {
        assert(texts(next@) =~= Seq::<Seq<char>>::empty());
        return next;
    }
    let address = address.to_owned();
    let zero = String::from_str("0x0");
    let ghost txs = transaction_views(transactions@);
    let n = transactions.len();
    let mut k: usize = 0;
    assert(txs.take(0) =~= Seq::<TransactionView>::empty());
    assert(texts(next@) =~= Seq::<Seq<char>>::empty());
    while k < n
        invariant
            n == transactions@.len(),
            txs == transaction_views(transactions@),
            zero@ == "0x0"@,
            k <= n,
            texts(next@) == distinct_in_order(excluding(excluding(endpoint_addresses(txs.take(k as int)), address@), "0x0"@)),
        decreases n - k,
    {
        let tx = &transactions[k];
        let ghost e = endpoint_addresses(txs.take(k as int));
        assert(txs.take(k + 1).drop_last() =~= txs.take(k as int));
        assert(txs.take(k + 1).last() == tx@);
        assert(endpoint_addresses(txs.take(k + 1)) =~= e.push(tx.from_address@).push(tx.to_address@));
        proof {
            lemma_excluding_push(e, address@, tx.from_address@);
            lemma_excluding_push(excluding(e, address@), "0x0"@, tx.from_address@);
            lemma_distinct_push(excluding(excluding(e, address@), "0x0"@), tx.from_address@);
            lemma_excluding_push(e.push(tx.from_address@), address@, tx.to_address@);
            lemma_excluding_push(excluding(e.push(tx.from_address@), address@), "0x0"@, tx.to_address@);
            lemma_distinct_push(excluding(excluding(e.push(tx.from_address@), address@), "0x0"@), tx.to_address@);
        }
        push_related(&mut next, &tx.from_address, &address, &zero);
        push_related(&mut next, &tx.to_address, &address, &zero);
        k = k + 1;
    }
    assert(txs.take(n as int) =~= txs);
    next
}

} // verus!
