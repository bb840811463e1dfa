//! The wallet-transactions endpoint: address validation and the graph built
//! from a wallet's transactions.

use vstd::prelude::*;

use crate::errors::{AppError, AppErrorView};
use crate::models::{
    Edge, EdgeArrow, EdgeArrows, Graph, Node, Transaction, TransactionGraphResponse,
    TransactionView,
};
use crate::addresses::{distinct_in_order, lemma_distinct_in_order, lemma_distinct_push};
use crate::text::{decimal_digits, digit_char, push_decimal};

verus! {

/// The number of the first node, the wallet the graph is drawn for.
pub const NODE_ID_BASE: u64 = 106;

/// The group every node belongs to.
pub const NODE_GROUP: u8 = 1;

/// The arrow scale of every edge, in percent.
pub const ARROW_SCALE_PERCENT: u32 = 50;

/// The counter every graph answer carries.
pub const RESPONSE_COUNTER: u64 = 76;

/// How many degrees of connection the endpoint looks at.
pub const GRAPH_DEPTH: usize = 2;

// ---------------------------------------------------------------------------
// Address validation

/// A StarkNet address as the endpoint accepts it: it starts with "0x" and is
/// 66 bytes long (`str::len`).
pub open spec fn is_starknet_address(s: &str) -> bool {
    &&& s@.len() >= 2
    &&& s@[0] == '0'
    &&& s@[1] == 'x'
    &&& s.len() == 66
}

/// Accepts a wallet address that starts with "0x" and is exactly 66 bytes
/// long (`str::len`); refuses any other, of any other length too, with an invalid-address error that quotes it.
pub fn validate_wallet_address(wallet_address: &str) -> (r: Result<(), AppError>)
    ensures
        r is Ok <==> is_starknet_address(wallet_address),
        r is Ok <==> (wallet_address@.len() >= 2 && wallet_address@[0] == '0' && wallet_address@[1] == 'x'
            && wallet_address.len() == 66),
        wallet_address.len() != 66 ==> r is Err,
        r matches Err(e) ==> e@ == AppErrorView::InvalidAddress(
            "Invalid StarkNet address format: "@ + wallet_address@,
        ),
{
    let starts_with_0x = wallet_address.unicode_len() >= 2 && wallet_address.get_char(0) == '0'
        && wallet_address.get_char(1) == 'x';
    if !starts_with_0x || wallet_address.len() != 66 {
        let mut message = String::from_str("Invalid StarkNet address format: ");
        message.append(wallet_address);
        return Err(AppError::InvalidAddress(message));
    }
    Ok(())
}

// ---------------------------------------------------------------------------
// Edge labels

/// The amount an edge label shows, in hundredths: the transaction's value in
/// ETH (`wei / 10^18`) divided once more by 10^18, rounded to the nearest
/// hundredth.
pub open spec fn label_hundredths(wei: nat) -> nat {
    (wei + 5000000000000000000000000000000000nat) / 10000000000000000000000000000000000nat
}

/// Two decimal digits for a value below one hundred.
pub open spec fn two_digits(n: nat) -> Seq<char> {
    seq![digit_char((n / 10) as int), digit_char((n % 10) as int)]
}

/// The label of an edge: the amount with two decimals, then " ETH".
pub open spec fn eth_label(wei: nat) -> Seq<char> {
    let h = label_hundredths(wei);
    decimal_digits(h / 100) + seq!['.'] + two_digits(h % 100) + " ETH"@
}

/// The label of the edge for a transaction of `value_wei` wei.
pub fn edge_label(value_wei: u64) -> (s: String)
    ensures
        s@ == eth_label(value_wei as nat),
{
    let h128: u128 = ((value_wei as u128) + 5000000000000000000000000000000000u128)
        / 10000000000000000000000000000000000u128;
    assert(h128 < 2);
    let h: u64 = h128 as u64;
    let mut s = String::new();
    push_decimal(&mut s, h / 100);
    proof { reveal_strlit("."); }
    s.append(".");
    let frac = h % 100;
    push_decimal(&mut s, frac / 10);
    push_decimal(&mut s, frac % 10);
    s.append(" ETH");
    proof {
        assert("."@ =~= seq!['.']);
        assert(decimal_digits((frac / 10) as nat) == seq![digit_char((frac / 10) as int)]);
        assert(decimal_digits((frac % 10) as nat) == seq![digit_char((frac % 10) as int)]);
        assert(s@ =~= eth_label(value_wei as nat));
    }
    s
}

/// Every edge label reads "0.00 ETH": a `u64` amount of wei divided by 10^36
/// is far below half a hundredth.
pub proof fn lemma_edge_label_is_zero(wei: u64)
    ensures
        eth_label(wei as nat) == "0.00 ETH"@,
{
    reveal_strlit("0.00 ETH");
    reveal_strlit(" ETH");
    assert(label_hundredths(wei as nat) == 0);
    assert(decimal_digits(0) == seq!['0']);
    assert(eth_label(wei as nat) =~= "0.00 ETH"@);
}

// ---------------------------------------------------------------------------
// Edge identifiers

/// A lower-case hexadecimal digit.
pub open spec fn is_lower_hex(c: char) -> bool {
    ('0' <= c && c <= '9') || ('a' <= c && c <= 'f')
}

/// The text of a random (version 4) UUID: 36 characters, hyphens after the
/// 8th, 12th, 16th and 20th hexadecimal digit, lower-case hexadecimal digits
/// elsewhere, version digit '4' and variant digit one of '8', '9', 'a', 'b'.
pub open spec fn is_random_uuid_text(s: Seq<char>) -> bool {
    &&& s.len() == 36
    &&& forall|i: int|
        0 <= i < 36 ==> if i == 8 || i == 13 || i == 18 || i == 23 {
            #[trigger] s[i] == '-'
        } else {
            is_lower_hex(s[i])
        }
    &&& s[14] == '4'
    &&& (s[19] == '8' || s[19] == '9' || s[19] == 'a' || s[19] == 'b')
}

/// A fresh edge identifier: `uuid::Uuid::new_v4()` rendered by its `Display`.
/// The uuid source masks the version and variant bits of a random number
/// and renders the 16 bytes as lower-case hyphenated hexadecimal; which
/// random number comes out is not stated. It panics only when the operating
/// system refuses random bytes.
#[verifier::external_body]
fn new_edge_id() -> (id: String)
    ensures
        is_random_uuid_text(id@),
{
    uuid::Uuid::new_v4().to_string()
}

// ---------------------------------------------------------------------------
// Nodes

/// The addresses of the transactions' endpoints, sender before recipient,
/// transaction after transaction.
pub open spec fn endpoint_addresses(txs: Seq<TransactionView>) -> Seq<Seq<char>>
    decreases txs.len(),
{
    if txs.len() == 0 {
        Seq::empty()
    } else {
        endpoint_addresses(txs.drop_last()) + seq![txs.last().from_address, txs.last().to_address]
    }
}

/// The wallets of a graph, in the order nodes are numbered: the target
/// wallet, then every endpoint address not seen before.
pub open spec fn graph_addresses(target: Seq<char>, txs: Seq<TransactionView>) -> Seq<Seq<char>> {
    distinct_in_order(seq![target] + endpoint_addresses(txs))
}

/// The addresses of a list of nodes.
pub open spec fn node_labels(nodes: Seq<Node>) -> Seq<Seq<char>> {
    nodes.map_values(|n: Node| n.label@)
}

/// Nodes are numbered from `NODE_ID_BASE` in order, all in one group.
pub open spec fn nodes_numbered(nodes: Seq<Node>) -> bool {
    forall|i: int|
        0 <= i < nodes.len() ==> (#[trigger] nodes[i]).id == NODE_ID_BASE + i && nodes[i].group
            == NODE_GROUP
}

/// The views of a list of transactions.
pub open spec fn transaction_views(txs: Seq<Transaction>) -> Seq<TransactionView> {
    txs.map_values(|t: Transaction| t@)
}

/// Where an address stands in the node list, if it is there.
fn find_node(nodes: &Vec<Node>, address: &String) -> (r: Option<usize>)
    ensures
        match r {
            Some(i) => i < nodes@.len() && nodes@[i as int].label@ == address@,
            None => !node_labels(nodes@).contains(address@),
        },
{
    let n = nodes.len();
    let mut i: usize = 0;
    while i < n
        invariant
            n == nodes@.len(),
            i <= n,
            forall|j: int| 0 <= j < i ==> nodes@[j].label@ != address@,
        decreases n - i,
    {
        if nodes[i].label == *address {
            return Some(i);
        }
        i = i + 1;
    }
    assert forall|k: int| 0 <= k < node_labels(nodes@).len() implies node_labels(nodes@)[k]
        != address@ by {
        assert(node_labels(nodes@)[k] == nodes@[k].label@);
    }
    None
}

/// The number of the node for `address`, adding a node with the next number
/// when the address has none yet.
fn node_for(nodes: &mut Vec<Node>, address: &String) -> (id: u64)
    requires
        nodes_numbered(old(nodes)@),
        NODE_ID_BASE + old(nodes)@.len() < u64::MAX,
    ensures
        nodes_numbered(final(nodes)@),
        node_labels(final(nodes)@) == (if node_labels(old(nodes)@).contains(address@) {
            node_labels(old(nodes)@)
        } else {
            node_labels(old(nodes)@).push(address@)
        }),
        final(nodes)@.len() <= old(nodes)@.len() + 1,
        NODE_ID_BASE <= id < NODE_ID_BASE + final(nodes)@.len(),
        node_labels(final(nodes)@)[id - NODE_ID_BASE] == address@,
{
    match find_node(nodes, address) {
        Some(i) => {
            assert(node_labels(nodes@)[i as int] == address@);
            nodes[i].id
        },
        None => {
            let id = NODE_ID_BASE + nodes.len() as u64;
            let ghost before = nodes@;
            nodes.push(Node { id, label: address.clone(), group: NODE_GROUP });
            assert(node_labels(nodes@) =~= node_labels(before).push(address@));
            id
        },
    }
}

proof fn lemma_endpoint_step(txs: Seq<TransactionView>, k: int)
    requires
        0 <= k < txs.len(),
    ensures
        endpoint_addresses(txs.take(k + 1)) == endpoint_addresses(txs.take(k)) + seq![
            txs[k].from_address,
            txs[k].to_address,
        ],
{
    assert(txs.take(k + 1).drop_last() =~= txs.take(k));
}

/// The edge for a transaction: its endpoints' node numbers, its label, its
/// fee and an enabled arrow head at half scale.
pub open spec fn edge_depicts(e: Edge, tx: TransactionView, labels: Seq<Seq<char>>) -> bool {
    &&& NODE_ID_BASE <= e.from < NODE_ID_BASE + labels.len()
    &&& labels[e.from - NODE_ID_BASE] == tx.from_address
    &&& NODE_ID_BASE <= e.to < NODE_ID_BASE + labels.len()
    &&& labels[e.to - NODE_ID_BASE] == tx.to_address
    &&& e.label@ == eth_label(tx.value_wei as nat)
    &&& e.gas_wei == tx.gas_used_wei
    &&& e.arrows.to.enabled
    &&& e.arrows.to.scale_factor_percent == ARROW_SCALE_PERCENT
}

/// Draws the transactions as a graph, edge `k` taking the identifier
/// `edge_ids[k]`. The target wallet is node 106; every other address gets
/// the next number the first time it appears as a sender or recipient.
/// Each transaction becomes one edge, in order, from its sender's node to
/// its recipient's node, labelled with its amount and carrying its fee.
pub fn build_transaction_graph_with_ids(transactions: Vec<Transaction>, target_address: &str, edge_ids: Vec<String>) -> (graph: Graph)
    requires
        2 * transactions@.len() + NODE_ID_BASE + 2 < u64::MAX,
        edge_ids@.len() == transactions@.len(),
    ensures
        node_labels(graph.nodes@) == graph_addresses(target_address@, transaction_views(transactions@)),
        nodes_numbered(graph.nodes@),
        graph.edges@.len() == transactions@.len(),
        forall|k: int|
            0 <= k < transactions@.len() ==> edge_depicts(
                #[trigger] graph.edges@[k],
                transactions@[k]@,
                node_labels(graph.nodes@),
            ) && graph.edges@[k].id@ == edge_ids@[k]@,
{
    let ghost txs = transaction_views(transactions@);
    let mut nodes: Vec<Node> = Vec::new();
    let mut edges: Vec<Edge> = Vec::new();
    let target = target_address.to_owned();
    node_for(&mut nodes, &target);
    proof {
        assert(seq![target@] =~= Seq::<Seq<char>>::empty().push(target@));
        lemma_distinct_push(Seq::<Seq<char>>::empty(), target@);
        assert(txs.take(0) =~= Seq::<TransactionView>::empty());
        assert(seq![target@] + endpoint_addresses(txs.take(0)) =~= seq![target@]);
        assert(node_labels(nodes@) =~= distinct_in_order(seq![target@]));
    }
    let n = transactions.len();
    let mut k: usize = 0;
    while k < n
        invariant
            n == transactions@.len(),
            txs == transaction_views(transactions@),
            2 * n + NODE_ID_BASE + 2 < u64::MAX,
            k <= n,
            nodes_numbered(nodes@),
            nodes@.len() <= 2 * k + 1,
            node_labels(nodes@) == distinct_in_order(
                seq![target_address@] + endpoint_addresses(txs.take(k as int)),
            ),
            edges@.len() == k,
            forall|j: int|
                0 <= j < k ==> edge_depicts(#[trigger] edges@[j], txs[j], node_labels(nodes@))
                    && edges@[j].id@ == edge_ids@[j]@,
            edge_ids@.len() == n,
        decreases n - k,
    {
        let tx = &transactions[k];
        let ghost labels_before = node_labels(nodes@);
        let ghost prefix = seq![target_address@] + endpoint_addresses(txs.take(k as int));
        let from = node_for(&mut nodes, &tx.from_address);
        proof { lemma_distinct_push(prefix, tx.from_address@); }
        let ghost labels_mid = node_labels(nodes@);
        let to = node_for(&mut nodes, &tx.to_address);
        proof {
            lemma_distinct_push(prefix.push(tx.from_address@), tx.to_address@);
            lemma_endpoint_step(txs, k as int);
            assert(seq![target_address@] + endpoint_addresses(txs.take(k + 1)) =~= prefix.push(
                tx.from_address@,
            ).push(tx.to_address@));
            assert(txs[k as int] == tx@);
            assert(labels_mid[from - NODE_ID_BASE] == node_labels(nodes@)[from - NODE_ID_BASE]);
            assert forall|j: int| 0 <= j < k implies edge_depicts(
                #[trigger] edges@[j],
                txs[j],
                node_labels(nodes@),
            ) by {
                let e = edges@[j];
                assert(labels_before[e.from - NODE_ID_BASE] == node_labels(nodes@)[e.from
                    - NODE_ID_BASE]);
                assert(labels_before[e.to - NODE_ID_BASE] == node_labels(nodes@)[e.to
                    - NODE_ID_BASE]);
            }
        }
        let edge = Edge {
            from,
            to,
            label: edge_label(tx.value_wei),
            gas_wei: tx.gas_used_wei,
            arrows: EdgeArrows { to: EdgeArrow { enabled: true, scale_factor_percent: ARROW_SCALE_PERCENT } },
            id: edge_ids[k].clone(),
        };
        edges.push(edge);
        k = k + 1;
    }
    proof {
        assert(txs.take(n as int) =~= txs);
    }
    Graph { nodes, edges }
}

/// Draws the transactions as a graph (see `build_transaction_graph_with_ids`),
/// giving each edge a fresh random identifier, drawn one per transaction in
/// order.
pub fn build_transaction_graph(transactions: Vec<Transaction>, target_address: &str) -> (graph: Graph)
    requires
        2 * transactions@.len() + NODE_ID_BASE + 2 < u64::MAX,
    ensures
        node_labels(graph.nodes@) == graph_addresses(target_address@, transaction_views(transactions@)),
        nodes_numbered(graph.nodes@),
        graph.edges@.len() == transactions@.len(),
        forall|k: int|
            0 <= k < transactions@.len() ==> edge_depicts(
                #[trigger] graph.edges@[k],
                transactions@[k]@,
                node_labels(graph.nodes@),
            ) && is_random_uuid_text(graph.edges@[k].id@),
{
    let n = transactions.len();
    let mut edge_ids: Vec<String> = Vec::new();
    let mut k: usize = 0;
    while k < n
        invariant
            k <= n,
            edge_ids@.len() == k,
            forall|j: int| 0 <= j < k ==> is_random_uuid_text(#[trigger] edge_ids@[j]@),
        decreases n - k,
    {
        edge_ids.push(new_edge_id());
        k = k + 1;
    }
    let ghost ids = edge_ids@;
    let graph = build_transaction_graph_with_ids(transactions, target_address, edge_ids);
    assert forall|k: int| 0 <= k < n implies is_random_uuid_text(#[trigger] graph.edges@[k].id@) by {
        assert(graph.edges@[k].id@ == ids[k]@);
    }
    graph
}

/// The endpoint addresses are exactly the senders and recipients.
pub proof fn lemma_endpoint_addresses(txs: Seq<TransactionView>)
    ensures
        forall|x: Seq<char>|
            #[trigger] endpoint_addresses(txs).contains(x) <==> exists|k: int|
                0 <= k < txs.len() && (txs[k].from_address == x || txs[k].to_address == x),
    decreases txs.len(),
{
    if txs.len() > 0 {
        let t = txs.drop_last();
        lemma_endpoint_addresses(t);
        let a = endpoint_addresses(t);
        let last = txs.last();
        let e = a + seq![last.from_address, last.to_address];
        assert(endpoint_addresses(txs) == e);
        assert forall|x: Seq<char>| #[trigger] e.contains(x) <==> exists|k: int|
            0 <= k < txs.len() && (txs[k].from_address == x || txs[k].to_address == x) by {
            if e.contains(x) {
                let i = choose|i: int| 0 <= i < e.len() && e[i] == x;
                if i < a.len() {
                    assert(a[i] == x);
                    assert(a.contains(x));
                    let k = choose|k: int| 0 <= k < t.len() && (t[k].from_address == x || t[k].to_address == x);
                    assert(txs[k] == t[k]);
                } else {
                    assert(txs[txs.len() - 1] == last);
                }
            }
            if exists|k: int| 0 <= k < txs.len() && (txs[k].from_address == x || txs[k].to_address == x) {
                let k = choose|k: int| 0 <= k < txs.len() && (txs[k].from_address == x || txs[k].to_address == x);
                if k < txs.len() - 1 {
                    assert(t[k] == txs[k]);
                    assert(a.contains(x));
                    let i = choose|i: int| 0 <= i < a.len() && a[i] == x;
                    assert(e[i] == x);
                } else if txs[k].from_address == x {
                    assert(e[a.len() as int] == x);
                } else {
                    assert(e[a.len() as int + 1] == x);
                }
            }
        }
    }
}

/// The wallets of a transaction graph: the target wallet comes first (it is
/// node 106), no address appears twice, and the wallets are exactly the
/// target and every sender and recipient of a transaction.
pub proof fn lemma_graph_wallets(target: Seq<char>, txs: Seq<TransactionView>)
    ensures
        graph_addresses(target, txs).no_duplicates(),
        graph_addresses(target, txs).len() >= 1,
        graph_addresses(target, txs)[0] == target,
        forall|x: Seq<char>|
            #[trigger] graph_addresses(target, txs).contains(x) <==> (x == target || exists|k: int|
                0 <= k < txs.len() && (txs[k].from_address == x || txs[k].to_address == x)),
{
    let s = seq![target] + endpoint_addresses(txs);
    lemma_distinct_in_order(s);
    lemma_endpoint_addresses(txs);
    assert(s[0] == target);
    assert forall|x: Seq<char>| #[trigger] s.contains(x) <==> (x == target
        || endpoint_addresses(txs).contains(x)) by {
        let a = endpoint_addresses(txs);
        if s.contains(x) {
            let i = choose|i: int| 0 <= i < s.len() && s[i] == x;
            if i > 0 {
                assert(a[i - 1] == x);
            }
        }
        if a.contains(x) {
            let i = choose|i: int| 0 <= i < a.len() && a[i] == x;
            assert(s[i + 1] == x);
        }
    }
}

/// Nodes numbered as a graph numbers them carry the numbers 106, 107, ...
/// in order, all in group 1, and an edge that depicts a transaction has an
/// enabled arrow head at 50% scale.
pub proof fn lemma_graph_numbering(nodes: Seq<Node>, e: Edge, tx: TransactionView, labels: Seq<Seq<char>>)
    ensures
        nodes_numbered(nodes) ==> forall|i: int|
            0 <= i < nodes.len() ==> (#[trigger] nodes[i]).id == 106 + i && nodes[i].group == 1,
        edge_depicts(e, tx, labels) ==> e.arrows.to.enabled && e.arrows.to.scale_factor_percent == 50,
{
}

/// The answer for a wallet: the graph of its transactions and the counter.
pub fn transaction_graph_response(transactions: Vec<Transaction>, wallet_address: &str) -> (r: TransactionGraphResponse)
    requires
        2 * transactions@.len() + NODE_ID_BASE + 2 < u64::MAX,
    ensures
        node_labels(r.graph.nodes@) == graph_addresses(wallet_address@, transaction_views(transactions@)),
        nodes_numbered(r.graph.nodes@),
        r.graph.edges@.len() == transactions@.len(),
        forall|k: int|
            0 <= k < transactions@.len() ==> edge_depicts(
                #[trigger] r.graph.edges@[k],
                transactions@[k]@,
                node_labels(r.graph.nodes@),
            ) && is_random_uuid_text(r.graph.edges@[k].id@),
        r.counter == RESPONSE_COUNTER,
        r.counter == 76,
        r.graph.nodes@.len() > 0 && r.graph.nodes@[0].id == 106 && r.graph.nodes@[0].label@ == wallet_address@,
{
    let graph = build_transaction_graph(transactions, wallet_address);
    proof {
        lemma_graph_wallets(wallet_address@, transaction_views(transactions@));
        assert(node_labels(graph.nodes@)[0] == graph.nodes@[0].label@);
    }
    TransactionGraphResponse { graph, counter: RESPONSE_COUNTER }
}

} // verus!
