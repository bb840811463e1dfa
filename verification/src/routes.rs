//! The related-wallets endpoint: a wallet's first- and second-degree
//! counterparts, read from a transaction-history service.

use vstd::prelude::*;

use crate::addresses::{
    distinct_in_order, excluding, lemma_distinct_in_order, lemma_distinct_push, lemma_excluding,
    lemma_excluding_push,
    lemma_excluding_no_duplicates, push_if_absent, texts,
};

verus! {

/// One entry of a transaction history: who sent to whom.
#[derive(Debug)]
pub struct HistoryEntry {
    pub from_address: String,
    pub to_address: String,
}

/// The senders and recipients of a history, sender before recipient.
pub open spec fn entry_endpoints(entries: Seq<HistoryEntry>) -> Seq<Seq<char>>
    decreases entries.len(),
{
    if entries.len() == 0 {
        Seq::empty()
    } else {
        entry_endpoints(entries.drop_last()) + seq![
            entries.last().from_address@,
            entries.last().to_address@,
        ]
    }
}

/// The senders and recipients of several histories, one after the other.
pub open spec fn histories_endpoints(histories: Seq<Vec<HistoryEntry>>) -> Seq<Seq<char>>
    decreases histories.len(),
{
    if histories.len() == 0 {
        Seq::empty()
    } else {
        histories_endpoints(histories.drop_last()) + entry_endpoints(histories.last()@)
    }
}

/// The address of a wallet's transaction history at a service.
pub open spec fn history_url_text(endpoint: Seq<char>, address: Seq<char>) -> Seq<char> {
    endpoint + "/get_transaction_history?address="@ + address
}

/// Where the transaction history of `address` is read.
pub fn history_url(endpoint: &str, address: &str) -> (url: String)
    ensures
        url@ == history_url_text(endpoint@, address@),
{
    let mut url = String::from_str(endpoint);
    url.append("/get_transaction_history?address=");
    url.append(address);
    url
}

/// The wallet and its first-degree counterparts, each once, in order of
/// first appearance.
pub open spec fn first_degree(address: Seq<char>, entries: Seq<HistoryEntry>) -> Seq<Seq<char>> {
    distinct_in_order(seq![address] + entry_endpoints(entries))
}

/// Whether `x` sends or receives in some entry of a history.
pub open spec fn takes_part(entries: Seq<HistoryEntry>, x: Seq<char>) -> bool {
    exists|k: int| 0 <= k < entries.len() && (entries[k].from_address@ == x || entries[k].to_address@ == x)
}

/// The endpoints of a history are exactly its senders and recipients.
pub proof fn lemma_entry_endpoints(entries: Seq<HistoryEntry>)
    ensures
        forall|x: Seq<char>| #[trigger] entry_endpoints(entries).contains(x) <==> takes_part(entries, x),
    decreases entries.len(),
{
    if entries.len() > 0 {
        let t = entries.drop_last();
        lemma_entry_endpoints(t);
        let e = entry_endpoints(t);
        let last = entries.last();
        let f = e + seq![last.from_address@, last.to_address@];
        assert(entry_endpoints(entries) == f);
        assert forall|x: Seq<char>| #[trigger] f.contains(x) <==> takes_part(entries, x) by {
            if f.contains(x) {
                let i = choose|i: int| 0 <= i < f.len() && f[i] == x;
                if i < e.len() {
                    assert(e[i] == x);
                    assert(e.contains(x));
                    let k = choose|k: int| 0 <= k < t.len() && (t[k].from_address@ == x || t[k].to_address@ == x);
                    assert(entries[k] == t[k]);
                } else {
                    assert(entries[entries.len() - 1] == last);
                }
            }
            if takes_part(entries, x) {
                let k = choose|k: int| 0 <= k < entries.len() && (entries[k].from_address@ == x || entries[k].to_address@ == x);
                if k < t.len() {
                    assert(t[k] == entries[k]);
                    assert(takes_part(t, x));
                    assert(e.contains(x));
                    let i = choose|i: int| 0 <= i < e.len() && e[i] == x;
                    assert(f[i] == x);
                } else if last.from_address@ == x {
                    assert(f[e.len() as int] == x);
                } else {
                    assert(f[e.len() as int + 1] == x);
                }
            }
        }
    }
}

/// The first-degree wallets of a wallet are the wallet itself, first, and
/// every sender and recipient of every entry of its history (the last one
/// included), each once, and no other.
pub proof fn lemma_first_degree(address: Seq<char>, entries: Seq<HistoryEntry>)
    ensures
        first_degree(address, entries).len() > 0,
        first_degree(address, entries)[0] == address,
        first_degree(address, entries).no_duplicates(),
        forall|x: Seq<char>| #[trigger] first_degree(address, entries).contains(x) <==> (x == address
            || takes_part(entries, x)),
{
    let e = entry_endpoints(entries);
    let s = seq![address] + e;
    lemma_distinct_in_order(s);
    lemma_entry_endpoints(entries);
    assert(s[0] == address);
    assert forall|x: Seq<char>| #[trigger] s.contains(x) <==> (x == address || e.contains(x)) by {
        if s.contains(x) {
            let i = choose|i: int| 0 <= i < s.len() && s[i] == x;
            if i > 0 {
                assert(e[i - 1] == x);
            }
        }
        if e.contains(x) {
            let i = choose|i: int| 0 <= i < e.len() && e[i] == x;
            assert(s[i + 1] == x);
        }
    }
}

/// Adds the senders and recipients of a history to `wallets`, each unless
/// it is there already.
fn push_endpoints(wallets: &mut Vec<String>, entries: &Vec<HistoryEntry>, Ghost(base): Ghost<Seq<Seq<char>>>)
    requires
        texts(old(wallets)@) == distinct_in_order(base),
    ensures
        texts(final(wallets)@) == distinct_in_order(base + entry_endpoints(entries@)),
{
    let n = entries.len();
    let mut k: usize = 0;
    assert(entries@.take(0) =~= Seq::<HistoryEntry>::empty());
    assert(base + entry_endpoints(entries@.take(0)) =~= base);
    while k < n
        invariant
            n == entries@.len(),
            k <= n,
            texts(wallets@) == distinct_in_order(base + entry_endpoints(entries@.take(k as int))),
        decreases n - k,
    {
        let entry = &entries[k];
        let ghost s = base + entry_endpoints(entries@.take(k as int));
        assert(entries@.take(k + 1).drop_last() =~= entries@.take(k as int));
        assert(entries@.take(k + 1).last() == *entry);
        assert(base + entry_endpoints(entries@.take(k + 1)) =~= s.push(entry.from_address@).push(
            entry.to_address@,
        ));
        proof {
            lemma_distinct_push(s, entry.from_address@);
            lemma_distinct_push(s.push(entry.from_address@), entry.to_address@);
        }
        push_if_absent(wallets, &entry.from_address);
        push_if_absent(wallets, &entry.to_address);
        k = k + 1;
    }
    assert(entries@.take(n as int) =~= entries@);
}

/// The wallet and everyone its history connects it to: the wallet first,
/// then every sender and recipient not seen before.
pub fn first_degree_wallets(address: &str, entries: &Vec<HistoryEntry>) -> (wallets: Vec<String>)
    ensures
        texts(wallets@) == first_degree(address@, entries@),
        wallets@.len() > 0 && wallets@[0]@ == address@,
        texts(wallets@).no_duplicates(),
        forall|k: int| 0 <= k < entries@.len() ==> texts(wallets@).contains(entries@[k].from_address@)
            && texts(wallets@).contains(entries@[k].to_address@),
        forall|x: Seq<char>| #[trigger] texts(wallets@).contains(x) ==> (x == address@ || takes_part(entries@, x)),
{
    let mut wallets: Vec<String> = Vec::new();
    let owned = address.to_owned();
    push_if_absent(&mut wallets, &owned);
    proof {
        lemma_distinct_push(Seq::<Seq<char>>::empty(), address@);
        assert(Seq::<Seq<char>>::empty().push(address@) =~= seq![address@]);
        assert(texts(Seq::<String>::empty()) =~= Seq::<Seq<char>>::empty());
    }
    let ghost base = seq![address@];
    push_endpoints(&mut wallets, entries, Ghost(base));
    proof {
        lemma_first_degree(address@, entries@);
        assert(texts(wallets@)[0] == wallets@[0]@);
        assert forall|k: int| 0 <= k < entries@.len() implies texts(wallets@).contains(entries@[k].from_address@)
            && texts(wallets@).contains(entries@[k].to_address@) by {
            assert(takes_part(entries@, entries@[k].from_address@));
            assert(takes_part(entries@, entries@[k].to_address@));
        }
    }
    wallets
}

/// The wallets related to `address`: the first-degree wallets together with
/// every sender and recipient of their histories, each once, without the
/// wallet itself.
pub open spec fn related(address: Seq<char>, first: Seq<Seq<char>>, histories: Seq<Vec<HistoryEntry>>) -> Seq<Seq<char>> {
    excluding(distinct_in_order(first + histories_endpoints(histories)), address)
}

/// The wallets related to `address`, given its first-degree wallets and the
/// history of each of them.
pub fn related_wallets(address: &str, first_degree: &Vec<String>, histories: &Vec<Vec<HistoryEntry>>) -> (wallets: Vec<String>)
    ensures
        texts(wallets@) == related(address@, texts(first_degree@), histories@),
{
    let mut all: Vec<String> = Vec::new();
    let ghost first = texts(first_degree@);
    let n = first_degree.len();
    let mut k: usize = 0;
    assert(first.take(0) =~= Seq::<Seq<char>>::empty());
    assert(texts(all@) =~= Seq::<Seq<char>>::empty());
    while k < n
        invariant
            n == first_degree@.len(),
            first == texts(first_degree@),
            k <= n,
            texts(all@) == distinct_in_order(first.take(k as int)),
        decreases n - k,
    {
        assert(first.take(k + 1) =~= first.take(k as int).push(first_degree@[k as int]@));
        proof { lemma_distinct_push(first.take(k as int), first_degree@[k as int]@); }
        push_if_absent(&mut all, &first_degree[k]);
        k = k + 1;
    }
    assert(first.take(n as int) =~= first);
    let m = histories.len();
    let mut h: usize = 0;
    assert(histories@.take(0) =~= Seq::<Vec<HistoryEntry>>::empty());
    assert(first + histories_endpoints(histories@.take(0)) =~= first);
    while h < m
        invariant
            m == histories@.len(),
            h <= m,
            texts(all@) == distinct_in_order(first + histories_endpoints(histories@.take(h as int))),
        decreases m - h,
    {
        assert(histories@.take(h + 1).drop_last() =~= histories@.take(h as int));
        assert(histories@.take(h + 1).last() == histories@[h as int]);
        assert(first + histories_endpoints(histories@.take(h + 1)) =~= (first + histories_endpoints(
            histories@.take(h as int),
        )) + entry_endpoints(histories@[h as int]@));
        let ghost base = first + histories_endpoints(histories@.take(h as int));
        push_endpoints(&mut all, &histories[h], Ghost(base));
        h = h + 1;
    }
    assert(histories@.take(m as int) =~= histories@);
    let ghost collected = texts(all@);
    let owned = address.to_owned();
    let mut wallets: Vec<String> = Vec::new();
    let p = all.len();
    let mut i: usize = 0;
    assert(collected.take(0) =~= Seq::<Seq<char>>::empty());
    assert(texts(wallets@) =~= Seq::<Seq<char>>::empty());
    while i < p
        invariant
            p == all@.len(),
            collected == texts(all@),
            owned@ == address@,
            i <= p,
            texts(wallets@) == excluding(collected.take(i as int), address@),
        decreases p - i,
    {
        assert(collected.take(i + 1) =~= collected.take(i as int).push(all@[i as int]@));
        proof { lemma_excluding_push(collected.take(i as int), address@, all@[i as int]@); }
        if all[i] != owned {
            let ghost before = wallets@;
            wallets.push(all[i].clone());
            assert(texts(wallets@) =~= texts(before).push(all@[i as int]@));
        }
        i = i + 1;
    }
    assert(collected.take(p as int) =~= collected);
    wallets
}

/// Whether `x` sends or receives in some entry of one of the histories.
pub open spec fn takes_part_in_any(histories: Seq<Vec<HistoryEntry>>, x: Seq<char>) -> bool {
    exists|h: int| 0 <= h < histories.len() && takes_part(histories[h]@, x)
}

/// The endpoints of several histories are exactly the senders and
/// recipients of their entries.
pub proof fn lemma_histories_endpoints(histories: Seq<Vec<HistoryEntry>>)
    ensures
        forall|x: Seq<char>| #[trigger] histories_endpoints(histories).contains(x) <==> takes_part_in_any(histories, x),
    decreases histories.len(),
{
    if histories.len() > 0 {
        let t = histories.drop_last();
        lemma_histories_endpoints(t);
        let last = histories.last();
        lemma_entry_endpoints(last@);
        let a = histories_endpoints(t);
        let b = entry_endpoints(last@);
        assert(histories_endpoints(histories) == a + b);
        assert forall|x: Seq<char>| #[trigger] (a + b).contains(x) <==> takes_part_in_any(histories, x) by {
            if (a + b).contains(x) {
                let i = choose|i: int| 0 <= i < (a + b).len() && (a + b)[i] == x;
                if i < a.len() {
                    assert(a[i] == x);
                    assert(a.contains(x));
                    let h = choose|h: int| 0 <= h < t.len() && takes_part(t[h]@, x);
                    assert(histories[h] == t[h]);
                } else {
                    assert(b[i - a.len()] == x);
                    assert(b.contains(x));
                    assert(histories[histories.len() - 1] == last);
                }
            }
            if takes_part_in_any(histories, x) {
                let h = choose|h: int| 0 <= h < histories.len() && takes_part(histories[h]@, x);
                if h < t.len() {
                    assert(t[h] == histories[h]);
                    assert(takes_part_in_any(t, x));
                    assert(a.contains(x));
                    let i = choose|i: int| 0 <= i < a.len() && a[i] == x;
                    assert((a + b)[i] == x);
                } else {
                    assert(histories[h] == last);
                    assert(b.contains(x));
                    let i = choose|i: int| 0 <= i < b.len() && b[i] == x;
                    assert((a + b)[a.len() + i] == x);
                }
            }
        }
    }
}

/// The related wallets never include the wallet itself, name each wallet
/// once, and are exactly the first-degree wallets and the senders and
/// recipients of every entry of their histories, other than the wallet.
pub proof fn lemma_related_wallets(address: Seq<char>, first: Seq<Seq<char>>, histories: Seq<Vec<HistoryEntry>>)
    ensures
        related(address, first, histories).no_duplicates(),
        !related(address, first, histories).contains(address),
        forall|x: Seq<char>|
            #[trigger] related(address, first, histories).contains(x) <==> (x != address && (first.contains(x)
                || histories_endpoints(histories).contains(x))),
        forall|x: Seq<char>|
            #[trigger] related(address, first, histories).contains(x) <==> (x != address && (first.contains(x)
                || takes_part_in_any(histories, x))),
{
    lemma_histories_endpoints(histories);
    let all = first + histories_endpoints(histories);
    lemma_distinct_in_order(all);
    lemma_excluding_no_duplicates(distinct_in_order(all), address);
    lemma_excluding(distinct_in_order(all), address);
    assert forall|x: Seq<char>| all.contains(x) <==> (first.contains(x) || histories_endpoints(histories).contains(x)) by {
        let h = histories_endpoints(histories);
        if all.contains(x) {
            let i = choose|i: int| 0 <= i < all.len() && all[i] == x;
            if i < first.len() {
                assert(first[i] == x);
            } else {
                assert(h[i - first.len()] == x);
            }
        }
        if first.contains(x) {
            let i = choose|i: int| 0 <= i < first.len() && first[i] == x;
            assert(all[i] == x);
        }
        if h.contains(x) {
            let i = choose|i: int| 0 <= i < h.len() && h[i] == x;
            assert(all[i + first.len()] == x);
        }
    }
}

/// A lower-case hexadecimal digit for a value below sixteen.
pub open spec fn lower_hex_digit(d: int) -> char {
    if d < 10 {
        ((d + 48) as u8) as char
    } else {
        ((d + 87) as u8) as char
    }
}

/// How serde_json writes a character inside a string: the quote and the
/// backslash behind a backslash, the short escapes for backspace, tab, line
/// feed, form feed and carriage return, other control characters as
/// `\u00xx` in lower-case hexadecimal, and every other character as it is.
pub open spec fn json_escaped_char(c: char) -> Seq<char> {
    if c == '"' {
        seq!['\\', '"']
    } else if c == '\\' {
        seq!['\\', '\\']
    } else if c == '\x08' {
        seq!['\\', 'b']
    } else if c == '\t' {
        seq!['\\', 't']
    } else if c == '\n' {
        seq!['\\', 'n']
    } else if c == '\x0C' {
        seq!['\\', 'f']
    } else if c == '\r' {
        seq!['\\', 'r']
    } else if (c as int) < 0x20 {
        seq!['\\', 'u', '0', '0', lower_hex_digit((c as int) / 16), lower_hex_digit((c as int) % 16)]
    } else {
        seq![c]
    }
}

/// A string as a JSON string literal: quoted, each character escaped.
pub open spec fn json_string_literal(s: Seq<char>) -> Seq<char> {
    seq!['"'] + s.fold_left(Seq::<char>::empty(), |acc: Seq<char>, c: char| acc + json_escaped_char(c))
        + seq!['"']
}

/// The JSON literals of strings, separated by commas.
pub open spec fn json_literals_joined(items: Seq<Seq<char>>) -> Seq<char>
    decreases items.len(),
{
    if items.len() == 0 {
        Seq::empty()
    } else if items.len() == 1 {
        json_string_literal(items[0])
    } else {
        json_literals_joined(items.drop_last()) + seq![','] + json_string_literal(items.last())
    }
}

/// A list of strings as compact JSON: `[`, the string literals separated by
/// commas, `]`.
pub open spec fn json_string_array(items: Seq<Seq<char>>) -> Seq<char> {
    seq!['['] + json_literals_joined(items) + seq![']']
}

/// `serde_json::to_string` of a list of strings. In serde_json's source a
/// sequence is written as `[`, its elements separated by `,`, `]`; a string
/// as a quoted literal whose characters are escaped by its escape table
/// (`"` and `\` behind a backslash, `\b \t \n \f \r`, other bytes below
/// 0x20 as `\u00xx` with lower-case hexadecimal digits, all else as is).
/// Serialising strings cannot fail, so the error branch (an empty text) is
/// never taken.
#[verifier::external_body]
fn json_array_of_strings(items: &Vec<String>) -> (text: String)
    ensures
        text@ == json_string_array(items.deep_view()),
{
    serde_json::to_string(items).unwrap_or_default()
}

/// The answer of the related-wallets endpoint: the related wallets as a
/// JSON array of strings.
pub fn related_wallets_json(address: &str, first_degree: &Vec<String>, histories: &Vec<Vec<HistoryEntry>>) -> (body: String)
    ensures
        body@ == json_string_array(related(address@, texts(first_degree@), histories@)),
{
    let wallets = related_wallets(address, first_degree, histories);
    assert(wallets.deep_view() =~= texts(wallets@));
    json_array_of_strings(&wallets)
}

} // verus!
