//! Address lists in order of first appearance, without repetition: the
//! form in which the service keeps the sets of wallets it collects.

use vstd::prelude::*;

verus! {

/// The elements of a sequence in order of first appearance, each once.
pub open spec fn distinct_in_order(s: Seq<Seq<char>>) -> Seq<Seq<char>>
    decreases s.len(),
{
    if s.len() == 0 {
        Seq::empty()
    } else {
        let d = distinct_in_order(s.drop_last());
        if d.contains(s.last()) {
            d
        } else {
            d.push(s.last())
        }
    }
}

/// Adding an element at the end adds it to the distinct elements unless it
/// is there already.
pub proof fn lemma_distinct_push(s: Seq<Seq<char>>, x: Seq<char>)
    ensures
        distinct_in_order(s.push(x)) == (if distinct_in_order(s).contains(x) {
            distinct_in_order(s)
        } else {
            distinct_in_order(s).push(x)
        }),
{
    assert(s.push(x).drop_last() =~= s);
}

/// Listing a sequence's elements in order of first appearance keeps each
/// element once, keeps exactly the elements of the sequence, and starts
/// with its first element.
pub proof fn lemma_distinct_in_order(s: Seq<Seq<char>>)
    ensures
        distinct_in_order(s).no_duplicates(),
        forall|x: Seq<char>| #[trigger] distinct_in_order(s).contains(x) <==> s.contains(x),
        s.len() > 0 ==> distinct_in_order(s).len() > 0 && distinct_in_order(s)[0] == s[0],
    decreases s.len(),
{
    if s.len() > 0 {
        let t = s.drop_last();
        lemma_distinct_in_order(t);
        let d = distinct_in_order(t);
        assert forall|x: Seq<char>| s.contains(x) <==> (t.contains(x) || x == s.last()) by {
            if s.contains(x) {
                let i = choose|i: int| 0 <= i < s.len() && s[i] == x;
                if i < s.len() - 1 {
                    assert(t[i] == x);
                }
            }
            if t.contains(x) {
                let i = choose|i: int| 0 <= i < t.len() && t[i] == x;
                assert(s[i] == x);
            }
            if x == s.last() {
                assert(s[s.len() - 1] == x);
            }
        }
        if !d.contains(s.last()) {
            let e = d.push(s.last());
            assert forall|x: Seq<char>| e.contains(x) <==> (d.contains(x) || x == s.last()) by {
                if e.contains(x) {
                    let i = choose|i: int| 0 <= i < e.len() && e[i] == x;
                    if i < d.len() {
                        assert(d[i] == x);
                    }
                }
                if d.contains(x) {
                    let i = choose|i: int| 0 <= i < d.len() && d[i] == x;
                    assert(e[i] == x);
                }
                if x == s.last() {
                    assert(e[e.len() - 1] == x);
                }
            }
            if t.len() == 0 {
                assert(d.len() == 0);
            } else {
                assert(t[0] == s[0]);
            }
        } else {
            if t.len() == 0 {
                assert(!d.contains(s.last()));
            } else {
                assert(t[0] == s[0]);
            }
        }
    }
}

/// Listing the distinct elements of a sequence never lengthens it.
pub proof fn lemma_distinct_len(s: Seq<Seq<char>>)
    ensures
        distinct_in_order(s).len() <= s.len(),
    decreases s.len(),
{
    if s.len() > 0 {
        lemma_distinct_len(s.drop_last());
    }
}

/// Removing an element never lengthens a sequence.
pub proof fn lemma_excluding_len(s: Seq<Seq<char>>, x: Seq<char>)
    ensures
        excluding(s, x).len() <= s.len(),
    decreases s.len(),
{
    if s.len() > 0 {
        lemma_excluding_len(s.drop_last(), x);
    }
}

/// The texts of a list of strings.
pub open spec fn texts(v: Seq<String>) -> Seq<Seq<char>> {
    v.map_values(|s: String| s@)
}

/// The elements of a sequence other than `x`, in order.
pub open spec fn excluding(s: Seq<Seq<char>>, x: Seq<char>) -> Seq<Seq<char>>
    decreases s.len(),
{
    if s.len() == 0 {
        Seq::empty()
    } else if s.last() == x {
        excluding(s.drop_last(), x)
    } else {
        excluding(s.drop_last(), x).push(s.last())
    }
}

/// Removing `x` keeps every other element and drops every copy of `x`.
pub proof fn lemma_excluding(s: Seq<Seq<char>>, x: Seq<char>)
    ensures
        forall|y: Seq<char>| #[trigger] excluding(s, x).contains(y) <==> (s.contains(y) && y != x),
    decreases s.len(),
{
    if s.len() > 0 {
        let t = s.drop_last();
        lemma_excluding(t, x);
        let e = excluding(t, x);
        assert forall|y: Seq<char>| #[trigger] excluding(s, x).contains(y) <==> (s.contains(y) && y != x) by {
            assert(s.contains(y) <==> (t.contains(y) || y == s.last())) by {
                if s.contains(y) {
                    let i = choose|i: int| 0 <= i < s.len() && s[i] == y;
                    if i < s.len() - 1 {
                        assert(t[i] == y);
                    }
                }
                if t.contains(y) {
                    let i = choose|i: int| 0 <= i < t.len() && t[i] == y;
                    assert(s[i] == y);
                }
                if y == s.last() {
                    assert(s[s.len() - 1] == y);
                }
            }
            if s.last() != x {
                let f = e.push(s.last());
                if f.contains(y) {
                    let i = choose|i: int| 0 <= i < f.len() && f[i] == y;
                    if i < e.len() {
                        assert(e[i] == y);
                    }
                }
                if e.contains(y) {
                    let i = choose|i: int| 0 <= i < e.len() && e[i] == y;
                    assert(f[i] == y);
                }
                if y == s.last() {
                    assert(f[f.len() - 1] == y);
                }
            }
        }
    }
}

/// Adding an element at the end keeps it unless it is the one removed.
pub proof fn lemma_excluding_push(s: Seq<Seq<char>>, x: Seq<char>, y: Seq<char>)
    ensures
        excluding(s.push(y), x) == (if y == x {
            excluding(s, x)
        } else {
            excluding(s, x).push(y)
        }),
{
    assert(s.push(y).drop_last() =~= s);
}

/// Removing an element from a sequence without repetitions leaves one
/// without repetitions.
pub proof fn lemma_excluding_no_duplicates(s: Seq<Seq<char>>, x: Seq<char>)
    requires
        s.no_duplicates(),
    ensures
        excluding(s, x).no_duplicates(),
    decreases s.len(),
{
    if s.len() > 0 {
        let t = s.drop_last();
        assert(t.no_duplicates()) by {
            assert forall|i: int, j: int| 0 <= i < t.len() && 0 <= j < t.len() && i != j implies t[i] != t[j] by {
                assert(s[i] == t[i] && s[j] == t[j]);
            }
        }
        lemma_excluding_no_duplicates(t, x);
        lemma_excluding(t, x);
        if s.last() != x {
            let e = excluding(t, x);
            assert(!t.contains(s.last())) by {
                if t.contains(s.last()) {
                    let i = choose|i: int| 0 <= i < t.len() && t[i] == s.last();
                    assert(s[i] == s[s.len() - 1]);
                }
            }
            assert(!e.contains(s.last()));
            let f = e.push(s.last());
            assert forall|i: int, j: int| 0 <= i < f.len() && 0 <= j < f.len() && i != j implies f[i] != f[j] by {
                if i < e.len() && j < e.len() {
                    assert(f[i] == e[i] && f[j] == e[j]);
                } else if i < e.len() {
                    assert(f[i] == e[i]);
                } else if j < e.len() {
                    assert(f[j] == e[j]);
                }
            }
        }
    }
}

/// Adds `address` at the end of `list` unless it is there already.
pub fn push_if_absent(list: &mut Vec<String>, address: &String)
    ensures
        texts(final(list)@) == (if texts(old(list)@).contains(address@) {
            texts(old(list)@)
        } else {
            texts(old(list)@).push(address@)
        }),
{
    let n = list.len();
    let mut i: usize = 0;
    while i < n
        invariant
            n == list@.len(),
            i <= n,
            forall|j: int| 0 <= j < i ==> list@[j]@ != address@,
        decreases n - i,
    {
        if list[i] == *address {
            assert(texts(list@)[i as int] == address@);
            return;
        }
        i = i + 1;
    }
    assert forall|k: int| 0 <= k < texts(list@).len() implies texts(list@)[k] != address@ by {
        assert(texts(list@)[k] == list@[k]@);
    }
    let ghost before = list@;
    list.push(address.clone());
    assert(texts(list@) =~= texts(before).push(address@));
}

} // verus!
