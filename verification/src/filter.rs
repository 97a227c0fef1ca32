//! The filter index: the positions of the entries that match the filter text.

use crate::entry::Entry;
use crate::store::EntryStore;
use crate::text::{contains, is_substring, lowercase};
use vstd::prelude::*;

verus! {

/// A content matches a filter text when the filter is empty, or when the
/// lower-case form of the filter occurs in the lower-case form of the
/// content.
pub open spec fn matches(content: Seq<char>, filter: Seq<char>) -> bool {
    filter.len() == 0 || is_substring(lowercase(filter), lowercase(content))
}

/// The positions `0, 1, .., n - 1`.
pub open spec fn positions(n: nat) -> Seq<int> {
    Seq::new(n, |i: int| i)
}

/// The test that position `i` of `entries` holds a matching entry.
pub open spec fn match_at(entries: Seq<Entry>, filter: Seq<char>) -> spec_fn(int) -> bool {
    |i: int| matches(entries[i].content, filter)
}

/// The filter index: the positions of the matching entries, in store order.
pub open spec fn filter_index(entries: Seq<Entry>, filter: Seq<char>) -> Seq<int> {
    positions(entries.len()).filter(match_at(entries, filter))
}

/// The positions that a vector of indices holds.
pub open spec fn as_positions(index: Seq<usize>) -> Seq<int> {
    index.map_values(|p: usize| p as int)
}

/// Filtering a sequence with one more element keeps that element exactly
/// when it passes the test.
pub proof fn lemma_filter_push<T>(s: Seq<T>, x: T, pred: spec_fn(T) -> bool)
    ensures
        s.push(x).filter(pred) == if pred(x) {
            s.filter(pred).push(x)
        } else {
            s.filter(pred)
        },
{
    reveal(Seq::filter);
    assert(s.push(x).drop_last() =~= s);
}

/// The matching positions among the first `n` are all below `n`, count at
/// most `n`, and the last of them comes before any later position.
proof fn lemma_prefix_bounds(n: nat, pred: spec_fn(int) -> bool)
    ensures
        positions(n).filter(pred).len() <= n,
        forall|k: int|
            0 <= k < positions(n).filter(pred).len() ==> 0 <= #[trigger] positions(n).filter(
                pred,
            )[k] < n,
        forall|j: int, k: int|
            0 <= j < k < positions(n).filter(pred).len() ==> positions(n).filter(pred)[j]
                < positions(n).filter(pred)[k],
        forall|k: int|
            0 <= k < positions(n).filter(pred).len() ==> pred(
                #[trigger] positions(n).filter(pred)[k],
            ),
        forall|i: int| 0 <= i < n && pred(i) ==> positions(n).filter(pred).contains(i),
    decreases n,
{
    if n == 0 {
        reveal(Seq::filter);
    } else {
        let m = (n - 1) as nat;
        lemma_prefix_bounds(m, pred);
        assert(positions(n) =~= positions(m).push(m as int));
        lemma_filter_push(positions(m), m as int, pred);
        let before = positions(m).filter(pred);
        let now = positions(n).filter(pred);
        assert forall|i: int| 0 <= i < n && pred(i) implies now.contains(i) by {
            if i < m {
                assert(before.contains(i));
                let k = choose|k: int| 0 <= k < before.len() && before[k] == i;
                assert(now[k] == i);
            } else {
                assert(now[now.len() - 1] == i);
            }
        }
    }
}

/// The filter index holds exactly the positions of the matching entries,
/// each once, in increasing order: every position in it is a position of the
/// store whose entry matches, and every position of the store whose entry
/// matches is in it.
pub proof fn lemma_filter_index_exact(entries: Seq<Entry>, filter: Seq<char>)
    ensures
        filter_index(entries, filter).len() <= entries.len(),
        forall|k: int|
            0 <= k < filter_index(entries, filter).len() ==> {
                let p = #[trigger] filter_index(entries, filter)[k];
                0 <= p < entries.len() && matches(entries[p].content, filter)
            },
        forall|i: int|
            0 <= i < entries.len() && matches(entries[i].content, filter) ==> filter_index(
                entries,
                filter,
            ).contains(i),
        forall|j: int, k: int|
            0 <= j < k < filter_index(entries, filter).len() ==> filter_index(entries, filter)[j]
                < filter_index(entries, filter)[k],
{
    lemma_prefix_bounds(entries.len(), match_at(entries, filter));
}

/// With an empty filter text the index is the identity: every position of
/// the store, in order.
pub proof fn lemma_empty_filter_is_identity(entries: Seq<Entry>, filter: Seq<char>)
    requires
        filter.len() == 0,
    ensures
        filter_index(entries, filter) == positions(entries.len()),
{
    lemma_all_pass(entries.len(), match_at(entries, filter));
}

/// Where every position passes the test, filtering keeps all of them.
proof fn lemma_all_pass(n: nat, pred: spec_fn(int) -> bool)
    requires
        forall|i: int| 0 <= i < n ==> #[trigger] pred(i),
    ensures
        positions(n).filter(pred) == positions(n),
    decreases n,
{
    if n == 0 {
        reveal(Seq::filter);
    } else {
        let m = (n - 1) as nat;
        lemma_all_pass(m, pred);
        assert(positions(n) =~= positions(m).push(m as int));
        lemma_filter_push(positions(m), m as int, pred);
    }
}

/// Whether a content matches a filter text, case-insensitively.
pub fn line_matches(content: &str, filter: &str) -> (m: bool)
    ensures
        m == matches(content@, filter@),
{
    if filter.is_empty() {
        true
    } else {
        let needle = filter.to_lowercase();
        lowered_matches(content, needle.as_str())
    }
}

/// Whether the lower-case text `needle` occurs in the lower-case form of
/// `content`.
pub fn lowered_matches(content: &str, needle: &str) -> (m: bool)
    ensures
        m == is_substring(needle@, lowercase(content@)),
{
    let hay = content.to_lowercase();
    contains(hay.as_str(), needle)
}

/// Rebuilds the filter index of a store for a filter text, in one pass over
/// the store.
pub fn recompute(store: &EntryStore, filter_text: &str) -> (index: Vec<usize>)
    ensures
        as_positions(index@) == filter_index(store.entries(), filter_text@),
{
    let n = store.len();
    let all = filter_text.is_empty();
    let needle = filter_text.to_lowercase();
    let mut index: Vec<usize> = Vec::new();
    let ghost entries = store.entries();
    let ghost pred = match_at(entries, filter_text@);
    proof {
        reveal(Seq::filter);
        assert(as_positions(index@) =~= positions(0).filter(pred));
    }
    let mut i: usize = 0;
    while i < n
        invariant
            i <= n,
            n == entries.len(),
            entries == store.entries(),
            pred == match_at(entries, filter_text@),
            all == (filter_text@.len() == 0),
            needle@ == lowercase(filter_text@),
            as_positions(index@) == positions(i as nat).filter(pred),
        decreases n - i,
    {
        let keep = all || lowered_matches(store.at(i).content(), needle.as_str());
        proof {
            assert(keep == pred(i as int));
            assert(positions((i + 1) as nat) =~= positions(i as nat).push(i as int));
            lemma_filter_push(positions(i as nat), i as int, pred);
        }
        if keep {
            let ghost before = index@;
            index.push(i);
            assert(as_positions(index@) =~= as_positions(before).push(i as int));
        }
        i += 1;
    }
    index
}

} // verus!
