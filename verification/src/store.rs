//! The bounded entry store: entries in arrival order, oldest evicted first.

use crate::entry::{entries_of, entry_of, texts, Entry, LogLine};
use vstd::prelude::*;

verus! {

/// The last `n` elements of `s`, or all of `s` when it has no more than `n`.
pub open spec fn keep_last<T>(s: Seq<T>, n: nat) -> Seq<T> {
    if s.len() <= n {
        s
    } else {
        s.subrange(s.len() - n, s.len() as int)
    }
}

/// The views of a sequence of buffered lines.
pub open spec fn views(lines: Seq<LogLine>) -> Seq<Entry> {
    lines.map_values(|l: LogLine| l@)
}

/// Trimming before more elements arrive changes nothing, as long as the
/// result is trimmed again to the same bound.
pub proof fn lemma_keep_last_append<T>(s: Seq<T>, t: Seq<T>, n: nat)
    ensures
        keep_last(keep_last(s, n) + t, n) =~= keep_last(s + t, n),
        keep_last(s, n).len() <= n,
        keep_last(s, n).len() == if s.len() <= n { s.len() } else { n },
{
}

/// What is held after the elements of `arriving` were appended one by one to
/// `held`, each append followed by trimming to `capacity`.
pub open spec fn after_appends<T>(held: Seq<T>, arriving: Seq<T>, capacity: nat) -> Seq<T>
    decreases arriving.len(),
{
    if arriving.len() == 0 {
        held
    } else {
        after_appends(
            keep_last(held.push(arriving[0]), capacity),
            arriving.drop_first(),
            capacity,
        )
    }
}

/// Whatever is appended, and however much of it: what is held never exceeds
/// the capacity, and it is the most recent part of all that was held at the
/// start and appended since, in order of arrival.
pub proof fn lemma_appends_keep_most_recent<T>(held: Seq<T>, arriving: Seq<T>, capacity: nat)
    requires
        held.len() <= capacity,
    ensures
        after_appends(held, arriving, capacity).len() <= capacity,
        after_appends(held, arriving, capacity) == keep_last(held + arriving, capacity),
    decreases arriving.len(),
{
    if arriving.len() == 0 {
        assert(held + arriving =~= held);
    } else {
        let next = keep_last(held.push(arriving[0]), capacity);
        let rest = arriving.drop_first();
        lemma_appends_keep_most_recent(next, rest, capacity);
        lemma_keep_last_append(held.push(arriving[0]), rest, capacity);
        assert(held.push(arriving[0]) + rest =~= held + arriving);
    }
}

/// Entries in arrival order, never more than the capacity.
pub struct EntryStore {
    lines: Vec<LogLine>,
    max_entries: usize,
}

impl EntryStore {
    /// The entries held, oldest first.
    pub closed spec fn entries(&self) -> Seq<Entry> {
        views(self.lines@)
    }

    /// The capacity the store was made with.
    pub closed spec fn capacity(&self) -> nat {
        self.max_entries as nat
    }

    /// The store holds no more entries than its capacity.
    pub open spec fn wf(&self) -> bool {
        self.entries().len() <= self.capacity()
    }

    /// An empty store that will hold at most `max_entries` entries.
    pub fn new(max_entries: usize) -> (store: EntryStore)
        ensures
            store.wf(),
            store.entries() == Seq::<Entry>::empty(),
            store.capacity() == max_entries,
    {
        let store = EntryStore { lines: Vec::new(), max_entries };
        assert(store.entries() =~= Seq::<Entry>::empty());
        store
    }

    /// Number of entries held.
    pub fn len(&self) -> (n: usize)
        ensures
            n == self.entries().len(),
    {
        self.lines.len()
    }

    /// The capacity.
    pub fn max_entries(&self) -> (n: usize)
        ensures
            n == self.capacity(),
    {
        self.max_entries
    }

    /// The entry at `index`, counted from the oldest.
    pub fn at(&self, index: usize) -> (line: &LogLine)
        requires
            index < self.entries().len(),
        ensures
            line@ == self.entries()[index as int],
    {
        &self.lines[index]
    }

    /// Adds an entry at the tail, then evicts from the head while the store
    /// holds more than its capacity.
    pub fn append(&mut self, entry: LogLine)
        ensures
            final(self).entries() == keep_last(
                old(self).entries().push(entry@),
                old(self).capacity(),
            ),
            final(self).capacity() == old(self).capacity(),
            final(self).wf(),
    {
        self.lines.push(entry);
        let ghost all = self.entries();
        let ghost mut evicted: int = 0;
        assert(all =~= old(self).entries().push(entry@));
        assert(all.subrange(0, all.len() as int) =~= all);
        while self.lines.len() > self.max_entries
            invariant
                self.max_entries == old(self).max_entries,
                0 <= evicted <= all.len(),
                self.entries() == all.subrange(evicted, all.len() as int),
                self.lines.len() == all.len() - evicted,
                evicted > 0 ==> self.lines.len() >= self.max_entries,
            decreases self.lines.len(),
        {
            let ghost held = self.lines@;
            assert(views(held).len() == held.len());
            self.lines.remove(0);
            proof {
                let rest = all.subrange(evicted + 1, all.len() as int);
                assert(self.lines@ == held.remove(0));
                assert(self.entries().len() == rest.len());
                assert forall|i: int| 0 <= i < rest.len() implies self.entries()[i] == rest[i] by {
                    assert(self.lines@[i] == held[i + 1]);
                    assert(views(held)[i + 1] == held[i + 1]@);
                }
                assert(self.entries() =~= rest);
                evicted = evicted + 1;
            }
        }
    }

    /// Parses a raw line and appends its entry.
    pub fn append_line(&mut self, line: &str)
        ensures
            final(self).entries() == keep_last(
                old(self).entries().push(entry_of(line@)),
                old(self).capacity(),
            ),
            final(self).capacity() == old(self).capacity(),
            final(self).wf(),
    {
        self.append(LogLine::parse(line));
    }

    /// The initial read: parses and appends the last `n` of the raw lines,
    /// in order.
    pub fn initialize(&mut self, lines: &Vec<String>, n: usize)
        requires
            old(self).wf(),
        ensures
            final(self).entries() == keep_last(
                old(self).entries() + entries_of(keep_last(texts(lines@), n as nat)),
                old(self).capacity(),
            ),
            final(self).capacity() == old(self).capacity(),
            final(self).wf(),
    {
        let start = if lines.len() > n {
            lines.len() - n
        } else {
            0
        };
        assert(texts(lines@).subrange(start as int, lines.len() as int) =~= keep_last(
            texts(lines@),
            n as nat,
        ));
        self.append_from(lines, start);
    }

    /// Parses and appends the raw lines from position `start` on, in order.
    pub fn append_from(&mut self, lines: &Vec<String>, start: usize)
        requires
            old(self).wf(),
            start <= lines.len(),
        ensures
            final(self).entries() == keep_last(
                old(self).entries() + entries_of(
                    texts(lines@).subrange(start as int, lines.len() as int),
                ),
                old(self).capacity(),
            ),
            final(self).capacity() == old(self).capacity(),
            final(self).wf(),
    {
        let ghost before = self.entries();
        let ghost cap = self.capacity();
        let ghost raw = texts(lines@);
        let mut i: usize = start;
        proof {
            assert(before + entries_of(raw.subrange(start as int, start as int)) =~= before);
        }
        while i < lines.len()
            invariant
                start <= i <= lines.len(),
                raw == texts(lines@),
                self.capacity() == cap,
                self.entries() == keep_last(
                    before + entries_of(raw.subrange(start as int, i as int)),
                    cap,
                ),
            decreases lines.len() - i,
        {
            let ghost held = before + entries_of(raw.subrange(start as int, i as int));
            self.append_line(lines[i].as_str());
            proof {
                let e = entry_of(raw[i as int]);
                assert(lines[i as int]@ == raw[i as int]);
                assert(held.push(e) =~= before + entries_of(
                    raw.subrange(start as int, i as int + 1),
                ));
                lemma_keep_last_append(held, seq![e], cap);
                assert(held + seq![e] =~= held.push(e));
                assert(keep_last(held, cap) + seq![e] =~= keep_last(held, cap).push(e));
            }
            i += 1;
        }
    }
}

} // verus!
