//! Statistics over the buffered entries: counts by level and by hour.

use crate::entry::{hour_label, Entry};
use crate::filter::lemma_filter_push;
use crate::level::LogLevel;
use crate::store::EntryStore;
use vstd::prelude::*;
use vstd::string::StrSliceExecFns;
use vstd::string::StringExecFns;

verus! {

/// What the statistics say: the number of entries, the number at each
/// level, and for each hour label that occurs the number of entries with it.
pub struct Statistics {
    pub total: nat,
    pub errors: nat,
    pub warnings: nat,
    pub infos: nat,
    pub debugs: nat,
    pub unknowns: nat,
    pub by_hour: Map<Seq<char>, nat>,
}

/// The test that an entry has a given level.
pub open spec fn has_level(level: LogLevel) -> spec_fn(Entry) -> bool {
    |e: Entry| e.level == level
}

/// The test that an entry has a given hour label.
pub open spec fn in_hour(label: Seq<char>) -> spec_fn(Entry) -> bool {
    |e: Entry| hour_label(e) == Some(label)
}

/// Number of entries at a level.
pub open spec fn count_level(entries: Seq<Entry>, level: LogLevel) -> nat {
    entries.filter(has_level(level)).len()
}

/// Number of entries with an hour label.
pub open spec fn count_hour(entries: Seq<Entry>, label: Seq<char>) -> nat {
    entries.filter(in_hour(label)).len()
}

/// The statistics of a sequence of entries. Entries without an hour label
/// are counted at their level and in no hour.
pub open spec fn stats_of(entries: Seq<Entry>) -> Statistics {
    Statistics {
        total: entries.len(),
        errors: count_level(entries, LogLevel::Error),
        warnings: count_level(entries, LogLevel::Warning),
        infos: count_level(entries, LogLevel::Info),
        debugs: count_level(entries, LogLevel::Debug),
        unknowns: count_level(entries, LogLevel::Unknown),
        by_hour: Map::new(
            |label: Seq<char>| count_hour(entries, label) > 0,
            |label: Seq<char>| count_hour(entries, label),
        ),
    }
}

impl Statistics {
    /// The count at a level.
    pub open spec fn count(self, level: LogLevel) -> nat {
        match level {
            LogLevel::Error => self.errors,
            LogLevel::Warning => self.warnings,
            LogLevel::Info => self.infos,
            LogLevel::Debug => self.debugs,
            LogLevel::Unknown => self.unknowns,
        }
    }

    /// The count of an hour label, zero for a label that does not occur.
    pub open spec fn hour_count(self, label: Seq<char>) -> nat {
        if self.by_hour.dom().contains(label) {
            self.by_hour[label]
        } else {
            0
        }
    }

    /// The share of a level in the total, in whole percent rounded down.
    /// There is none while nothing is counted.
    pub open spec fn percent(self, level: LogLevel) -> Option<nat> {
        if self.total == 0 {
            None
        } else {
            Some(((self.count(level) * 100) / self.total) as nat)
        }
    }

    /// The level counts add up to the total.
    pub open spec fn balanced(self) -> bool {
        self.errors + self.warnings + self.infos + self.debugs + self.unknowns == self.total
    }
}

/// The order of hour labels: by first character, then by second.
pub open spec fn hour_key(label: Seq<char>) -> int {
    (label[0] as int) * 0x110000 + (label[1] as int)
}

/// Every character has a code below `0x110000`.
proof fn lemma_char_range(c: char)
    ensures
        0 <= (c as int) < 0x110000,
{
}

/// Two labels of two characters with the same key are the same label.
pub proof fn lemma_hour_key_injective(a: Seq<char>, b: Seq<char>)
    requires
        a.len() == 2,
        b.len() == 2,
        hour_key(a) == hour_key(b),
    ensures
        a == b,
{
    lemma_char_range(a[1]);
    lemma_char_range(b[1]);
    assert((a[0] as int) == (b[0] as int) && (a[1] as int) == (b[1] as int));
    assert(a =~= b);
}

/// One hour label with the number of entries that carry it.
#[derive(Debug)]
pub struct HourBucket {
    pub label: String,
    pub count: usize,
}

/// Whether some bucket has the label.
pub open spec fn has_bucket(buckets: Seq<HourBucket>, label: Seq<char>) -> bool {
    exists|j: int| 0 <= j < buckets.len() && #[trigger] buckets[j].label@ == label
}

/// The count that the buckets give a label: that of a bucket with the label,
/// zero when there is none.
pub open spec fn tally(buckets: Seq<HourBucket>, label: Seq<char>) -> nat {
    if has_bucket(buckets, label) {
        let j = choose|j: int| 0 <= j < buckets.len() && #[trigger] buckets[j].label@ == label;
        buckets[j].count as nat
    } else {
        0
    }
}

/// Buckets in ascending order of their labels, each label of two characters
/// and each count positive. No label occurs twice in such a sequence.
pub open spec fn ordered(buckets: Seq<HourBucket>) -> bool {
    &&& forall|j: int|
        0 <= j < buckets.len() ==> (#[trigger] buckets[j]).label@.len() == 2 && buckets[j].count
            > 0
    &&& forall|j: int, k: int|
        0 <= j < k < buckets.len() ==> hour_key((#[trigger] buckets[j]).label@) < hour_key(
            (#[trigger] buckets[k]).label@,
        )
}

/// In ordered buckets the count of a bucket's label is that bucket's count.
pub proof fn lemma_tally_at(buckets: Seq<HourBucket>, j: int)
    requires
        ordered(buckets),
        0 <= j < buckets.len(),
    ensures
        has_bucket(buckets, buckets[j].label@),
        tally(buckets, buckets[j].label@) == buckets[j].count,
{
    let label = buckets[j].label@;
    assert(buckets[j].label@ == label);
    let k = choose|k: int| 0 <= k < buckets.len() && #[trigger] buckets[k].label@ == label;
    if k < j {
        assert(hour_key(buckets[k].label@) < hour_key(buckets[j].label@));
    } else if j < k {
        assert(hour_key(buckets[j].label@) < hour_key(buckets[k].label@));
    }
}

/// The key of a two-character label.
fn key_of(label: &str) -> (key: u64)
    requires
        label@.len() == 2,
    ensures
        key == hour_key(label@),
{
    let first = label.get_char(0);
    let second = label.get_char(1);
    (first as u64) * 0x110000 + (second as u64)
}

/// Counts one more entry for `label`: increments the bucket that has the
/// label, or inserts a bucket with count one at its place in the order.
fn add_hour(buckets: &mut Vec<HourBucket>, label: &str)
    requires
        ordered(old(buckets)@),
        label@.len() == 2,
        forall|j: int| 0 <= j < old(buckets)@.len() ==> old(buckets)@[j].count < usize::MAX,
    ensures
        ordered(final(buckets)@),
        forall|h: Seq<char>|
            #[trigger] tally(final(buckets)@, h) == tally(old(buckets)@, h) + if h == label@ {
                1nat
            } else {
                0nat
            },
{
    let key = key_of(label);
    let ghost before = buckets@;
    let mut p: usize = 0;
    while p < buckets.len() && key_of(buckets[p].label.as_str()) < key
        invariant
            p <= buckets.len(),
            buckets@ == before,
            ordered(before),
            key == hour_key(label@),
            forall|j: int| 0 <= j < p ==> hour_key(before[j].label@) < key,
        decreases buckets.len() - p,
    {
        p += 1;
    }
    if p < buckets.len() && key_of(buckets[p].label.as_str()) == key {
        buckets[p].count += 1;
        proof {
            let after = buckets@;
            lemma_hour_key_injective(before[p as int].label@, label@);
            assert(after.len() == before.len());
            assert forall|j: int| 0 <= j < after.len() implies (#[trigger] after[j]).label@
                == before[j].label@ && after[j].count == before[j].count + if j == p {
                1int
            } else {
                0int
            } by {}
            assert(ordered(after));
            assert forall|h: Seq<char>|
                #[trigger] tally(after, h) == tally(before, h) + if h == label@ {
                    1nat
                } else {
                    0nat
                } by {
                lemma_same_labels(before, after, h);
            }
        }
    } else {
        buckets.insert(p, HourBucket { label: String::from_str(label), count: 1 });
        proof {
            let after = buckets@;
            assert forall|j: int| 0 <= j < before.len() implies (#[trigger] before[j]).label@
                != label@ by {
                if j < p {
                } else if j == p {
                } else {
                    assert(hour_key(before[p as int].label@) < hour_key(before[j].label@));
                }
            }
            assert(!has_bucket(before, label@));
            assert forall|j: int, k: int| 0 <= j < k < after.len() implies hour_key(
                (#[trigger] after[j]).label@,
            ) < hour_key((#[trigger] after[k]).label@) by {
                if k < p {
                    assert(after[j] == before[j] && after[k] == before[k]);
                } else if k == p {
                    assert(after[j] == before[j]);
                } else if j < p {
                    assert(after[j] == before[j] && after[k] == before[k - 1]);
                } else if j == p {
                    assert(after[k] == before[k - 1]);
                    if k - 1 > p {
                        assert(hour_key(before[p as int].label@) < hour_key(
                            before[k - 1].label@,
                        ));
                    }
                } else {
                    assert(after[j] == before[j - 1] && after[k] == before[k - 1]);
                }
            }
            assert forall|j: int| 0 <= j < after.len() implies (#[trigger] after[j]).label@.len()
                == 2 && after[j].count > 0 by {
                if j < p {
                    assert(after[j] == before[j]);
                } else if j > p {
                    assert(after[j] == before[j - 1]);
                }
            }
            assert(ordered(after));
            assert forall|h: Seq<char>|
                #[trigger] tally(after, h) == tally(before, h) + if h == label@ {
                    1nat
                } else {
                    0nat
                } by {
                if h == label@ {
                    lemma_tally_at(after, p as int);
                } else if has_bucket(before, h) {
                    let j = choose|j: int| 0 <= j < before.len() && #[trigger] before[j].label@ == h;
                    lemma_tally_at(before, j);
                    let k = if j < p { j } else { j + 1 };
                    assert(after[k] == before[j]);
                    lemma_tally_at(after, k);
                } else if has_bucket(after, h) {
                    let k = choose|k: int| 0 <= k < after.len() && #[trigger] after[k].label@ == h;
                    let j = if k < p { k } else { k - 1 };
                    assert(after[k] == before[j]);
                    assert(before[j].label@ == h);
                }
            }
        }
    }
}

/// Where two ordered bucket sequences have the same labels at the same
/// places, the count of a label is read at the same place in both.
proof fn lemma_same_labels(before: Seq<HourBucket>, after: Seq<HourBucket>, h: Seq<char>)
    requires
        ordered(before),
        ordered(after),
        before.len() == after.len(),
        forall|j: int| 0 <= j < before.len() ==> (#[trigger] after[j]).label@ == before[j].label@,
    ensures
        has_bucket(before, h) == has_bucket(after, h),
        has_bucket(before, h) ==> exists|j: int|
            0 <= j < before.len() && #[trigger] before[j].label@ == h && tally(before, h)
                == before[j].count && tally(after, h) == after[j].count,
{
    if has_bucket(before, h) {
        let j = choose|j: int| 0 <= j < before.len() && #[trigger] before[j].label@ == h;
        assert(after[j].label@ == h);
        lemma_tally_at(before, j);
        lemma_tally_at(after, j);
    } else if has_bucket(after, h) {
        let j = choose|j: int| 0 <= j < after.len() && #[trigger] after[j].label@ == h;
        assert(before[j].label@ == h);
    }
}

/// The statistics of the buffer at the time they were computed.
#[derive(Debug)]
pub struct LogStats {
    total_entries: usize,
    error_count: usize,
    warning_count: usize,
    info_count: usize,
    debug_count: usize,
    unknown_count: usize,
    entries_by_hour: Vec<HourBucket>,
}

impl View for LogStats {
    type V = Statistics;

    closed spec fn view(&self) -> Statistics {
        Statistics {
            total: self.total_entries as nat,
            errors: self.error_count as nat,
            warnings: self.warning_count as nat,
            infos: self.info_count as nat,
            debugs: self.debug_count as nat,
            unknowns: self.unknown_count as nat,
            by_hour: Map::new(
                |label: Seq<char>| tally(self.entries_by_hour@, label) > 0,
                |label: Seq<char>| tally(self.entries_by_hour@, label),
            ),
        }
    }
}

impl LogStats {
    /// The hour buckets are in order and the level counts add up to the
    /// total.
    pub closed spec fn wf(&self) -> bool {
        &&& ordered(self.entries_by_hour@)
        &&& self@.balanced()
    }

    /// The statistics of an empty buffer.
    pub fn new() -> (stats: LogStats)
        ensures
            stats.wf(),
            stats@ == stats_of(Seq::<Entry>::empty()),
    {
        let stats = LogStats {
            total_entries: 0,
            error_count: 0,
            warning_count: 0,
            info_count: 0,
            debug_count: 0,
            unknown_count: 0,
            entries_by_hour: Vec::new(),
        };
        proof {
            reveal(Seq::filter);
            let none = Seq::<Entry>::empty();
            assert forall|label: Seq<char>| count_hour(none, label) == 0 && tally(
                stats.entries_by_hour@,
                label,
            ) == 0 by {}
            assert(stats@.by_hour =~= stats_of(none).by_hour);
        }
        stats
    }

    /// Computes the statistics of a store in one pass over all its entries.
    pub fn compute(store: &EntryStore) -> (stats: LogStats)
        ensures
            stats.wf(),
            stats@ == stats_of(store.entries()),
    {
        let n = store.len();
        let ghost entries = store.entries();
        let mut errors: usize = 0;
        let mut warnings: usize = 0;
        let mut infos: usize = 0;
        let mut debugs: usize = 0;
        let mut unknowns: usize = 0;
        let mut buckets: Vec<HourBucket> = Vec::new();
        proof {
            reveal(Seq::filter);
            assert(entries.take(0) =~= Seq::<Entry>::empty());
            assert forall|label: Seq<char>| count_hour(entries.take(0), label) == 0 && tally(
                buckets@,
                label,
            ) == 0 by {}
        }
        let mut i: usize = 0;
        while i < n
            invariant
                i <= n,
                n == entries.len(),
                entries == store.entries(),
                errors == count_level(entries.take(i as int), LogLevel::Error),
                warnings == count_level(entries.take(i as int), LogLevel::Warning),
                infos == count_level(entries.take(i as int), LogLevel::Info),
                debugs == count_level(entries.take(i as int), LogLevel::Debug),
                unknowns == count_level(entries.take(i as int), LogLevel::Unknown),
                errors + warnings + infos + debugs + unknowns == i,
                ordered(buckets@),
                forall|label: Seq<char>|
                    #[trigger] tally(buckets@, label) == count_hour(entries.take(i as int), label),
            decreases n - i,
        {
            let line = store.at(i);
            let ghost seen = entries.take(i as int);
            let ghost e = entries[i as int];
            proof {
                assert(entries.take(i as int + 1) =~= seen.push(e));
                lemma_filter_push(seen, e, has_level(LogLevel::Error));
                lemma_filter_push(seen, e, has_level(LogLevel::Warning));
                lemma_filter_push(seen, e, has_level(LogLevel::Info));
                lemma_filter_push(seen, e, has_level(LogLevel::Debug));
                lemma_filter_push(seen, e, has_level(LogLevel::Unknown));
                assert forall|label: Seq<char>|
                    count_hour(seen.push(e), label) == count_hour(seen, label) + if hour_label(e)
                        == Some(label) {
                        1nat
                    } else {
                        0nat
                    } by {
                    lemma_filter_push(seen, e, in_hour(label));
                }
            }
            match line.level() {
                LogLevel::Error => {
                    errors += 1;
                },
                LogLevel::Warning => {
                    warnings += 1;
                },
                LogLevel::Info => {
                    infos += 1;
                },
                LogLevel::Debug => {
                    debugs += 1;
                },
                LogLevel::Unknown => {
                    unknowns += 1;
                },
            }
            let timestamp = line.timestamp();
            if timestamp.unicode_len() >= 13 {
                let label = timestamp.substring_char(11, 13);
                proof {
                    assert forall|j: int| 0 <= j < buckets@.len() implies buckets@[j].count
                        < usize::MAX by {
                        lemma_tally_at(buckets@, j);
                        seen.lemma_filter_len(in_hour(buckets@[j].label@));
                    }
                }
                add_hour(&mut buckets, label);
            }
            i += 1;
        }
        let stats = LogStats {
            total_entries: n,
            error_count: errors,
            warning_count: warnings,
            info_count: infos,
            debug_count: debugs,
            unknown_count: unknowns,
            entries_by_hour: buckets,
        };
        proof {
            assert(entries.take(n as int) =~= entries);
            assert(stats@.by_hour =~= stats_of(entries).by_hour);
        }
        stats
    }

    /// Number of entries counted.
    pub fn total_entries(&self) -> (n: usize)
        ensures
            n == self@.total,
    {
        self.total_entries
    }

    /// Number of entries at a level.
    pub fn count(&self, level: LogLevel) -> (n: usize)
        ensures
            n == self@.count(level),
    {
        match level {
            LogLevel::Error => self.error_count,
            LogLevel::Warning => self.warning_count,
            LogLevel::Info => self.info_count,
            LogLevel::Debug => self.debug_count,
            LogLevel::Unknown => self.unknown_count,
        }
    }

    /// Number of entries at level `Error`.
    pub fn error_count(&self) -> (n: usize)
        ensures
            n == self@.errors,
    {
        self.error_count
    }

    /// Number of entries at level `Warning`.
    pub fn warning_count(&self) -> (n: usize)
        ensures
            n == self@.warnings,
    {
        self.warning_count
    }

    /// Number of entries at level `Info`.
    pub fn info_count(&self) -> (n: usize)
        ensures
            n == self@.infos,
    {
        self.info_count
    }

    /// Number of entries at level `Debug`.
    pub fn debug_count(&self) -> (n: usize)
        ensures
            n == self@.debugs,
    {
        self.debug_count
    }

    /// Number of entries at level `Unknown`.
    pub fn unknown_count(&self) -> (n: usize)
        ensures
            n == self@.unknowns,
    {
        self.unknown_count
    }

    /// The share of a level in the total, in whole percent rounded down, or
    /// `None` while nothing is counted.
    pub fn percent(&self, level: LogLevel) -> (share: Option<usize>)
        requires
            self.wf(),
        ensures
            share == (match self@.percent(level) {
                Some(p) => Some(p as usize),
                None => None,
            }),
            share.is_some() ==> share.unwrap() <= 100,
    {
        if self.total_entries == 0 {
            None
        } else {
            let count = self.count(level);
            let total = self.total_entries;
            assert(count <= total);
            let ghost c = count as int;
            let ghost t = total as int;
            assert(0 <= (c * 100) / t <= 100) by (nonlinear_arith)
                requires
                    0 <= c <= t,
                    t > 0,
            ;
            let share: u128 = (count as u128) * 100 / (total as u128);
            Some(share as usize)
        }
    }

    /// Number of entries with the hour label `label`, zero when there is
    /// none.
    pub fn hour_count(&self, label: &str) -> (n: usize)
        requires
            self.wf(),
        ensures
            n == self@.hour_count(label@),
    {
        if label.unicode_len() != 2 {
            proof {
                if has_bucket(self.entries_by_hour@, label@) {
                    let j = choose|j: int|
                        0 <= j < self.entries_by_hour@.len()
                            && #[trigger] self.entries_by_hour@[j].label@ == label@;
                    assert(self.entries_by_hour@[j].label@.len() == 2);
                }
            }
            return 0;
        }
        let key = key_of(label);
        let mut p: usize = 0;
        while p < self.entries_by_hour.len()
            invariant
                self.wf(),
                label@.len() == 2,
                key == hour_key(label@),
                p <= self.entries_by_hour.len(),
                forall|j: int| 0 <= j < p ==> (#[trigger] self.entries_by_hour@[j]).label@ != label@,
            decreases self.entries_by_hour.len() - p,
        {
            if key_of(self.entries_by_hour[p].label.as_str()) == key {
                proof {
                    lemma_hour_key_injective(self.entries_by_hour@[p as int].label@, label@);
                    lemma_tally_at(self.entries_by_hour@, p as int);
                }
                return self.entries_by_hour[p].count;
            }
            p += 1;
        }
        assert(!has_bucket(self.entries_by_hour@, label@));
        0
    }

    /// The hour buckets, in ascending order of their labels: one for each
    /// label that occurs, with the number of entries that carry it.
    pub fn hours(&self) -> (buckets: &Vec<HourBucket>)
        requires
            self.wf(),
        ensures
            ordered(buckets@),
            forall|label: Seq<char>| #[trigger]
                tally(buckets@, label) == self@.hour_count(label),
    {
        &self.entries_by_hour
    }
}

/// The level counts of any sequence of entries add up to its length, which
/// is the total.
pub proof fn lemma_level_counts_sum(entries: Seq<Entry>)
    ensures
        stats_of(entries).balanced(),
        stats_of(entries).total == entries.len(),
    decreases entries.len(),
{
    if entries.len() == 0 {
        reveal(Seq::filter);
    } else {
        let rest = entries.drop_last();
        let e = entries.last();
        lemma_level_counts_sum(rest);
        assert(entries =~= rest.push(e));
        lemma_filter_push(rest, e, has_level(LogLevel::Error));
        lemma_filter_push(rest, e, has_level(LogLevel::Warning));
        lemma_filter_push(rest, e, has_level(LogLevel::Info));
        lemma_filter_push(rest, e, has_level(LogLevel::Debug));
        lemma_filter_push(rest, e, has_level(LogLevel::Unknown));
    }
}

/// The hour counts add up to no more than the total: an entry is counted in
/// at most one hour, and an entry without an hour label in none.
pub proof fn lemma_hour_count_bound(entries: Seq<Entry>, label: Seq<char>)
    ensures
        stats_of(entries).hour_count(label) == count_hour(entries, label),
        count_hour(entries, label) <= entries.len(),
{
    entries.lemma_filter_len(in_hour(label));
}

} // verus!
