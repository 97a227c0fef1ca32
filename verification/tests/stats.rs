use log_monitor::level::LogLevel;
use log_monitor::stats::LogStats;
use log_monitor::store::EntryStore;

fn store_of(lines: &[&str]) -> EntryStore {
    let mut store = EntryStore::new(100);
    for line in lines {
        store.append_line(line);
    }
    store
}

fn hours(stats: &LogStats) -> Vec<(String, usize)> {
    stats.hours().iter().map(|b| (b.label.clone(), b.count)).collect()
}

#[test]
fn stats_of_two_entries() {
    let store = store_of(&["2024-01-01 10:00:00 ERROR boom", "2024-01-01 11:00:00 INFO ok"]);
    let stats = LogStats::compute(&store);
    assert_eq!(stats.total_entries(), 2);
    assert_eq!(stats.error_count(), 1);
    assert_eq!(stats.info_count(), 1);
    assert_eq!(stats.warning_count(), 0);
    assert_eq!(stats.debug_count(), 0);
    assert_eq!(stats.unknown_count(), 0);
    assert_eq!(hours(&stats), vec![("10".to_string(), 1), ("11".to_string(), 1)]);
    assert_eq!(stats.hour_count("10"), 1);
    assert_eq!(stats.hour_count("11"), 1);
    assert_eq!(stats.hour_count("12"), 0);
}

#[test]
fn stats_of_empty_store() {
    let stats = LogStats::compute(&EntryStore::new(5));
    assert_eq!(stats.total_entries(), 0);
    assert!(stats.hours().is_empty());
    for level in [LogLevel::Info, LogLevel::Debug, LogLevel::Warning, LogLevel::Error, LogLevel::Unknown] {
        assert_eq!(stats.count(level), 0);
        assert_eq!(stats.percent(level), None);
    }
    let fresh = LogStats::new();
    assert_eq!(fresh.total_entries(), 0);
    assert!(fresh.hours().is_empty());
    assert_eq!(fresh.percent(LogLevel::Error), None);
}

#[test]
fn level_counts_add_up_to_total() {
    let store = store_of(&[
        "error one",
        "warn two",
        "info three",
        "debug four",
        "five",
        "2024-01-01 10:00:00 ERROR six",
        "failure seven",
    ]);
    let stats = LogStats::compute(&store);
    let sum = stats.error_count() + stats.warning_count() + stats.info_count()
        + stats.debug_count() + stats.unknown_count();
    assert_eq!(sum, stats.total_entries());
    assert_eq!(stats.total_entries(), store.len());
    assert_eq!(stats.error_count(), 3);
    assert_eq!(stats.count(LogLevel::Error), 3);
    assert_eq!(stats.count(LogLevel::Warning), 1);
    assert_eq!(stats.count(LogLevel::Info), 1);
    assert_eq!(stats.count(LogLevel::Debug), 1);
    assert_eq!(stats.count(LogLevel::Unknown), 1);
}

#[test]
fn entries_without_timestamp_are_in_no_hour() {
    let store = store_of(&["error without time", "2024-01-01 09:15:00 warn late"]);
    let stats = LogStats::compute(&store);
    assert_eq!(stats.total_entries(), 2);
    assert_eq!(hours(&stats), vec![("09".to_string(), 1)]);
}

#[test]
fn hours_are_counted_and_ordered() {
    let store = store_of(&[
        "2024-01-01 23:00:00 a message",
        "2024-01-01 07:00:00 a message",
        "2024-01-01 23:30:00 a message",
        "2024-01-02 07:10:00 a message",
        "2024-01-02 00:10:00 a message",
        "2024-01-02 23:59:59 a message",
    ]);
    let stats = LogStats::compute(&store);
    assert_eq!(
        hours(&stats),
        vec![("00".to_string(), 1), ("07".to_string(), 2), ("23".to_string(), 3)]
    );
    assert_eq!(stats.hour_count("23"), 3);
    assert_eq!(stats.hour_count("2"), 0);
    assert_eq!(stats.hour_count("230"), 0);
    assert_eq!(stats.hour_count(""), 0);
}

#[test]
fn hour_label_is_taken_verbatim() {
    let store = store_of(&["2024-01-01 ab:00:00 a message", "2024-01-01 Ab:00:00 a message"]);
    let stats = LogStats::compute(&store);
    assert_eq!(hours(&stats), vec![("Ab".to_string(), 1), ("ab".to_string(), 1)]);
}

#[test]
fn percent_is_rounded_down() {
    let store = store_of(&["error", "error", "warn"]);
    let stats = LogStats::compute(&store);
    assert_eq!(stats.percent(LogLevel::Error), Some(66));
    assert_eq!(stats.percent(LogLevel::Warning), Some(33));
    assert_eq!(stats.percent(LogLevel::Info), Some(0));
    let all = LogStats::compute(&store_of(&["error"]));
    assert_eq!(all.percent(LogLevel::Error), Some(100));
}

#[test]
fn stats_follow_eviction() {
    let mut store = EntryStore::new(2);
    store.append_line("2024-01-01 10:00:00 ERROR boom");
    store.append_line("2024-01-01 11:00:00 INFO ok");
    store.append_line("2024-01-01 11:30:00 WARN hm");
    let stats = LogStats::compute(&store);
    assert_eq!(stats.total_entries(), 2);
    assert_eq!(stats.error_count(), 0);
    assert_eq!(hours(&stats), vec![("11".to_string(), 2)]);
}
