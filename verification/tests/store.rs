use log_monitor::entry::LogLine;
use log_monitor::level::LogLevel;
use log_monitor::store::EntryStore;

fn contents(store: &EntryStore) -> Vec<String> {
    let mut out = Vec::new();
    for i in 0..store.len() {
        out.push(store.at(i).content().to_string());
    }
    out
}

#[test]
fn new_store_is_empty() {
    let store = EntryStore::new(3);
    assert_eq!(store.len(), 0);
    assert_eq!(store.max_entries(), 3);
}

#[test]
fn append_keeps_arrival_order() {
    let mut store = EntryStore::new(3);
    store.append_line("A");
    store.append_line("B");
    assert_eq!(contents(&store), vec!["A", "B"]);
}

#[test]
fn append_beyond_capacity_evicts_oldest() {
    let mut store = EntryStore::new(3);
    for line in ["A", "B", "C", "D"] {
        store.append_line(line);
    }
    assert_eq!(store.len(), 3);
    assert_eq!(contents(&store), vec!["B", "C", "D"]);
}

#[test]
fn store_holds_the_most_recent_entries() {
    let mut store = EntryStore::new(4);
    for i in 0..50 {
        store.append_line(&format!("line {}", i));
        assert!(store.len() <= 4);
    }
    assert_eq!(contents(&store), vec!["line 46", "line 47", "line 48", "line 49"]);
}

#[test]
fn store_of_capacity_zero_stays_empty() {
    let mut store = EntryStore::new(0);
    store.append_line("A");
    assert_eq!(store.len(), 0);
}

#[test]
fn append_takes_a_parsed_entry() {
    let mut store = EntryStore::new(2);
    store.append(LogLine::parse("2024-01-01 11:00:00 INFO ok"));
    assert_eq!(store.at(0).level(), LogLevel::Info);
    assert_eq!(store.at(0).timestamp(), "2024-01-01 11:00:00");
}

#[test]
fn append_from_appends_the_suffix() {
    let lines: Vec<String> = ["a", "b", "c", "d", "e"].iter().map(|s| s.to_string()).collect();
    let mut store = EntryStore::new(10);
    store.append_from(&lines, 2);
    assert_eq!(contents(&store), vec!["c", "d", "e"]);
    store.append_from(&lines, 5);
    assert_eq!(contents(&store), vec!["c", "d", "e"]);
}

#[test]
fn append_from_trims_to_capacity() {
    let lines: Vec<String> = ["a", "b", "c", "d", "e"].iter().map(|s| s.to_string()).collect();
    let mut store = EntryStore::new(2);
    store.append_from(&lines, 0);
    assert_eq!(contents(&store), vec!["d", "e"]);
}

#[test]
fn initialize_appends_the_last_lines() {
    let lines: Vec<String> = ["a", "b", "c", "d", "e"].iter().map(|s| s.to_string()).collect();
    let mut store = EntryStore::new(10);
    store.initialize(&lines, 2);
    assert_eq!(contents(&store), vec!["d", "e"]);
    store.initialize(&lines, 0);
    assert_eq!(contents(&store), vec!["d", "e"]);
    store.initialize(&lines, 9);
    assert_eq!(contents(&store), vec!["d", "e", "a", "b", "c", "d", "e"]);
    let mut small = EntryStore::new(3);
    small.initialize(&lines, 4);
    assert_eq!(contents(&small), vec!["c", "d", "e"]);
}
