//! Log entries: one classified record per raw line.

use crate::level::{classify, LogLevel};
use vstd::prelude::*;
use vstd::string::StrSliceExecFns;
use vstd::string::StringExecFns;

verus! {

/// What an entry is: its full text, the timestamp taken from it (possibly
/// empty) and its level.
pub struct Entry {
    pub content: Seq<char>,
    pub timestamp: Seq<char>,
    pub level: LogLevel,
}

/// One buffered log record. It is made from a raw line and never changes.
#[derive(Debug)]
pub struct LogLine {
    content: String,
    timestamp: String,
    level: LogLevel,
}

/// The timestamp of a raw line: its first 19 characters when the line has at
/// least 20 characters with a space at offset 10 and a colon at offset 13,
/// the empty text otherwise.
pub open spec fn timestamp_of(line: Seq<char>) -> Seq<char> {
    if line.len() >= 20 && line[10] == ' ' && line[13] == ':' {
        line.subrange(0, 19)
    } else {
        Seq::empty()
    }
}

/// The entry that a raw line becomes.
pub open spec fn entry_of(line: Seq<char>) -> Entry {
    Entry { content: line, timestamp: timestamp_of(line), level: classify(line) }
}

/// The entries that a sequence of raw lines becomes, in the same order.
pub open spec fn entries_of(lines: Seq<Seq<char>>) -> Seq<Entry> {
    lines.map_values(|line: Seq<char>| entry_of(line))
}

/// The texts that a sequence of strings holds.
pub open spec fn texts(lines: Seq<String>) -> Seq<Seq<char>> {
    lines.map_values(|line: String| line@)
}

/// The two-character hour label of an entry: characters 11 and 12 of its
/// timestamp, when the timestamp has at least 13 characters.
pub open spec fn hour_label(e: Entry) -> Option<Seq<char>> {
    if e.timestamp.len() >= 13 {
        Some(e.timestamp.subrange(11, 13))
    } else {
        None
    }
}

impl View for LogLine {
    type V = Entry;

    closed spec fn view(&self) -> Entry {
        Entry { content: self.content@, timestamp: self.timestamp@, level: self.level }
    }
}

impl LogLine {
    /// Builds the entry of a raw line: extracts the timestamp and classifies
    /// the line. Every text is accepted.
    pub fn parse(line: &str) -> (e: LogLine)
        ensures
            e@ == entry_of(line@),
    {
        let n = line.unicode_len();
        let timestamp = if n >= 20 && line.get_char(10) == ' ' && line.get_char(13) == ':' {
            String::from_str(line.substring_char(0, 19))
        } else {
            String::new()
        };
        let level = LogLevel::from_line(line);
        LogLine { content: String::from_str(line), timestamp, level }
    }

    /// The full text of the line.
    pub fn content(&self) -> (s: &str)
        ensures
            s@ == self@.content,
    {
        self.content.as_str()
    }

    /// The timestamp, empty when the line had none.
    pub fn timestamp(&self) -> (s: &str)
        ensures
            s@ == self@.timestamp,
    {
        self.timestamp.as_str()
    }

    /// The level.
    pub fn level(&self) -> (l: LogLevel)
        ensures
            l == self@.level,
    {
        self.level
    }
}

} // verus!
