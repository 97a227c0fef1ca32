//! The viewer's controller: it owns the entry store, the filter index, the
//! statistics and the view state, and keeps them consistent.

use crate::entry::{entries_of, entry_of, texts, LogLine};
use crate::filter::{as_positions, recompute};
use crate::level::LogLevel;
use crate::model::{
    lemma_apply_inv, lemma_filtered_in_range, lemma_initial_inv, AppState, Command, RowView,
    ViewMode, DEFAULT_MAX_LINES, PAGE_STEP, POLL_INTERVAL_MS, TAB_COUNT, WINDOW_LEAD,
};
use crate::stats::LogStats;
use crate::store::EntryStore;
use vstd::prelude::*;

verus! {

/// One row of the log view, ready to be drawn.
#[derive(Debug)]
pub struct Row<'a> {
    /// The line number, when line numbers are shown.
    pub number: Option<usize>,
    /// The timestamp, when timestamps are shown and the entry has one.
    pub timestamp: Option<&'a str>,
    /// The level of the entry.
    pub level: LogLevel,
    /// The full text of the entry.
    pub content: &'a str,
}

impl<'a> View for Row<'a> {
    type V = RowView;

    open spec fn view(&self) -> RowView {
        RowView {
            number: match self.number {
                Some(n) => Some(n as nat),
                None => None,
            },
            timestamp: match self.timestamp {
                Some(t) => Some(t@),
                None => None,
            },
            level: self.level,
            content: self.content@,
        }
    }
}

/// The one owner of all state of the viewer.
pub struct App {
    log_path: String,
    store: EntryStore,
    filtered_logs: Vec<usize>,
    scroll: usize,
    selected_tab: usize,
    follow_mode: bool,
    last_update: u64,
    known_lines: usize,
    view_mode: ViewMode,
    stats: LogStats,
    filter_text: String,
    saved_filter: String,
    filter_editing: bool,
    show_timestamps: bool,
    show_line_numbers: bool,
}

impl View for App {
    type V = AppState;

    closed spec fn view(&self) -> AppState {
        AppState {
            log_path: self.log_path@,
            entries: self.store.entries(),
            max_lines: self.store.capacity(),
            known_lines: self.known_lines as nat,
            last_update: self.last_update as nat,
            filtered: as_positions(self.filtered_logs@),
            scroll: self.scroll as nat,
            selected_tab: self.selected_tab as nat,
            follow_mode: self.follow_mode,
            view_mode: self.view_mode,
            stats: self.stats@,
            filter_text: self.filter_text@,
            saved_filter: self.saved_filter@,
            filter_editing: self.filter_editing,
            show_timestamps: self.show_timestamps,
            show_line_numbers: self.show_line_numbers,
        }
    }
}

impl App {
    /// The stored statistics are well formed.
    pub closed spec fn stats_wf(&self) -> bool {
        self.stats.wf()
    }

    /// The state satisfies the invariant.
    pub open spec fn wf(&self) -> bool {
        self@.inv() && self.stats_wf()
    }

    /// A viewer for the file at `log_path`, with the default capacity, an
    /// empty buffer and follow mode on.
    pub fn new(log_path: String) -> (app: App)
        ensures
            app.wf(),
            app@ == AppState::initial(log_path@, DEFAULT_MAX_LINES as nat),
    {
        App::with_capacity(log_path, DEFAULT_MAX_LINES)
    }

    /// A viewer that buffers at most `max_lines` entries.
    pub fn with_capacity(log_path: String, max_lines: usize) -> (app: App)
        ensures
            app.wf(),
            app@ == AppState::initial(log_path@, max_lines as nat),
    {
        let app = App {
            log_path,
            store: EntryStore::new(max_lines),
            filtered_logs: Vec::new(),
            scroll: 0,
            selected_tab: 0,
            follow_mode: true,
            last_update: 0,
            known_lines: 0,
            view_mode: ViewMode::LogView,
            stats: LogStats::new(),
            filter_text: String::new(),
            saved_filter: String::new(),
            filter_editing: false,
            show_timestamps: true,
            show_line_numbers: true,
        };
        proof {
            lemma_initial_inv(log_path@, max_lines as nat);
            assert(app@.filtered =~= Seq::<int>::empty());
        }
        app
    }

    /// Rebuilds statistics and filter index after the store has changed, and
    /// moves the scroll offset as an ingestion batch does.
    fn refresh(&mut self)
        ensures
            final(self)@ == old(self)@.refresh(),
            final(self).stats_wf(),
    {
        self.update_stats();
        self.filtered_logs = recompute(&self.store, self.filter_text.as_str());
        if self.follow_mode || self.scroll > self.filtered_logs.len() {
            self.scroll = self.filtered_logs.len();
        }
    }

    /// Ingests one raw line as a batch of its own.
    pub fn add_log_line(&mut self, line: &str)
        requires
            old(self).wf(),
        ensures
            final(self).wf(),
            final(self)@ == old(self)@.ingest(seq![line@]),
    {
        self.store.append_line(line);
        self.refresh();
        proof {
            let s = old(self)@;
            assert(s.entries + entries_of(seq![line@]) =~= s.entries.push(
                entry_of(line@),
            ));
        }
    }

    /// The initial read: ingests the last `num_lines` of `lines` and takes
    /// all of `lines` as known.
    pub fn initialize_logs(&mut self, lines: &Vec<String>, num_lines: usize)
        requires
            old(self).wf(),
        ensures
            final(self).wf(),
            final(self)@ == old(self)@.initialize(texts(lines@), num_lines as nat),
    {
        self.store.initialize(lines, num_lines);
        self.known_lines = lines.len();
        self.refresh();
    }

    /// Whether a poll at `now_ms` comes late enough after the last one.
    /// Times are milliseconds since the viewer started.
    pub fn poll_due(&self, now_ms: u64) -> (due: bool)
        ensures
            due == self@.poll_due(now_ms as nat),
    {
        now_ms >= self.last_update && now_ms - self.last_update >= POLL_INTERVAL_MS
    }

    /// One poll: `lines` are all the lines that the file holds at `now_ms`.
    /// The lines beyond those known are ingested; a poll that comes too
    /// early changes nothing, and a file that has not grown changes only the
    /// time of the last poll.
    pub fn update_logs(&mut self, now_ms: u64, lines: &Vec<String>)
        requires
            old(self).wf(),
        ensures
            final(self).wf(),
            final(self)@ == old(self)@.poll(now_ms as nat, texts(lines@)),
    {
        if !self.poll_due(now_ms) {
            return;
        }
        if lines.len() > self.known_lines {
            self.store.append_from(lines, self.known_lines);
            self.known_lines = lines.len();
            self.refresh();
        }
        self.last_update = now_ms;
    }

    /// Takes note of a poll at `now_ms` that could not read the file: the
    /// next poll is due one interval later, and nothing else changes.
    pub fn poll_failed(&mut self, now_ms: u64)
        ensures
            final(self)@ == old(self)@.poll_failed(now_ms as nat),
            final(self).stats_wf() == old(self).stats_wf(),
            old(self).wf() ==> final(self).wf(),
    {
        if self.poll_due(now_ms) {
            self.last_update = now_ms;
        }
    }

    /// Rebuilds the filter index from the store and the filter text.
    pub fn update_filter(&mut self)
        ensures
            final(self)@ == old(self)@.refilter(),
            final(self).stats_wf() == old(self).stats_wf(),
            old(self).wf() ==> final(self).wf(),
    {
        self.filtered_logs = recompute(&self.store, self.filter_text.as_str());
        if self.scroll > self.filtered_logs.len() {
            self.scroll = self.filtered_logs.len();
        }
    }

    /// Recomputes the statistics from the store.
    pub fn update_stats(&mut self)
        ensures
            final(self)@ == old(self)@.restat(),
            final(self).stats_wf(),
            old(self).wf() ==> final(self).wf(),
    {
        self.stats = LogStats::compute(&self.store);
    }

    /// Scrolls one position up and leaves follow mode.
    pub fn scroll_up(&mut self)
        ensures
            final(self)@ == old(self)@.scroll_up(),
            final(self).stats_wf() == old(self).stats_wf(),
            old(self).wf() ==> final(self).wf(),
    {
        self.follow_mode = false;
        if self.scroll > 0 {
            self.scroll -= 1;
        }
    }

    /// Scrolls one position down, not past the end of the filter index.
    pub fn scroll_down(&mut self)
        ensures
            final(self)@ == old(self)@.scroll_down(),
            final(self).stats_wf() == old(self).stats_wf(),
            old(self).wf() ==> final(self).wf(),
    {
        if self.scroll < self.filtered_logs.len() {
            self.scroll += 1;
        }
    }

    /// Scrolls one page up and leaves follow mode.
    pub fn page_up(&mut self)
        ensures
            final(self)@ == old(self)@.page_up(),
            final(self).stats_wf() == old(self).stats_wf(),
            old(self).wf() ==> final(self).wf(),
    {
        self.follow_mode = false;
        if self.scroll > PAGE_STEP {
            self.scroll -= PAGE_STEP;
        } else {
            self.scroll = 0;
        }
    }

    /// Scrolls one page down, stopping at the end of the filter index.
    pub fn page_down(&mut self)
        ensures
            final(self)@ == old(self)@.page_down(),
            final(self).stats_wf() == old(self).stats_wf(),
            old(self).wf() ==> final(self).wf(),
    {
        let len = self.filtered_logs.len();
        if len > PAGE_STEP && self.scroll < len - PAGE_STEP {
            self.scroll += PAGE_STEP;
        } else {
            self.scroll = len;
        }
    }

    /// Flips follow mode; turning it on jumps to the end of the filter
    /// index.
    pub fn toggle_follow_mode(&mut self)
        ensures
            final(self)@ == old(self)@.toggle_follow_mode(),
            final(self).stats_wf() == old(self).stats_wf(),
            old(self).wf() ==> final(self).wf(),
    {
        self.follow_mode = !self.follow_mode;
        if self.follow_mode {
            self.scroll = self.filtered_logs.len();
        }
    }

    /// Flips the display of timestamps.
    pub fn toggle_timestamps(&mut self)
        ensures
            final(self)@ == old(self)@.toggle_timestamps(),
            final(self).stats_wf() == old(self).stats_wf(),
            old(self).wf() ==> final(self).wf(),
    {
        self.show_timestamps = !self.show_timestamps;
    }

    /// Flips the display of line numbers.
    pub fn toggle_line_numbers(&mut self)
        ensures
            final(self)@ == old(self)@.toggle_line_numbers(),
            final(self).stats_wf() == old(self).stats_wf(),
            old(self).wf() ==> final(self).wf(),
    {
        self.show_line_numbers = !self.show_line_numbers;
    }

    /// Replaces the filter text and rebuilds the filter index.
    pub fn set_filter_text(&mut self, text: String)
        ensures
            final(self)@ == old(self)@.set_filter_text(text@),
            final(self).stats_wf() == old(self).stats_wf(),
            old(self).wf() ==> final(self).wf(),
    {
        self.filter_text = text;
        self.update_filter();
    }

    /// Appends a character to the filter text and rebuilds the filter index.
    pub fn add_filter_char(&mut self, c: char)
        ensures
            final(self)@ == old(self)@.add_filter_char(c),
            final(self).stats_wf() == old(self).stats_wf(),
            old(self).wf() ==> final(self).wf(),
    {
        self.filter_text.push(c);
        self.update_filter();
    }

    /// Removes the last character of the filter text, if there is one, and
    /// rebuilds the filter index.
    pub fn remove_filter_char(&mut self)
        ensures
            final(self)@ == old(self)@.remove_filter_char(),
            final(self).stats_wf() == old(self).stats_wf(),
            old(self).wf() ==> final(self).wf(),
    {
        self.filter_text.pop();
        self.update_filter();
    }

    /// Empties the filter text and rebuilds the filter index.
    pub fn clear_filter(&mut self)
        ensures
            final(self)@ == old(self)@.clear_filter(),
            final(self).stats_wf() == old(self).stats_wf(),
            old(self).wf() ==> final(self).wf(),
    {
        self.filter_text = String::new();
        self.update_filter();
    }

    /// Starts editing the filter text and remembers the text as it is.
    pub fn enter_filter_edit(&mut self)
        ensures
            final(self)@ == old(self)@.enter_filter_edit(),
            final(self).stats_wf() == old(self).stats_wf(),
            old(self).wf() ==> final(self).wf(),
    {
        if !self.filter_editing {
            self.saved_filter = self.filter_text.clone();
            self.filter_editing = true;
            self.view_mode = ViewMode::FilterView;
        }
    }

    /// Ends editing, keeps the filter text and shows the log view.
    pub fn confirm_filter(&mut self)
        ensures
            final(self)@ == old(self)@.confirm_filter(),
            final(self).stats_wf() == old(self).stats_wf(),
            old(self).wf() ==> final(self).wf(),
    {
        self.view_mode = ViewMode::LogView;
        self.selected_tab = 0;
        self.filter_editing = false;
        self.update_filter();
    }

    /// Ends editing, puts back the filter text as it was when editing began
    /// and shows the log view.
    pub fn cancel_filter(&mut self)
        ensures
            final(self)@ == old(self)@.cancel_filter(),
            final(self).stats_wf() == old(self).stats_wf(),
            old(self).wf() ==> final(self).wf(),
    {
        if self.filter_editing {
            self.filter_text = self.saved_filter.clone();
        }
        self.view_mode = ViewMode::LogView;
        self.selected_tab = 0;
        self.filter_editing = false;
        self.update_filter();
    }

    /// Starts editing the filter text, or confirms it when it is edited.
    pub fn toggle_filter_mode(&mut self)
        ensures
            final(self)@ == old(self)@.toggle_filter_mode(),
            final(self).stats_wf() == old(self).stats_wf(),
            old(self).wf() ==> final(self).wf(),
    {
        if self.filter_editing {
            self.confirm_filter();
        } else {
            self.enter_filter_edit();
        }
    }

    /// Shows the view of a tab.
    fn select_tab(&mut self, tab: usize)
        ensures
            final(self)@ == old(self)@.select_tab(tab as nat),
            final(self).stats_wf() == old(self).stats_wf(),
    {
        self.selected_tab = tab;
        self.view_mode = if tab == 0 {
            ViewMode::LogView
        } else if tab == 1 {
            ViewMode::StatsView
        } else {
            ViewMode::HelpView
        };
    }

    /// Moves to the next tab; does nothing in the filter view.
    pub fn next_tab(&mut self)
        ensures
            final(self)@ == old(self)@.next_tab(),
            final(self).stats_wf() == old(self).stats_wf(),
            old(self).wf() ==> final(self).wf(),
    {
        if self.view_mode != ViewMode::FilterView {
            self.select_tab((self.selected_tab % TAB_COUNT + 1) % TAB_COUNT);
        }
    }

    /// Moves to the previous tab; does nothing in the filter view.
    pub fn prev_tab(&mut self)
        ensures
            final(self)@ == old(self)@.prev_tab(),
            final(self).stats_wf() == old(self).stats_wf(),
            old(self).wf() ==> final(self).wf(),
    {
        if self.view_mode != ViewMode::FilterView {
            if self.selected_tab > 0 {
                self.select_tab(self.selected_tab - 1);
            } else {
                self.select_tab(TAB_COUNT - 1);
            }
        }
    }

    /// Carries out a command and says whether the caller is to stop.
    pub fn apply(&mut self, command: Command) -> (quit: bool)
        requires
            old(self).wf(),
        ensures
            final(self).wf(),
            final(self)@ == old(self)@.apply(command),
            quit == (command == Command::Quit),
    {
        proof {
            lemma_apply_inv(self@, command);
        }
        match command {
            Command::ScrollUp => self.scroll_up(),
            Command::ScrollDown => self.scroll_down(),
            Command::PageUp => self.page_up(),
            Command::PageDown => self.page_down(),
            Command::ToggleFollow => self.toggle_follow_mode(),
            Command::ToggleTimestamps => self.toggle_timestamps(),
            Command::ToggleLineNumbers => self.toggle_line_numbers(),
            Command::EnterFilterEdit => self.enter_filter_edit(),
            Command::FilterChar(c) => self.add_filter_char(c),
            Command::FilterBackspace => self.remove_filter_char(),
            Command::ConfirmFilter => self.confirm_filter(),
            Command::CancelFilter => self.cancel_filter(),
            Command::ClearFilter => self.clear_filter(),
            Command::NextTab => self.next_tab(),
            Command::PrevTab => self.prev_tab(),
            Command::Quit => {
                return true;
            },
        }
        false
    }

    /// Path of the log file.
    pub fn log_path(&self) -> (path: &str)
        ensures
            path@ == self@.log_path,
    {
        self.log_path.as_str()
    }

    /// Capacity of the entry store.
    pub fn max_lines(&self) -> (n: usize)
        ensures
            n == self@.max_lines,
    {
        self.store.max_entries()
    }

    /// Number of buffered entries.
    pub fn len(&self) -> (n: usize)
        ensures
            n == self@.entries.len(),
    {
        self.store.len()
    }

    /// The buffered entry at `index`, counted from the oldest.
    pub fn entry(&self, index: usize) -> (line: &LogLine)
        requires
            index < self@.entries.len(),
        ensures
            line@ == self@.entries[index as int],
    {
        self.store.at(index)
    }

    /// Number of lines that the file had when it was last read.
    pub fn known_lines(&self) -> (n: usize)
        ensures
            n == self@.known_lines,
    {
        self.known_lines
    }

    /// The filter index: positions in the store of the matching entries.
    pub fn filtered_logs(&self) -> (index: &Vec<usize>)
        ensures
            as_positions(index@) == self@.filtered,
    {
        &self.filtered_logs
    }

    /// Length of the filter index.
    pub fn filtered_len(&self) -> (n: usize)
        ensures
            n == self@.filtered.len(),
    {
        self.filtered_logs.len()
    }

    /// The entry at position `k` of the filter index.
    pub fn filtered_entry(&self, k: usize) -> (line: &LogLine)
        requires
            self.wf(),
            k < self@.filtered.len(),
        ensures
            line@ == self@.entries[self@.filtered[k as int]],
    {
        proof {
            lemma_filtered_in_range(self@);
            assert(self@.filtered[k as int] == self.filtered_logs@[k as int]);
        }
        self.store.at(self.filtered_logs[k])
    }

    /// The window of the filter index that a viewport of `height` rows
    /// shows, as the positions of its first entry and of the one after its
    /// last.
    pub fn visible_range(&self, height: usize) -> (range: (usize, usize))
        requires
            self.wf(),
        ensures
            range.0 == self@.window(height as nat).0,
            range.1 == self@.window(height as nat).1,
            range.0 <= range.1 <= self@.filtered.len(),
    {
        let len = self.filtered_logs.len();
        let start = if self.scroll > WINDOW_LEAD {
            self.scroll - WINDOW_LEAD
        } else {
            0
        };
        let end = if height < len - start {
            start + height
        } else {
            len
        };
        (start, end)
    }

    /// The row for position `k` of the filter index, with the parts that
    /// the display toggles ask for.
    pub fn row(&self, k: usize) -> (row: Row<'_>)
        requires
            self.wf(),
            k < self@.filtered.len(),
        ensures
            row@ == self@.row(k as int),
    {
        let line = self.filtered_entry(k);
        let timestamp = line.timestamp();
        assert(k < self.filtered_logs.len());
        Row {
            number: if self.show_line_numbers {
                Some(k + 1)
            } else {
                None
            },
            timestamp: if self.show_timestamps && !timestamp.is_empty() {
                Some(timestamp)
            } else {
                None
            },
            level: line.level(),
            content: line.content(),
        }
    }

    /// Scroll offset: a position in the filter index, or its length.
    pub fn scroll(&self) -> (n: usize)
        ensures
            n == self@.scroll,
    {
        self.scroll
    }

    /// The selected tab.
    pub fn selected_tab(&self) -> (n: usize)
        ensures
            n == self@.selected_tab,
    {
        self.selected_tab
    }

    /// Whether the view follows new entries.
    pub fn follow_mode(&self) -> (b: bool)
        ensures
            b == self@.follow_mode,
    {
        self.follow_mode
    }

    /// What is shown.
    pub fn view_mode(&self) -> (mode: ViewMode)
        ensures
            mode == self@.view_mode,
    {
        self.view_mode
    }

    /// The statistics of the buffer.
    pub fn stats(&self) -> (stats: &LogStats)
        ensures
            stats@ == self@.stats,
            self.wf() ==> stats.wf(),
    {
        &self.stats
    }

    /// The filter text.
    pub fn filter_text(&self) -> (text: &str)
        ensures
            text@ == self@.filter_text,
    {
        self.filter_text.as_str()
    }

    /// Whether the filter text is being edited.
    pub fn filter_editing(&self) -> (b: bool)
        ensures
            b == self@.filter_editing,
    {
        self.filter_editing
    }

    /// Whether timestamps are shown.
    pub fn show_timestamps(&self) -> (b: bool)
        ensures
            b == self@.show_timestamps,
    {
        self.show_timestamps
    }

    /// Whether line numbers are shown.
    pub fn show_line_numbers(&self) -> (b: bool)
        ensures
            b == self@.show_line_numbers,
    {
        self.show_line_numbers
    }
}

} // verus!
