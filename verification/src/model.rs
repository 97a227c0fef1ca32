//! The viewer's state as a mathematical value, and every change of it as a
//! function from state to state.

use crate::entry::{entries_of, Entry};
use crate::level::LogLevel;
use crate::filter::{filter_index, lemma_empty_filter_is_identity, lemma_filter_index_exact};
use crate::stats::{lemma_level_counts_sum, stats_of, Statistics};
use crate::store::keep_last;
use vstd::prelude::*;

verus! {

/// Number of positions that a page command moves the scroll offset.
pub const PAGE_STEP: usize = 10;

/// Number of entries shown above the scroll offset.
pub const WINDOW_LEAD: usize = 10;

/// Least time between two polls of the log file, in milliseconds.
pub const POLL_INTERVAL_MS: u64 = 500;

/// Capacity of the entry store unless another is asked for.
pub const DEFAULT_MAX_LINES: usize = 1000;

/// Number of tabs: logs, statistics, help.
pub const TAB_COUNT: usize = 3;

/// What the viewer shows.
#[derive(Clone, Copy, Debug, PartialEq, Eq, Structural)]
pub enum ViewMode {
    LogView,
    StatsView,
    HelpView,
    FilterView,
}

/// A user's intent, as the input layer hands it over.
#[derive(Clone, Copy, Debug, PartialEq, Eq, Structural)]
pub enum Command {
    ScrollUp,
    ScrollDown,
    PageUp,
    PageDown,
    ToggleFollow,
    ToggleTimestamps,
    ToggleLineNumbers,
    EnterFilterEdit,
    FilterChar(char),
    FilterBackspace,
    ConfirmFilter,
    CancelFilter,
    ClearFilter,
    NextTab,
    PrevTab,
    Quit,
}

/// The view that a tab shows.
pub open spec fn tab_view(tab: nat) -> ViewMode {
    if tab == 0 {
        ViewMode::LogView
    } else if tab == 1 {
        ViewMode::StatsView
    } else {
        ViewMode::HelpView
    }
}

/// The smaller of two numbers.
pub open spec fn least(a: nat, b: nat) -> nat {
    if a <= b {
        a
    } else {
        b
    }
}

/// What is shown of one entry in the log view.
pub struct RowView {
    /// The line number, when line numbers are shown.
    pub number: Option<nat>,
    /// The timestamp, when timestamps are shown and the entry has one.
    pub timestamp: Option<Seq<char>>,
    /// The level of the entry.
    pub level: LogLevel,
    /// The full text of the entry.
    pub content: Seq<char>,
}

/// The whole state of the viewer.
pub struct AppState {
    /// Path of the log file.
    pub log_path: Seq<char>,
    /// The buffered entries, oldest first.
    pub entries: Seq<Entry>,
    /// Capacity of the buffer.
    pub max_lines: nat,
    /// Number of lines that the file had when it was last read.
    pub known_lines: nat,
    /// Time of the last poll, in milliseconds since the viewer started.
    pub last_update: nat,
    /// The filter index: positions of the matching entries.
    pub filtered: Seq<int>,
    /// Scroll offset, a position in the filter index.
    pub scroll: nat,
    /// The tab that is selected.
    pub selected_tab: nat,
    /// Whether the view follows new entries.
    pub follow_mode: bool,
    /// What is shown.
    pub view_mode: ViewMode,
    /// Statistics of the buffer.
    pub stats: Statistics,
    /// The filter text.
    pub filter_text: Seq<char>,
    /// The filter text as it was when editing began.
    pub saved_filter: Seq<char>,
    /// Whether the filter text is being edited.
    pub filter_editing: bool,
    /// Whether timestamps are shown.
    pub show_timestamps: bool,
    /// Whether line numbers are shown.
    pub show_line_numbers: bool,
}

impl AppState {
    /// The buffer is within its capacity.
    pub open spec fn store_inv(self) -> bool {
        self.entries.len() <= self.max_lines
    }

    /// The filter index is that of the buffer and the filter text, and the
    /// scroll offset is a position in it or just past its end.
    pub open spec fn filter_inv(self) -> bool {
        &&& self.filtered == filter_index(self.entries, self.filter_text)
        &&& self.scroll <= self.filtered.len()
    }

    /// The statistics are those of the buffer.
    pub open spec fn stats_inv(self) -> bool {
        self.stats == stats_of(self.entries)
    }

    /// The filter text is edited exactly in the filter view, and any other
    /// view is that of the selected tab.
    pub open spec fn mode_inv(self) -> bool {
        &&& self.selected_tab < TAB_COUNT
        &&& self.filter_editing == (self.view_mode == ViewMode::FilterView)
        &&& self.view_mode != ViewMode::FilterView ==> self.view_mode == tab_view(
            self.selected_tab,
        )
    }

    /// Everything that holds of the state between any two operations.
    pub open spec fn inv(self) -> bool {
        &&& self.store_inv()
        &&& self.filter_inv()
        &&& self.stats_inv()
        &&& self.mode_inv()
    }

    /// The state at startup.
    pub open spec fn initial(log_path: Seq<char>, max_lines: nat) -> AppState {
        AppState {
            log_path,
            entries: Seq::empty(),
            max_lines,
            known_lines: 0,
            last_update: 0,
            filtered: Seq::empty(),
            scroll: 0,
            selected_tab: 0,
            follow_mode: true,
            view_mode: ViewMode::LogView,
            stats: stats_of(Seq::empty()),
            filter_text: Seq::empty(),
            saved_filter: Seq::empty(),
            filter_editing: false,
            show_timestamps: true,
            show_line_numbers: true,
        }
    }

    /// Rebuilds the filter index from the buffer and the filter text. A
    /// scroll offset past the end of the new index moves to its end.
    pub open spec fn refilter(self) -> AppState {
        let filtered = filter_index(self.entries, self.filter_text);
        AppState { filtered, scroll: least(self.scroll, filtered.len()), ..self }
    }

    /// Recomputes the statistics from the buffer.
    pub open spec fn restat(self) -> AppState {
        AppState { stats: stats_of(self.entries), ..self }
    }

    /// Rebuilds statistics and filter index from the buffer as it is. In
    /// follow mode the scroll offset moves to the end of the new index;
    /// otherwise it stays, unless it lies past that end.
    pub open spec fn refresh(self) -> AppState {
        let filtered = filter_index(self.entries, self.filter_text);
        AppState {
            stats: stats_of(self.entries),
            filtered,
            scroll: if self.follow_mode {
                filtered.len()
            } else {
                least(self.scroll, filtered.len())
            },
            ..self
        }
    }

    /// One ingestion batch: the lines are appended in order, the oldest
    /// entries beyond the capacity are evicted, statistics and filter index
    /// are rebuilt, and in follow mode the scroll offset moves to the end of
    /// the new index.
    pub open spec fn ingest(self, lines: Seq<Seq<char>>) -> AppState {
        AppState {
            entries: keep_last(self.entries + entries_of(lines), self.max_lines),
            ..self
        }.refresh()
    }

    /// The initial read: the last `num_lines` lines of the file are
    /// ingested, and all lines of the file count as known.
    pub open spec fn initialize(self, lines: Seq<Seq<char>>, num_lines: nat) -> AppState {
        AppState { known_lines: lines.len(), ..self.ingest(keep_last(lines, num_lines)) }
    }

    /// Whether enough time has passed since the last poll.
    pub open spec fn poll_due(self, now: nat) -> bool {
        now >= self.last_update + POLL_INTERVAL_MS
    }

    /// One poll at time `now`, with all the lines that the file holds.
    ///
    /// A poll that comes too early changes nothing. Otherwise, when the file
    /// has more lines than are known, the lines beyond the known ones are
    /// ingested. A file with no more lines than are known, be it unchanged
    /// or truncated, leaves buffer and known count as they are.
    pub open spec fn poll(self, now: nat, lines: Seq<Seq<char>>) -> AppState {
        if !self.poll_due(now) {
            self
        } else if lines.len() > self.known_lines {
            AppState {
                known_lines: lines.len(),
                last_update: now,
                ..self.ingest(lines.subrange(self.known_lines as int, lines.len() as int))
            }
        } else {
            AppState { last_update: now, ..self }
        }
    }

    /// A poll at time `now` that could not read the file. Buffer, filter
    /// index and statistics stay as they are; when the poll was due, its
    /// time is taken down, so that the next attempt comes one interval
    /// later.
    pub open spec fn poll_failed(self, now: nat) -> AppState {
        if self.poll_due(now) {
            AppState { last_update: now, ..self }
        } else {
            self
        }
    }

    /// One position up; leaves follow mode.
    pub open spec fn scroll_up(self) -> AppState {
        AppState {
            scroll: if self.scroll > 0 {
                (self.scroll - 1) as nat
            } else {
                0
            },
            follow_mode: false,
            ..self
        }
    }

    /// One position down, not past the end of the filter index.
    pub open spec fn scroll_down(self) -> AppState {
        AppState {
            scroll: if self.scroll < self.filtered.len() {
                self.scroll + 1
            } else {
                self.scroll
            },
            ..self
        }
    }

    /// One page up, not past the start; leaves follow mode.
    pub open spec fn page_up(self) -> AppState {
        AppState {
            scroll: if self.scroll > PAGE_STEP {
                (self.scroll - PAGE_STEP) as nat
            } else {
                0
            },
            follow_mode: false,
            ..self
        }
    }

    /// One page down, stopping at the end of the filter index.
    pub open spec fn page_down(self) -> AppState {
        AppState {
            scroll: if self.scroll + PAGE_STEP < self.filtered.len() {
                (self.scroll + PAGE_STEP) as nat
            } else {
                self.filtered.len()
            },
            ..self
        }
    }

    /// Flips follow mode; turning it on moves the scroll offset to the end
    /// of the filter index.
    pub open spec fn toggle_follow_mode(self) -> AppState {
        AppState {
            follow_mode: !self.follow_mode,
            scroll: if !self.follow_mode {
                self.filtered.len()
            } else {
                self.scroll
            },
            ..self
        }
    }

    /// Flips the display of timestamps.
    pub open spec fn toggle_timestamps(self) -> AppState {
        AppState { show_timestamps: !self.show_timestamps, ..self }
    }

    /// Flips the display of line numbers.
    pub open spec fn toggle_line_numbers(self) -> AppState {
        AppState { show_line_numbers: !self.show_line_numbers, ..self }
    }

    /// Replaces the filter text and rebuilds the filter index.
    pub open spec fn set_filter_text(self, text: Seq<char>) -> AppState {
        AppState { filter_text: text, ..self }.refilter()
    }

    /// Appends a character to the filter text and rebuilds the index.
    pub open spec fn add_filter_char(self, c: char) -> AppState {
        self.set_filter_text(self.filter_text.push(c))
    }

    /// Removes the last character of the filter text, if it has one, and
    /// rebuilds the index.
    pub open spec fn remove_filter_char(self) -> AppState {
        self.set_filter_text(
            if self.filter_text.len() > 0 {
                self.filter_text.drop_last()
            } else {
                self.filter_text
            },
        )
    }

    /// Empties the filter text and rebuilds the index.
    pub open spec fn clear_filter(self) -> AppState {
        self.set_filter_text(Seq::empty())
    }

    /// Starts editing the filter text and remembers the text as it is.
    /// While the text is edited already, nothing changes.
    pub open spec fn enter_filter_edit(self) -> AppState {
        if self.filter_editing {
            self
        } else {
            AppState {
                view_mode: ViewMode::FilterView,
                filter_editing: true,
                saved_filter: self.filter_text,
                ..self
            }
        }
    }

    /// Ends editing and keeps the filter text; the log view is shown.
    pub open spec fn confirm_filter(self) -> AppState {
        AppState {
            view_mode: ViewMode::LogView,
            selected_tab: 0,
            filter_editing: false,
            ..self
        }.refilter()
    }

    /// Ends editing and puts back the filter text that was remembered when
    /// editing began; the log view is shown.
    pub open spec fn cancel_filter(self) -> AppState {
        AppState {
            view_mode: ViewMode::LogView,
            selected_tab: 0,
            filter_editing: false,
            filter_text: if self.filter_editing {
                self.saved_filter
            } else {
                self.filter_text
            },
            ..self
        }.refilter()
    }

    /// Starts editing when the text is not edited, confirms when it is.
    pub open spec fn toggle_filter_mode(self) -> AppState {
        if self.filter_editing {
            self.confirm_filter()
        } else {
            self.enter_filter_edit()
        }
    }

    /// Selects a tab and shows its view.
    pub open spec fn select_tab(self, tab: nat) -> AppState {
        AppState { selected_tab: tab, view_mode: tab_view(tab), ..self }
    }

    /// The next tab in the cycle logs, statistics, help. The filter view is
    /// no part of the cycle: while it is shown, nothing changes.
    pub open spec fn next_tab(self) -> AppState {
        if self.view_mode == ViewMode::FilterView {
            self
        } else {
            self.select_tab((self.selected_tab + 1) % (TAB_COUNT as nat))
        }
    }

    /// The previous tab in the cycle. While the filter view is shown,
    /// nothing changes.
    pub open spec fn prev_tab(self) -> AppState {
        if self.view_mode == ViewMode::FilterView {
            self
        } else if self.selected_tab > 0 {
            self.select_tab((self.selected_tab - 1) as nat)
        } else {
            self.select_tab((TAB_COUNT - 1) as nat)
        }
    }

    /// The state after a command. `Quit` changes nothing: it is for the
    /// caller to stop.
    pub open spec fn apply(self, command: Command) -> AppState {
        match command {
            Command::ScrollUp => self.scroll_up(),
            Command::ScrollDown => self.scroll_down(),
            Command::PageUp => self.page_up(),
            Command::PageDown => self.page_down(),
            Command::ToggleFollow => self.toggle_follow_mode(),
            Command::ToggleTimestamps => self.toggle_timestamps(),
            Command::ToggleLineNumbers => self.toggle_line_numbers(),
            Command::EnterFilterEdit => self.enter_filter_edit(),
            Command::FilterChar(c) => self.add_filter_char(c),
            Command::FilterBackspace => self.remove_filter_char(),
            Command::ConfirmFilter => self.confirm_filter(),
            Command::CancelFilter => self.cancel_filter(),
            Command::ClearFilter => self.clear_filter(),
            Command::NextTab => self.next_tab(),
            Command::PrevTab => self.prev_tab(),
            Command::Quit => self,
        }
    }

    /// The window of the filter index that a viewport of `height` rows
    /// shows: it starts `WINDOW_LEAD` positions above the scroll offset, or
    /// at the start, and ends after `height` positions or at the end of the
    /// index.
    pub open spec fn window(self, height: nat) -> (nat, nat) {
        let start = if self.scroll > WINDOW_LEAD {
            (self.scroll - WINDOW_LEAD) as nat
        } else {
            0
        };
        (start, least(start + height, self.filtered.len()))
    }

    /// The row for position `k` of the filter index. Rows are numbered from
    /// one, by their place in the filter index.
    pub open spec fn row(self, k: int) -> RowView {
        let e = self.entries[self.filtered[k]];
        RowView {
            number: if self.show_line_numbers {
                Some((k + 1) as nat)
            } else {
                None
            },
            timestamp: if self.show_timestamps && e.timestamp.len() > 0 {
                Some(e.timestamp)
            } else {
                None
            },
            level: e.level,
            content: e.content,
        }
    }
}

/// The state at startup satisfies the invariant.
pub proof fn lemma_initial_inv(log_path: Seq<char>, max_lines: nat)
    ensures
        AppState::initial(log_path, max_lines).inv(),
{
    let s = AppState::initial(log_path, max_lines);
    lemma_empty_filter_is_identity(s.entries, s.filter_text);
    assert(s.filtered =~= filter_index(s.entries, s.filter_text));
}

/// Rebuilding the filter index establishes its part of the invariant and
/// touches nothing but the index and the scroll offset.
pub proof fn lemma_refilter_inv(s: AppState)
    ensures
        s.refilter().filter_inv(),
        s.store_inv() ==> s.refilter().store_inv(),
        s.stats_inv() ==> s.refilter().stats_inv(),
        s.mode_inv() ==> s.refilter().mode_inv(),
        s.filter_inv() ==> s.refilter() == s,
{
}

/// Rebuilding the filter index twice, with buffer and filter text
/// unchanged, gives what rebuilding it once gives.
pub proof fn lemma_refilter_idempotent(s: AppState)
    ensures
        s.refilter().refilter() == s.refilter(),
{
}

/// Recomputing the statistics establishes their part of the invariant, and
/// doing it twice gives what doing it once gives.
pub proof fn lemma_restat_inv(s: AppState)
    ensures
        s.restat().stats_inv(),
        s.restat().restat() == s.restat(),
        s.stats_inv() ==> s.restat() == s,
{
}

/// After an ingestion batch the buffer is within its capacity and holds
/// the most recent entries, statistics and filter index are those of the
/// new buffer, and in follow mode the scroll offset is at the end of the
/// filter index.
pub proof fn lemma_ingest(s: AppState, lines: Seq<Seq<char>>)
    ensures
        s.ingest(lines).entries == keep_last(s.entries + entries_of(lines), s.max_lines),
        s.ingest(lines).store_inv(),
        s.ingest(lines).filter_inv(),
        s.ingest(lines).stats_inv(),
        s.mode_inv() ==> s.ingest(lines).mode_inv(),
        s.ingest(lines).follow_mode == s.follow_mode,
        s.ingest(lines).follow_mode ==> s.ingest(lines).scroll == s.ingest(lines).filtered.len(),
{
}

/// After the initial read the invariant holds, and in follow mode the
/// scroll offset is at the end of the filter index.
pub proof fn lemma_initialize(s: AppState, lines: Seq<Seq<char>>, num_lines: nat)
    requires
        s.mode_inv(),
    ensures
        s.initialize(lines, num_lines).inv(),
        s.initialize(lines, num_lines).follow_mode ==> s.initialize(lines, num_lines).scroll
            == s.initialize(lines, num_lines).filtered.len(),
{
    lemma_ingest(s, keep_last(lines, num_lines));
}

/// A poll keeps the invariant. When it ingests lines, which it does exactly
/// when it is due and the file has more lines than are known, the scroll
/// offset in follow mode is at the end of the filter index afterwards.
pub proof fn lemma_poll(s: AppState, now: nat, lines: Seq<Seq<char>>)
    requires
        s.inv(),
    ensures
        s.poll(now, lines).inv(),
        s.poll_due(now) && lines.len() > s.known_lines && s.poll(now, lines).follow_mode
            ==> s.poll(now, lines).scroll == s.poll(now, lines).filtered.len(),
        !s.poll_due(now) ==> s.poll(now, lines) == s,
        s.poll_due(now) && lines.len() <= s.known_lines ==> s.poll(now, lines) == (AppState {
            last_update: now,
            ..s
        }),
{
    if s.poll_due(now) && lines.len() > s.known_lines {
        lemma_ingest(s, lines.subrange(s.known_lines as int, lines.len() as int));
    }
}

/// A failed poll keeps the invariant and changes nothing but the time of
/// the last poll.
pub proof fn lemma_poll_failed(s: AppState, now: nat)
    requires
        s.inv(),
    ensures
        s.poll_failed(now).inv(),
        s.poll_failed(now) == (AppState { last_update: s.poll_failed(now).last_update, ..s }),
{
}

/// Every command keeps the invariant.
pub proof fn lemma_apply_inv(s: AppState, command: Command)
    requires
        s.inv(),
    ensures
        s.apply(command).inv(),
{
    match command {
        Command::FilterChar(c) => {
            lemma_refilter_inv(AppState { filter_text: s.filter_text.push(c), ..s });
        },
        _ => {},
    }
}

/// In a state that satisfies the invariant the level counts add up to the
/// total, and the total is the number of buffered entries.
pub proof fn lemma_stats_consistent(s: AppState)
    requires
        s.inv(),
    ensures
        s.stats.balanced(),
        s.stats.total == s.entries.len(),
        s.stats.errors + s.stats.warnings + s.stats.infos + s.stats.debugs + s.stats.unknowns
            == s.entries.len(),
{
    lemma_level_counts_sum(s.entries);
}

/// In a state that satisfies the invariant every position of the filter
/// index is a position of the buffer, and the index is no longer than the
/// buffer.
pub proof fn lemma_filtered_in_range(s: AppState)
    requires
        s.inv(),
    ensures
        s.filtered.len() <= s.entries.len(),
        s.scroll <= s.entries.len(),
        forall|k: int| 0 <= k < s.filtered.len() ==> 0 <= #[trigger] s.filtered[k] < s.entries.len(),
{
    lemma_filter_index_exact(s.entries, s.filter_text);
}

/// The window lies within the filter index.
pub proof fn lemma_window_bounds(s: AppState, height: nat)
    requires
        s.inv(),
    ensures
        s.window(height).0 <= s.window(height).1 <= s.filtered.len(),
        s.window(height).1 - s.window(height).0 <= height,
{
}

} // verus!
