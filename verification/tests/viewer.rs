use log_monitor::app::App;
use log_monitor::level::LogLevel;
use log_monitor::model::{Command, ViewMode};

fn lines(texts: &[&str]) -> Vec<String> {
    texts.iter().map(|s| s.to_string()).collect()
}

fn numbered(n: usize) -> Vec<String> {
    (0..n).map(|i| format!("line {}", i)).collect()
}

fn contents(app: &App) -> Vec<String> {
    (0..app.len()).map(|i| app.entry(i).content().to_string()).collect()
}

#[test]
fn new_viewer_starts_empty_and_following() {
    let app = App::new("/var/log/system.log".to_string());
    assert_eq!(app.log_path(), "/var/log/system.log");
    assert_eq!(app.max_lines(), 1000);
    assert_eq!(app.len(), 0);
    assert_eq!(app.filtered_len(), 0);
    assert_eq!(app.scroll(), 0);
    assert_eq!(app.selected_tab(), 0);
    assert!(app.follow_mode());
    assert_eq!(app.view_mode(), ViewMode::LogView);
    assert_eq!(app.filter_text(), "");
    assert!(!app.filter_editing());
    assert!(app.show_timestamps());
    assert!(app.show_line_numbers());
    assert_eq!(app.known_lines(), 0);
    assert_eq!(app.stats().total_entries(), 0);
}

#[test]
fn capacity_three_keeps_last_three() {
    let mut app = App::with_capacity("x.log".to_string(), 3);
    for line in ["A", "B", "C", "D"] {
        app.add_log_line(line);
    }
    assert_eq!(contents(&app), vec!["B", "C", "D"]);
    assert_eq!(app.filter_text(), "");
    assert_eq!(app.filtered_logs(), &vec![0, 1, 2]);
    assert_eq!(app.filtered_entry(0).content(), "B");
    assert_eq!(app.filtered_entry(2).content(), "D");
}

#[test]
fn buffer_never_exceeds_capacity() {
    let mut app = App::with_capacity("x.log".to_string(), 5);
    for i in 0..40 {
        app.add_log_line(&format!("entry {}", i));
        assert!(app.len() <= 5);
        assert_eq!(app.stats().total_entries(), app.len());
    }
    assert_eq!(contents(&app), vec!["entry 35", "entry 36", "entry 37", "entry 38", "entry 39"]);
}

#[test]
fn viewer_stats_of_two_entries() {
    let mut app = App::new("x.log".to_string());
    app.initialize_logs(
        &lines(&["2024-01-01 10:00:00 ERROR boom", "2024-01-01 11:00:00 INFO ok"]),
        100,
    );
    let stats = app.stats();
    assert_eq!(stats.error_count(), 1);
    assert_eq!(stats.info_count(), 1);
    assert_eq!(stats.hour_count("10"), 1);
    assert_eq!(stats.hour_count("11"), 1);
    assert_eq!(stats.hours().len(), 2);
    assert_eq!(app.entry(0).level(), LogLevel::Error);
}

#[test]
fn viewer_filter_fail() {
    let mut app = App::new("x.log".to_string());
    app.initialize_logs(&lines(&["connection fail", "all good", "failover started"]), 100);
    for c in "fail".chars() {
        app.add_filter_char(c);
    }
    assert_eq!(app.filter_text(), "fail");
    assert_eq!(app.filtered_logs(), &vec![0, 2]);
    assert_eq!(app.filtered_entry(1).content(), "failover started");
}

#[test]
fn follow_mode_tracks_new_entries_until_scroll_up() {
    let mut app = App::new("x.log".to_string());
    app.initialize_logs(&numbered(5), 100);
    assert!(app.follow_mode());
    assert_eq!(app.scroll(), 5);
    app.update_logs(500, &numbered(6));
    assert_eq!(app.filtered_len(), 6);
    assert_eq!(app.scroll(), 6);
    let quit = app.apply(Command::ScrollUp);
    assert!(!quit);
    assert_eq!(app.scroll(), 5);
    assert!(!app.follow_mode());
}

#[test]
fn page_down_clamps_to_filtered_length() {
    let mut app = App::new("x.log".to_string());
    app.initialize_logs(&numbered(5), 100);
    app.page_up();
    app.scroll_down();
    app.scroll_down();
    assert_eq!(app.scroll(), 2);
    assert_eq!(app.filtered_len(), 5);
    app.page_down();
    assert_eq!(app.scroll(), 5);
}

#[test]
fn page_commands_move_by_ten() {
    let mut app = App::new("x.log".to_string());
    app.initialize_logs(&numbered(40), 100);
    assert_eq!(app.scroll(), 40);
    app.page_up();
    assert_eq!(app.scroll(), 30);
    assert!(!app.follow_mode());
    app.page_up();
    app.page_up();
    assert_eq!(app.scroll(), 10);
    app.page_up();
    assert_eq!(app.scroll(), 0);
    app.page_up();
    assert_eq!(app.scroll(), 0);
    app.page_down();
    assert_eq!(app.scroll(), 10);
    assert!(!app.follow_mode());
    app.page_down();
    app.page_down();
    assert_eq!(app.scroll(), 30);
    app.page_down();
    assert_eq!(app.scroll(), 40);
}

#[test]
fn scroll_stays_within_the_filter_index() {
    let mut app = App::new("x.log".to_string());
    app.initialize_logs(&numbered(2), 100);
    app.scroll_down();
    assert_eq!(app.scroll(), 2);
    assert!(app.follow_mode());
    app.scroll_up();
    app.scroll_up();
    app.scroll_up();
    assert_eq!(app.scroll(), 0);
    app.scroll_down();
    assert_eq!(app.scroll(), 1);
    assert!(!app.follow_mode());
}

#[test]
fn toggle_follow_jumps_to_bottom_when_turned_on() {
    let mut app = App::new("x.log".to_string());
    app.initialize_logs(&numbered(8), 100);
    app.toggle_follow_mode();
    assert!(!app.follow_mode());
    assert_eq!(app.scroll(), 8);
    app.page_up();
    assert_eq!(app.scroll(), 0);
    app.toggle_follow_mode();
    assert!(app.follow_mode());
    assert_eq!(app.scroll(), 8);
}

#[test]
fn without_follow_mode_new_entries_leave_scroll() {
    let mut app = App::new("x.log".to_string());
    app.initialize_logs(&numbered(5), 100);
    app.scroll_up();
    assert_eq!(app.scroll(), 4);
    app.update_logs(1000, &numbered(9));
    assert_eq!(app.len(), 9);
    assert_eq!(app.scroll(), 4);
}

#[test]
fn follow_mode_holds_with_a_filter() {
    let mut app = App::new("x.log".to_string());
    app.initialize_logs(&lines(&["error a", "ok b", "error c"]), 100);
    for c in "error".chars() {
        app.add_filter_char(c);
    }
    assert_eq!(app.filtered_len(), 2);
    app.update_logs(600, &lines(&["error a", "ok b", "error c", "error d", "ok e"]));
    assert!(app.follow_mode());
    assert_eq!(app.filtered_logs(), &vec![0, 2, 3]);
    assert_eq!(app.scroll(), 3);
}

#[test]
fn initialize_takes_the_last_lines() {
    let mut app = App::new("x.log".to_string());
    app.initialize_logs(&numbered(250), 100);
    assert_eq!(app.len(), 100);
    assert_eq!(app.entry(0).content(), "line 150");
    assert_eq!(app.entry(99).content(), "line 249");
    assert_eq!(app.known_lines(), 250);
    assert_eq!(app.scroll(), 100);
}

#[test]
fn initialize_with_an_empty_file() {
    let mut app = App::new("x.log".to_string());
    app.initialize_logs(&Vec::new(), 100);
    assert_eq!(app.len(), 0);
    assert_eq!(app.scroll(), 0);
    assert_eq!(app.known_lines(), 0);
}

#[test]
fn poll_ingests_only_lines_beyond_the_known_ones() {
    let mut app = App::new("x.log".to_string());
    app.initialize_logs(&numbered(250), 100);
    app.update_logs(500, &numbered(252));
    assert_eq!(app.len(), 102);
    assert_eq!(app.entry(101).content(), "line 251");
    assert_eq!(app.known_lines(), 252);
}

#[test]
fn poll_is_throttled() {
    let mut app = App::new("x.log".to_string());
    assert!(!app.poll_due(0));
    assert!(!app.poll_due(499));
    assert!(app.poll_due(500));
    app.update_logs(499, &numbered(3));
    assert_eq!(app.len(), 0);
    app.update_logs(500, &numbered(3));
    assert_eq!(app.len(), 3);
    assert!(!app.poll_due(999));
    assert!(app.poll_due(1000));
    app.update_logs(999, &numbered(4));
    assert_eq!(app.len(), 3);
    app.update_logs(1000, &numbered(4));
    assert_eq!(app.len(), 4);
}

#[test]
fn poll_with_a_clock_that_went_back_is_not_due() {
    let mut app = App::new("x.log".to_string());
    app.update_logs(5000, &numbered(1));
    assert!(!app.poll_due(100));
    assert!(!app.poll_due(5499));
    assert!(app.poll_due(5500));
}

#[test]
fn shorter_file_changes_nothing_but_the_poll_time() {
    let mut app = App::new("x.log".to_string());
    app.initialize_logs(&numbered(5), 100);
    app.update_logs(500, &numbered(2));
    assert_eq!(app.len(), 5);
    assert_eq!(app.known_lines(), 5);
    assert!(!app.poll_due(900));
    app.update_logs(1000, &numbered(5));
    assert_eq!(app.len(), 5);
    app.update_logs(1500, &numbered(6));
    assert_eq!(app.len(), 6);
    assert_eq!(app.entry(5).content(), "line 5");
}

#[test]
fn filter_text_is_edited_character_by_character() {
    let mut app = App::new("x.log".to_string());
    app.initialize_logs(&lines(&["alpha", "beta", "gamma"]), 100);
    app.add_filter_char('a');
    assert_eq!(app.filter_text(), "a");
    assert_eq!(app.filtered_logs(), &vec![0, 1, 2]);
    app.add_filter_char('l');
    assert_eq!(app.filter_text(), "al");
    assert_eq!(app.filtered_logs(), &vec![0]);
    app.remove_filter_char();
    assert_eq!(app.filter_text(), "a");
    assert_eq!(app.filtered_logs(), &vec![0, 1, 2]);
    app.remove_filter_char();
    app.remove_filter_char();
    assert_eq!(app.filter_text(), "");
    app.add_filter_char('m');
    app.clear_filter();
    assert_eq!(app.filter_text(), "");
    assert_eq!(app.filtered_logs(), &vec![0, 1, 2]);
}

#[test]
fn narrowing_the_filter_pulls_scroll_back() {
    let mut app = App::new("x.log".to_string());
    app.initialize_logs(&lines(&["alpha", "beta", "gamma", "delta"]), 100);
    assert_eq!(app.scroll(), 4);
    app.add_filter_char('m');
    assert_eq!(app.filtered_logs(), &vec![2]);
    assert_eq!(app.scroll(), 1);
    app.clear_filter();
    assert_eq!(app.filtered_len(), 4);
    assert_eq!(app.scroll(), 1);
}

#[test]
fn update_filter_and_update_stats_are_idempotent() {
    let mut app = App::new("x.log".to_string());
    app.initialize_logs(&lines(&["error a", "ok b", "error c"]), 100);
    app.add_filter_char('e');
    let before = app.filtered_logs().clone();
    let scroll = app.scroll();
    app.update_filter();
    app.update_filter();
    app.update_stats();
    app.update_stats();
    assert_eq!(app.filtered_logs(), &before);
    assert_eq!(app.scroll(), scroll);
    assert_eq!(app.stats().error_count(), 2);
    assert_eq!(app.stats().total_entries(), 3);
}

#[test]
fn filter_edit_confirm_keeps_the_text() {
    let mut app = App::new("x.log".to_string());
    app.initialize_logs(&lines(&["alpha", "beta"]), 100);
    app.next_tab();
    assert_eq!(app.view_mode(), ViewMode::StatsView);
    app.enter_filter_edit();
    assert_eq!(app.view_mode(), ViewMode::FilterView);
    assert!(app.filter_editing());
    app.add_filter_char('b');
    app.confirm_filter();
    assert_eq!(app.view_mode(), ViewMode::LogView);
    assert_eq!(app.selected_tab(), 0);
    assert!(!app.filter_editing());
    assert_eq!(app.filter_text(), "b");
    assert_eq!(app.filtered_logs(), &vec![1]);
}

#[test]
fn filter_edit_cancel_restores_the_text() {
    let mut app = App::new("x.log".to_string());
    app.initialize_logs(&lines(&["alpha", "beta"]), 100);
    app.add_filter_char('b');
    app.enter_filter_edit();
    app.add_filter_char('z');
    assert_eq!(app.filtered_len(), 0);
    app.enter_filter_edit();
    app.cancel_filter();
    assert_eq!(app.view_mode(), ViewMode::LogView);
    assert!(!app.filter_editing());
    assert_eq!(app.filter_text(), "b");
    assert_eq!(app.filtered_logs(), &vec![1]);
    app.add_filter_char('e');
    app.cancel_filter();
    assert_eq!(app.filter_text(), "be");
}

#[test]
fn toggle_filter_mode_enters_and_confirms() {
    let mut app = App::new("x.log".to_string());
    app.toggle_filter_mode();
    assert!(app.filter_editing());
    assert_eq!(app.view_mode(), ViewMode::FilterView);
    app.add_filter_char('x');
    app.toggle_filter_mode();
    assert!(!app.filter_editing());
    assert_eq!(app.view_mode(), ViewMode::LogView);
    assert_eq!(app.filter_text(), "x");
}

#[test]
fn tabs_cycle_both_ways() {
    let mut app = App::new("x.log".to_string());
    app.next_tab();
    assert_eq!((app.selected_tab(), app.view_mode()), (1, ViewMode::StatsView));
    app.next_tab();
    assert_eq!((app.selected_tab(), app.view_mode()), (2, ViewMode::HelpView));
    app.next_tab();
    assert_eq!((app.selected_tab(), app.view_mode()), (0, ViewMode::LogView));
    app.prev_tab();
    assert_eq!((app.selected_tab(), app.view_mode()), (2, ViewMode::HelpView));
    app.prev_tab();
    assert_eq!((app.selected_tab(), app.view_mode()), (1, ViewMode::StatsView));
    app.prev_tab();
    assert_eq!((app.selected_tab(), app.view_mode()), (0, ViewMode::LogView));
}

#[test]
fn filter_view_is_no_part_of_the_tab_cycle() {
    let mut app = App::new("x.log".to_string());
    app.enter_filter_edit();
    app.next_tab();
    assert_eq!(app.view_mode(), ViewMode::FilterView);
    assert_eq!(app.selected_tab(), 0);
    app.prev_tab();
    assert_eq!(app.view_mode(), ViewMode::FilterView);
    assert!(app.filter_editing());
}

#[test]
fn display_toggles_flip() {
    let mut app = App::new("x.log".to_string());
    app.toggle_timestamps();
    assert!(!app.show_timestamps());
    assert!(app.show_line_numbers());
    app.toggle_line_numbers();
    assert!(!app.show_line_numbers());
    app.toggle_timestamps();
    assert!(app.show_timestamps());
}

#[test]
fn visible_range_leads_the_scroll_offset_by_ten() {
    let mut app = App::new("x.log".to_string());
    app.initialize_logs(&numbered(50), 100);
    assert_eq!(app.visible_range(20), (40, 50));
    assert_eq!(app.visible_range(5), (40, 45));
    assert_eq!(app.visible_range(0), (40, 40));
    app.page_up();
    app.page_up();
    assert_eq!(app.scroll(), 30);
    assert_eq!(app.visible_range(15), (20, 35));
    app.page_up();
    app.page_up();
    assert_eq!(app.scroll(), 10);
    assert_eq!(app.visible_range(15), (0, 15));
    assert_eq!(app.visible_range(usize::MAX), (0, 50));
}

#[test]
fn commands_do_what_the_methods_do() {
    let mut app = App::new("x.log".to_string());
    app.initialize_logs(&lines(&["alpha", "beta", "gamma"]), 100);
    assert!(!app.apply(Command::EnterFilterEdit));
    assert!(!app.apply(Command::FilterChar('a')));
    assert!(!app.apply(Command::FilterChar('l')));
    assert!(!app.apply(Command::FilterBackspace));
    assert!(!app.apply(Command::ConfirmFilter));
    assert_eq!(app.filter_text(), "a");
    assert!(!app.apply(Command::ClearFilter));
    assert_eq!(app.filter_text(), "");
    assert!(!app.apply(Command::PageUp));
    assert_eq!(app.scroll(), 0);
    assert!(!app.apply(Command::ScrollDown));
    assert_eq!(app.scroll(), 1);
    assert!(!app.apply(Command::PageDown));
    assert_eq!(app.scroll(), 3);
    assert!(!app.apply(Command::ToggleFollow));
    assert!(app.follow_mode());
    assert!(!app.apply(Command::ToggleTimestamps));
    assert!(!app.show_timestamps());
    assert!(!app.apply(Command::ToggleLineNumbers));
    assert!(!app.show_line_numbers());
    assert!(!app.apply(Command::NextTab));
    assert_eq!(app.view_mode(), ViewMode::StatsView);
    assert!(!app.apply(Command::PrevTab));
    assert_eq!(app.view_mode(), ViewMode::LogView);
    assert!(!app.apply(Command::EnterFilterEdit));
    assert!(!app.apply(Command::FilterChar('q')));
    assert!(!app.apply(Command::CancelFilter));
    assert_eq!(app.filter_text(), "");
    assert!(app.apply(Command::Quit));
    assert_eq!(app.len(), 3);
}

#[test]
fn failed_poll_waits_for_the_next_interval() {
    let mut app = App::new("x.log".to_string());
    app.initialize_logs(&numbered(3), 100);
    app.poll_failed(100);
    assert!(app.poll_due(500));
    app.poll_failed(700);
    assert!(!app.poll_due(1199));
    assert!(app.poll_due(1200));
    assert_eq!(app.len(), 3);
    assert_eq!(app.known_lines(), 3);
    assert_eq!(app.scroll(), 3);
    app.update_logs(1200, &numbered(4));
    assert_eq!(app.len(), 4);
}

#[test]
fn set_filter_text_replaces_the_filter() {
    let mut app = App::new("x.log".to_string());
    app.initialize_logs(&lines(&["connection fail", "all good", "failover started"]), 100);
    app.set_filter_text("FAIL".to_string());
    assert_eq!(app.filter_text(), "FAIL");
    assert_eq!(app.filtered_logs(), &vec![0, 2]);
    assert_eq!(app.scroll(), 2);
    app.set_filter_text(String::new());
    assert_eq!(app.filtered_logs(), &vec![0, 1, 2]);
}
