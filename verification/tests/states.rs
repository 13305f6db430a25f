use app_state::mission::{
    Action, AutoRefresh, Export, Internal, Job, KeyBinding, KeyBindings, Mission, Settings,
};
use app_state::output::{CommandOutput, CommandOutputLine};
use app_state::report::{CommandResult, Failure, Line, LineType, Report, Stats};
use app_state::scroll::ScrollCommand;
use app_state::state::AppState;
use app_state::tline::TLine;

fn settings() -> Settings {
    Settings {
        summary: false,
        wrap: false,
        reverse: false,
        show_changes_count: false,
        help_line: true,
        help_page_height: 50,
        keybindings: KeyBindings {
            bindings: vec![KeyBinding {
                key: "q".to_string(),
                action: Action::Internal(Internal::Quit),
            }],
        },
        exports: vec![
            Export { name: "locations".to_string(), auto: true },
            Export { name: "analysis".to_string(), auto: false },
            Export { name: "json".to_string(), auto: true },
        ],
    }
}

fn mission(settings: &Settings) -> Mission<'_> {
    Mission {
        location_name: "proj".to_string(),
        job_name: "check".to_string(),
        job: Job { background: false, on_success: None },
        settings,
    }
}

fn line(text: &str) -> CommandOutputLine {
    CommandOutputLine { content: TLine::from_raw(text.to_string()) }
}

fn output(count: usize) -> CommandOutput {
    CommandOutput {
        lines: (0..count).map(|i| line(&format!("line {}", i))).collect(),
    }
}

/// three lines by item: a title, a location and a normal one
fn report(items: usize, output_lines: usize) -> Report {
    let mut lines = Vec::new();
    for item_idx in 1..=items {
        for line_type in [LineType::Title, LineType::Location, LineType::Normal] {
            lines.push(Line {
                item_idx,
                line_type,
                marker_cols: 3,
                content: TLine::from_raw(format!("some content {}", item_idx)),
            });
        }
    }
    Report {
        output: output(output_lines),
        lines,
        stats: Stats {
            errors: items,
            test_fails: 0,
            passed_tests: 0,
            warnings: 0,
            full_lines: 3 * items,
            summary_lines: 2 * items,
        },
        success: false,
    }
}

fn success(output_lines: usize) -> Report {
    Report { success: true, ..report(0, output_lines) }
}

fn failure(output_lines: usize) -> CommandResult {
    CommandResult::Failure(Failure { error_code: 2, output: output(output_lines) })
}

#[test]
fn initial_state() {
    let settings = settings();
    let state = AppState::new(mission(&settings), 80, 23);
    assert!(state.is_computing());
    assert!(!state.has_report());
    assert!(!state.is_help());
    assert!(!state.is_searching());
    assert!(state.action().is_none());
    assert_eq!(state.content_height(), 0);
    assert_eq!(state.page_height(), 20);
    assert!(state.is_scroll_at_bottom());
    assert_eq!(state.keybindings().bindings[0].key, "q");
    assert!(!state.wrap);
    assert!(state.backtrace.is_none());
}

#[test]
fn small_screens_have_no_page() {
    let settings = settings();
    for (height, page_height) in [(0, 0), (2, 0), (3, 0), (4, 1), (65535, 65532)] {
        assert_eq!(AppState::new(mission(&settings), 80, height).page_height(), page_height);
    }
}

#[test]
fn lines_are_added_and_taken() {
    let settings = settings();
    let mut state = AppState::new(mission(&settings), 80, 23);
    assert!(state.take_output().is_none());
    state.add_line(line("a"));
    state.add_line(line("b"));
    assert_eq!(state.content_height(), 2);
    let taken = state.take_output().unwrap();
    assert_eq!(taken.lines[0].content.combined_raw(), "a");
    assert_eq!(taken.lines[1].content.combined_raw(), "b");
    assert_eq!(state.content_height(), 0);
    assert!(state.take_output().is_none());
}

#[test]
fn bottom_is_followed() {
    let settings = settings();
    let mut state = AppState::new(mission(&settings), 80, 23);
    for i in 0..50 {
        state.add_line(line(&format!("{}", i)));
        assert!(state.is_scroll_at_bottom());
    }
    // the user goes up
    state.apply_scroll_command(ScrollCommand::Lines(-5));
    assert!(!state.is_scroll_at_bottom());
    state.add_line(line("more"));
    assert!(!state.is_scroll_at_bottom());
    // the bottom has not been followed: it's 6 lines below
    state.apply_scroll_command(ScrollCommand::Lines(4));
    assert!(!state.is_scroll_at_bottom());
    state.apply_scroll_command(ScrollCommand::Lines(1));
    assert!(state.is_scroll_at_bottom());
}

#[test]
fn one_line_below_is_the_bottom() {
    let settings = settings();
    let mut state = AppState::new(mission(&settings), 80, 23);
    state.set_result(failure(30));
    // 10 lines are hidden
    assert!(!state.is_scroll_at_bottom());
    state.apply_scroll_command(ScrollCommand::Lines(8));
    assert!(!state.is_scroll_at_bottom());
    state.apply_scroll_command(ScrollCommand::Lines(1));
    assert!(state.is_scroll_at_bottom());
}

#[test]
fn bottom_is_followed_when_wrapping() {
    let settings = Settings { wrap: true, ..settings() };
    let mut state = AppState::new(mission(&settings), 11, 8);
    for _ in 0..5 {
        state.add_line(line("0123456789ABCDEFGHIJ?"));
    }
    // 10 columns are used, the first line being added before any wrapping
    assert_eq!(state.content_height(), 15);
    assert!(state.is_scroll_at_bottom());
}

#[test]
fn task_has_the_backtrace() {
    let settings = settings();
    let mut state = AppState::new(mission(&settings), 80, 23);
    assert!(state.new_task().backtrace.is_none());
    state.toggle_backtrace("1");
    assert_eq!(state.new_task().backtrace, Some("1"));
    state.toggle_backtrace("full");
    assert_eq!(state.start_computation().backtrace, Some("full"));
    state.toggle_backtrace("full");
    assert!(state.new_task().backtrace.is_none());
}

#[test]
fn result_ends_the_computation() {
    let settings = settings();
    let mut state = AppState::new(mission(&settings), 80, 23);
    state.add_line(line("a"));
    state.toggle_raw_output();
    let exports = state.set_result(CommandResult::Report(report(4, 7)));
    assert_eq!(exports, vec![0, 2]);
    assert!(!state.is_computing());
    assert!(state.has_report());
    // the report, not the raw output
    assert_eq!(state.content_height(), 12);
    state.toggle_raw_output();
    assert_eq!(state.content_height(), 7);
    state.toggle_raw_output();
    assert_eq!(state.content_height(), 12);
    // the output isn't lost
    assert_eq!(state.take_output().unwrap().len(), 1);
}

#[test]
fn success_shows_the_output() {
    let settings = settings();
    let mut state = AppState::new(mission(&settings), 80, 23);
    state.set_result(CommandResult::Report(success(33)));
    assert_eq!(state.content_height(), 33);
    assert!(state.report_to_draw().is_none());
    state.set_result(CommandResult::Report(report(1, 33)));
    assert!(state.report_to_draw().is_some());
    state.set_result(failure(5));
    assert!(!state.has_report());
    assert_eq!(state.content_height(), 5);
}

#[test]
fn scroll_is_kept_when_the_count_is_the_same() {
    let settings = settings();
    let mut state = AppState::new(mission(&settings), 80, 23);
    state.set_result(CommandResult::Report(report(20, 0)));
    state.scroll_to_bottom();
    state.set_result(CommandResult::Report(report(20, 5)));
    assert!(state.is_scroll_at_bottom());
    state.set_result(CommandResult::Report(report(21, 5)));
    assert!(!state.is_scroll_at_bottom());
}

#[test]
fn reverse_starts_from_the_bottom() {
    let settings = Settings { reverse: true, ..settings() };
    let mut state = AppState::new(mission(&settings), 80, 23);
    state.set_result(CommandResult::Report(report(20, 0)));
    assert!(state.is_scroll_at_bottom());
    if let CommandResult::Report(report) = &state.cmd_result {
        assert_eq!(report.lines[0].item_idx, 20);
        assert!(matches!(report.lines[0].line_type, LineType::Title));
        assert_eq!(report.lines[59].item_idx, 1);
    } else {
        panic!("no report");
    }
}

#[test]
fn blank_last_line_is_removed() {
    let settings = settings();
    let mut state = AppState::new(mission(&settings), 80, 23);
    let mut with_blank = report(2, 0);
    with_blank.lines.push(Line {
        item_idx: 2,
        line_type: LineType::Normal,
        marker_cols: 0,
        content: TLine::from_raw("  ".to_string()),
    });
    state.set_result(CommandResult::Report(with_blank));
    if let CommandResult::Report(report) = &state.cmd_result {
        assert_eq!(report.lines.len(), 6);
    } else {
        panic!("no report");
    }
}

#[test]
fn start_forgets_the_previous_job() {
    let settings = settings();
    let mut state = AppState::new(mission(&settings), 80, 23);
    state.add_line(line("a"));
    state.set_result(CommandResult::Report(report(4, 7)));
    state.receive_watch_event();
    state.computation_starts();
    assert!(state.is_computing());
    assert!(!state.has_report());
    assert_eq!(state.content_height(), 0);
    assert_eq!(state.changes_since_last_job_start, 0);
    assert!(state.take_output().is_none());
    state.computation_stops();
    assert!(!state.is_computing());
}

#[test]
fn background_job_keeps_the_previous_result() {
    let settings = settings();
    let mut m = mission(&settings);
    m.job.background = true;
    let mut state = AppState::new(m, 80, 23);
    state.set_result(CommandResult::Report(report(4, 7)));
    state.computation_starts();
    assert!(state.is_computing());
    assert!(state.has_report());
    assert_eq!(state.content_height(), 12);
}

#[test]
fn clear_forgets_everything() {
    let settings = settings();
    let mut state = AppState::new(mission(&settings), 80, 23);
    state.add_line(line("a"));
    state.set_result(failure(3));
    state.clear();
    assert_eq!(state.content_height(), 0);
    assert!(state.take_output().is_none());
    assert!(matches!(state.cmd_result, CommandResult::Nothing));
}

#[test]
fn changes_ask_for_a_run() {
    let settings = settings();
    let mut state = AppState::new(mission(&settings), 80, 23);
    assert!(state.action().is_none());
    state.receive_watch_event();
    assert!(matches!(state.action(), Some(Action::Internal(Internal::ReRun))));
    state.auto_refresh = AutoRefresh::Paused;
    assert!(state.action().is_none());
    state.auto_refresh = AutoRefresh::Enabled;
    state.computation_starts();
    assert!(state.action().is_none());
}

#[test]
fn success_action_comes_first() {
    let settings = settings();
    let mut m = mission(&settings);
    m.job.on_success = Some(Action::Job("run".to_string()));
    let mut state = AppState::new(m, 80, 23);
    state.receive_watch_event();
    state.set_result(CommandResult::Report(report(1, 1)));
    assert!(matches!(state.action(), Some(Action::Internal(Internal::ReRun))));
    state.set_result(CommandResult::Report(success(1)));
    assert!(matches!(state.action(), Some(Action::Job(name)) if name == "run"));
}

#[test]
fn help_is_toggled_and_closed() {
    let settings = settings();
    let mut state = AppState::new(mission(&settings), 80, 23);
    assert!(!state.close_help());
    state.toggle_help();
    assert!(state.is_help());
    assert!(state.close_help());
    assert!(!state.is_help());
    state.toggle_help();
    state.toggle_help();
    assert!(!state.is_help());
}

#[test]
fn help_is_scrolled_alone() {
    let settings = settings();
    let mut state = AppState::new(mission(&settings), 80, 23);
    state.set_result(failure(100));
    state.toggle_help();
    state.apply_scroll_command(ScrollCommand::Bottom);
    state.close_help();
    assert!(!state.is_scroll_at_bottom());
    state.apply_scroll_command(ScrollCommand::Bottom);
    assert!(state.is_scroll_at_bottom());
}

#[test]
fn summary_has_less_lines() {
    let settings = settings();
    let mut state = AppState::new(mission(&settings), 80, 23);
    state.set_result(CommandResult::Report(report(10, 0)));
    assert_eq!(state.content_height(), 30);
    state.toggle_summary_mode();
    assert_eq!(state.content_height(), 20);
    state.toggle_summary_mode();
    assert_eq!(state.content_height(), 30);
}

#[test]
fn wrapped_report_height() {
    let settings = Settings { wrap: true, ..settings() };
    // 10 columns, 4 of them for the marker: the 14 characters take 3 rows
    let mut state = AppState::new(mission(&settings), 11, 23);
    state.set_result(CommandResult::Report(report(4, 0)));
    assert_eq!(state.content_height(), 36);
    state.toggle_summary_mode();
    assert_eq!(state.content_height(), 24);
    state.toggle_summary_mode();
    // wider
    state.resize(80, 23);
    assert_eq!(state.content_height(), 12);
    // same width: nothing to wrap again
    state.resize(80, 10);
    assert_eq!(state.content_height(), 12);
    assert_eq!(state.page_height(), 7);
}

#[test]
fn resize_brings_the_scroll_back() {
    let settings = settings();
    let mut state = AppState::new(mission(&settings), 80, 23);
    state.set_result(CommandResult::Report(report(20, 0)));
    state.scroll_to_bottom();
    state.resize(80, 33);
    // no draw: the top item is unknown
    assert!(!state.is_scroll_at_bottom());
    assert_eq!(state.get_last_item_scroll(), 0);
}

#[test]
fn scroll_is_reset() {
    let settings = settings();
    let mut state = AppState::new(mission(&settings), 80, 23);
    state.set_result(failure(100));
    state.scroll_to_bottom();
    assert!(state.is_scroll_at_bottom());
    state.fix_scroll();
    assert!(state.is_scroll_at_bottom());
    state.reset_scroll();
    assert!(!state.is_scroll_at_bottom());
    state.scroll_to_bottom();
    state.scroll_to_top();
    assert!(!state.is_scroll_at_bottom());
}

#[test]
fn changes_are_counted_from_the_start() {
    let settings = settings();
    let mut state = AppState::new(mission(&settings), 80, 23);
    state.receive_watch_event();
    state.start_computation();
    for _ in 0..3 {
        state.receive_watch_event();
    }
    assert_eq!(state.changes_since_last_job_start, 3);
}

#[test]
fn position_is_kept_when_wrapping() {
    let settings = Settings { wrap: true, ..settings() };
    let mut state = AppState::new(mission(&settings), 11, 8);
    for _ in 0..5 {
        state.add_line(line("0123456789ABCDEFGHIJ?"));
    }
    // 15 rows in a page of 5, then 18
    state.apply_scroll_command(ScrollCommand::Lines(-4));
    assert!(!state.is_scroll_at_bottom());
    state.add_line(line("0123456789ABCDEFGHIJ?"));
    assert_eq!(state.content_height(), 18);
    state.apply_scroll_command(ScrollCommand::Lines(5));
    assert!(!state.is_scroll_at_bottom());
    state.apply_scroll_command(ScrollCommand::Lines(1));
    assert!(state.is_scroll_at_bottom());
}

#[test]
fn output_is_wrapped_for_the_screen() {
    let settings = Settings { wrap: true, ..settings() };
    let mut state = AppState::new(mission(&settings), 11, 8);
    for _ in 0..2 {
        state.add_line(line("0123456789ABCDEFGHIJ?"));
    }
    assert_eq!(state.content_height(), 6);
    // lines which come when they aren't wrapped are wrapped later
    state.toggle_wrap_mode();
    state.add_line(line("0123456789ABCDEFGHIJ?"));
    assert_eq!(state.content_height(), 3);
    state.toggle_wrap_mode();
    state.resize(11, 9);
    assert_eq!(state.content_height(), 9);
    state.resize(12, 9);
    assert_eq!(state.content_height(), 6);
}

#[test]
fn lines_cannot_be_wrapped_without_columns() {
    let settings = Settings { wrap: true, ..settings() };
    let mut state = AppState::new(mission(&settings), 0, 8);
    assert!(!state.can_wrap());
    assert!(state.can_add_line());
    state.add_line(line("a"));
    assert!(!state.can_add_line());
    state.resize(1, 8);
    assert!(state.can_wrap());
    assert!(state.can_add_line());
    state.toggle_wrap_mode();
    state.resize(0, 8);
    assert!(state.can_wrap());
    assert!(state.can_add_line());
}

#[test]
fn changes_are_counted_whatever_happens() {
    let settings = settings();
    let mut state = AppState::new(mission(&settings), 80, 23);
    state.start_computation();
    state.receive_watch_event();
    state.add_line(line("a"));
    state.set_result(failure(3));
    state.receive_watch_event();
    state.toggle_search();
    state.resize(40, 10);
    state.receive_watch_event();
    assert_eq!(state.changes_since_last_job_start, 3);
}
