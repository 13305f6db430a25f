use app_state::display::{DrawOp, W};
use app_state::mission::{Job, KeyBindings, Mission, Settings};
use app_state::output::{CommandOutput, CommandOutputLine};
use app_state::report::{CommandResult, Failure, Line, LineType, Report, Stats};
use app_state::scroll::{Area, ScrollCommand};
use app_state::state::AppState;
use app_state::tline::TLine;

fn settings() -> Settings {
    Settings {
        summary: false,
        wrap: false,
        reverse: false,
        show_changes_count: false,
        help_line: true,
        help_page_height: 50,
        keybindings: KeyBindings { bindings: Vec::new() },
        exports: Vec::new(),
    }
}

fn mission(settings: &Settings) -> Mission<'_> {
    Mission {
        location_name: "proj".to_string(),
        job_name: "check".to_string(),
        job: Job { background: false, on_success: None },
        settings,
    }
}

fn output(count: usize) -> CommandOutput {
    CommandOutput {
        lines: (0..count)
            .map(|i| CommandOutputLine { content: TLine::from_raw(format!("o{}", i)) })
            .collect(),
    }
}

fn failure(output_lines: usize) -> CommandResult {
    CommandResult::Failure(Failure { error_code: -2, output: output(output_lines) })
}

fn stats() -> Stats {
    Stats {
        errors: 0,
        test_fails: 0,
        passed_tests: 0,
        warnings: 0,
        full_lines: 0,
        summary_lines: 0,
    }
}

/// two lines by item: a title and a normal one
fn report(items: usize, content: &str) -> Report {
    let mut lines = Vec::new();
    for item_idx in 1..=items {
        for line_type in [LineType::Title, LineType::Normal] {
            lines.push(Line {
                item_idx,
                line_type,
                marker_cols: 2,
                content: TLine::from_raw(content.to_string()),
            });
        }
    }
    Report {
        output: output(3),
        lines,
        stats: Stats { full_lines: 2 * items, summary_lines: items, ..stats() },
        success: false,
    }
}

fn part(content: &TLine, start: usize, end: usize) -> String {
    content.chars()[start..end].iter().collect()
}

fn badges(line: &TLine) -> String {
    line.strings
        .iter()
        .map(|s| format!("{}/{}/{}", s.raw, s.fg.unwrap(), s.bg.unwrap()))
        .collect::<Vec<String>>()
        .join(",")
}

fn describe(op: &DrawOp) -> String {
    match op {
        DrawOp::Goto(y) => format!("goto {}", y),
        DrawOp::ClearLine => "clear".to_string(),
        DrawOp::Status { spans, width, skin } => {
            assert_eq!(skin.paragraph_fg, 252);
            assert_eq!(skin.paragraph_bg, 239);
            assert_eq!(skin.italic_fg, 204);
            let spans: Vec<String> = spans
                .iter()
                .map(|s| {
                    assert!(!s.code && !s.strikeout);
                    match (s.bold, s.italic) {
                        (false, false) => s.src.clone(),
                        (false, true) => format!("<i>{}</i>", s.src),
                        (true, false) => format!("<b>{}</b>", s.src),
                        (true, true) => format!("<bi>{}</bi>", s.src),
                    }
                })
                .collect();
            format!("status {} {}", width, spans.join("|"))
        }
        DrawOp::Badges { badges: line, width } => format!("badges {} {}", width, badges(line)),
        DrawOp::Write(text) => format!("write {:?}", text),
        DrawOp::Marker { line_type, item_idx, cols, first } => {
            let line_type = match line_type {
                LineType::Title => "title",
                LineType::Location => "location",
                LineType::Normal => "normal",
            };
            format!("marker {} {} {} {}", line_type, item_idx, cols, first)
        }
        DrawOp::Text { content, cols } => format!("text {} {}", cols, content.combined_raw()),
        DrawOp::SubText { content, start, end } => format!("part {}", part(content, *start, *end)),
        DrawOp::Thumb { x, y } => format!("thumb {} {}", x, y),
        DrawOp::ReportDrawn => "report drawn".to_string(),
        DrawOp::HelpPage { page, area } => format!(
            "help {}+{} {},{} {}x{}",
            page.scroll, page.content_height, area.left, area.top, area.width, area.height
        ),
        DrawOp::Flush => "flush".to_string(),
    }
}

fn ops(w: &W) -> Vec<String> {
    w.ops.iter().map(describe).collect()
}

fn drawn(state: &mut AppState) -> Vec<String> {
    assert!(state.is_drawable());
    let mut w = W::new();
    state.draw(&mut w, "Hit *q* to quit");
    ops(&w)
}

fn content(state: &mut AppState, y: u16) -> Vec<String> {
    let mut w = W::new();
    state.draw_content(&mut w, y);
    ops(&w)
}

fn gotos(ops: &[String]) -> Vec<u16> {
    ops.iter()
        .filter_map(|op| op.strip_prefix("goto ").map(|y| y.parse().unwrap()))
        .collect()
}

#[test]
fn nothing_to_show() {
    let settings = settings();
    let mut state = AppState::new(mission(&settings), 20, 6);
    assert_eq!(
        drawn(&mut state),
        vec![
            "goto 0",
            "badges 20 proj/255/240,check/235/204",
            "clear",
            "goto 1",
            "write \"\\u{1b}[38;5;235m\\u{1b}[48;5;204m    computing...    \\u{1b}[0m\"",
            "goto 5",
            "status 20 Hit |<i>q</i>| to quit",
            "flush",
        ]
    );
}

#[test]
fn output_with_its_scrollbar() {
    let settings = settings();
    let mut state = AppState::new(mission(&settings), 20, 8);
    state.set_result(failure(10));
    assert_eq!(
        drawn(&mut state),
        vec![
            "goto 0",
            "badges 20 proj/255/240,check/235/204,Command error code: -2/235/9",
            "clear",
            "goto 1",
            "write \"\\u{1b}[38;5;235m\\u{1b}[48;5;9mCommand error code: -2\\u{1b}[0m\"",
            "goto 2",
            "text 20 o0",
            "clear",
            "thumb 19 2",
            "goto 3",
            "text 20 o1",
            "clear",
            "thumb 19 3",
            "goto 4",
            "text 20 o2",
            "clear",
            "thumb 19 4",
            "goto 5",
            "text 20 o3",
            "clear",
            "goto 6",
            "text 20 o4",
            "clear",
            "goto 7",
            "status 20 Hit |<i>q</i>| to quit",
            "flush",
        ]
    );
}

#[test]
fn scrollbar_follows_the_scroll() {
    let settings = settings();
    let thumbs = |state: &mut AppState| -> Vec<String> {
        content(state, 2).into_iter().filter(|op| op.starts_with("thumb")).collect()
    };
    // 20 rows for 100 lines
    let mut state = AppState::new(mission(&settings), 20, 23);
    state.set_result(failure(100));
    assert_eq!(thumbs(&mut state).first().unwrap(), "thumb 19 2");
    assert_eq!(thumbs(&mut state).last().unwrap(), "thumb 19 6");
    state.apply_scroll_command(ScrollCommand::Lines(1));
    assert_eq!(thumbs(&mut state).first().unwrap(), "thumb 19 3");
    state.apply_scroll_command(ScrollCommand::Pages(1));
    assert_eq!(thumbs(&mut state).first().unwrap(), "thumb 19 6");
    state.apply_scroll_command(ScrollCommand::Bottom);
    state.apply_scroll_command(ScrollCommand::Lines(-1));
    assert_eq!(thumbs(&mut state).last().unwrap(), "thumb 19 20");
    state.apply_scroll_command(ScrollCommand::Bottom);
    assert_eq!(thumbs(&mut state).last().unwrap(), "thumb 19 21");
    // no scrollbar
    state.set_result(failure(20));
    assert!(thumbs(&mut state).is_empty());
}

#[test]
fn rows_are_drawn_once() {
    for reverse in [false, true] {
        let settings = Settings { reverse, ..settings() };
        for height in 4..20 {
            let mut state = AppState::new(mission(&settings), 20, height);
            state.set_result(failure(30));
            let all: Vec<u16> = (0..height).collect();
            assert_eq!(gotos(&drawn(&mut state)), all);
            state.set_result(CommandResult::Report(report(20, "x")));
            assert_eq!(gotos(&drawn(&mut state)), all);
        }
    }
}

#[test]
fn short_content_is_at_the_bottom_in_reverse() {
    let settings = Settings { reverse: true, ..settings() };
    let mut state = AppState::new(mission(&settings), 20, 8);
    state.set_result(failure(3));
    let all = drawn(&mut state);
    assert_eq!(all[0], "goto 0");
    assert_eq!(all[1], "status 20 Hit |<i>q</i>| to quit");
    // 2 empty rows above
    assert_eq!(all[2..6], ["goto 1", "clear", "goto 2", "clear"]);
    assert_eq!(all[6..9], ["goto 3", "text 20 o2", "clear"]);
    assert_eq!(gotos(&all), vec![0, 1, 2, 3, 4, 5, 6, 7]);
}

#[test]
fn report_lines_with_their_markers() {
    let settings = settings();
    let mut state = AppState::new(mission(&settings), 12, 7);
    state.set_result(CommandResult::Report(report(2, "abc")));
    assert_eq!(
        content(&mut state, 2),
        vec![
            "goto 2",
            "marker title 1 2 true",
            "write \" \"",
            "text 9 abc",
            "clear",
            "goto 3",
            "marker normal 1 2 true",
            "write \" \"",
            "text 9 abc",
            "clear",
            "goto 4",
            "marker title 2 2 true",
            "write \" \"",
            "text 9 abc",
            "clear",
            "goto 5",
            "marker normal 2 2 true",
            "write \" \"",
            "text 9 abc",
            "clear",
            "report drawn",
        ]
    );
    state.toggle_summary_mode();
    assert_eq!(
        content(&mut state, 2),
        vec![
            "goto 2",
            "marker title 1 2 true",
            "write \" \"",
            "text 9 abc",
            "clear",
            "goto 3",
            "marker title 2 2 true",
            "write \" \"",
            "text 9 abc",
            "clear",
            "goto 4",
            "clear",
            "goto 5",
            "clear",
            "report drawn",
        ]
    );
}

#[test]
fn no_text_when_there_is_no_place_for_it() {
    let settings = settings();
    let mut state = AppState::new(mission(&settings), 3, 4);
    state.set_result(CommandResult::Report(report(1, "abc")));
    assert_eq!(
        content(&mut state, 2)[0..3],
        ["goto 2", "marker title 1 2 true", "write \" \""]
    );
    assert_eq!(content(&mut state, 2)[3], "clear");
    state.resize(4, 4);
    assert_eq!(content(&mut state, 2)[3], "text 1 abc");
}

#[test]
fn wrapped_report() {
    let settings = Settings { wrap: true, ..settings() };
    // 6 columns for wrapping, 3 of them for the marker and a space
    let mut state = AppState::new(mission(&settings), 7, 6);
    state.set_result(CommandResult::Report(report(1, "abcde")));
    assert_eq!(
        content(&mut state, 2),
        vec![
            "goto 2",
            "marker title 1 2 true",
            "write \" \"",
            "part abc",
            "clear",
            "thumb 6 2",
            "goto 3",
            "marker title 1 2 false",
            "write \" \"",
            "part de",
            "clear",
            "thumb 6 3",
            "goto 4",
            "marker normal 1 2 true",
            "write \" \"",
            "part abc",
            "clear",
            "thumb 6 4",
            "report drawn",
        ]
    );
}

#[test]
fn wrapped_output() {
    let settings = Settings { wrap: true, ..settings() };
    let mut state = AppState::new(mission(&settings), 5, 9);
    state.set_result(CommandResult::Failure(Failure {
        error_code: 1,
        output: CommandOutput {
            lines: vec![CommandOutputLine {
                content: TLine::from_raw("abcdefgh".to_string()),
            }],
        },
    }));
    let drawn: Vec<String> =
        content(&mut state, 2).into_iter().filter(|op| op.starts_with("part")).collect();
    assert_eq!(drawn, vec!["part abcde", "part fgh"]);
}

#[test]
fn matches_are_highlighted() {
    let settings = settings();
    let mut state = AppState::new(mission(&settings), 20, 5);
    state.set_result(failure(2));
    state.toggle_search();
    state.update_search('1');
    state.next_search_match();
    let all = content(&mut state, 2);
    assert_eq!(all[1], "text 20 o0");
    assert_eq!(all[4], "text 20 o1MATCH");
    let mut w = W::new();
    state.draw_help_line(&mut w, 4, "nothing");
    assert_eq!(ops(&w), vec!["goto 4", "status 20 Search: 1 (1 matches)"]);
}

#[test]
fn next_match_is_displayed() {
    let settings = settings();
    let mut state = AppState::new(mission(&settings), 20, 8);
    state.set_result(failure(100));
    state.toggle_search();
    state.update_search('5');
    state.update_search('7');
    state.next_search_match();
    assert_eq!(content(&mut state, 2)[1], "text 20 o57MATCH");
    // near of the bottom
    state.backspace_search();
    state.backspace_search();
    state.update_search('9');
    state.update_search('8');
    state.next_search_match();
    let all = content(&mut state, 2);
    assert_eq!(all[1], "text 20 o95");
    assert!(all.contains(&"text 20 o98MATCH".to_string()));
}

#[test]
fn top_item_is_found_again() {
    let settings = settings();
    let mut state = AppState::new(mission(&settings), 20, 8);
    state.set_result(CommandResult::Report(report(30, "x")));
    state.apply_scroll_command(ScrollCommand::Lines(21));
    // the second line of the 11th item
    assert_eq!(content(&mut state, 2)[1], "marker normal 11 2 true");
    assert_eq!(state.get_last_item_scroll(), 20);
    state.toggle_summary_mode();
    assert_eq!(content(&mut state, 2)[1], "marker title 11 2 true");
    assert_eq!(state.get_last_item_scroll(), 10);
    state.resize(20, 10);
    assert_eq!(content(&mut state, 2)[1], "marker title 11 2 true");
    state.toggle_summary_mode();
    assert_eq!(content(&mut state, 2)[1], "marker title 11 2 true");
}

#[test]
fn top_item_may_be_given() {
    let settings = settings();
    let mut state = AppState::new(mission(&settings), 20, 8);
    state.set_result(CommandResult::Report(report(3, "x")));
    let area = Area { left: 0, top: 2, width: 19, height: 1 };
    let shown = report(3, "x");
    let mut top_item_idx = Some(3);
    let mut w = W::new();
    state.draw_report(&shown, area, 2, &mut top_item_idx, Some((2, 2)), &mut w);
    assert_eq!(top_item_idx, Some(3));
    assert_eq!(state.get_last_item_scroll(), 4);
    assert_eq!(
        ops(&w),
        vec![
            "goto 2",
            "marker title 1 2 true",
            "write \" \"",
            "text 17 x",
            "clear",
            "thumb 19 2",
            "report drawn",
        ]
    );
    let mut top_item_idx = None;
    state.draw_report(&shown, area, 2, &mut top_item_idx, None, &mut w);
    assert_eq!(top_item_idx, Some(1));
    // no row
    let none = Area { height: 0, ..area };
    let mut top_item_idx = None;
    state.draw_report(&shown, none, 2, &mut top_item_idx, None, &mut w);
    assert_eq!(top_item_idx, None);
}

#[test]
fn badges_of_the_result() {
    let settings = Settings { show_changes_count: true, ..settings() };
    let mut state = AppState::new(mission(&settings), 20, 8);
    let mut with = |stats: Stats| {
        state.set_result(CommandResult::Report(Report { stats, ..report(0, "") }));
        state.receive_watch_event();
        let mut w = W::new();
        state.draw_badges(&mut w, 3);
        let all = ops(&w);
        assert_eq!(all[0], "goto 3");
        assert_eq!(all[2], "clear");
        all[1].strip_prefix("badges 20 proj/255/240,check/235/204,").unwrap().to_string()
    };
    assert_eq!(with(stats()), "1 change/235/6");
    assert_eq!(
        with(Stats { errors: 1, warnings: 2, ..stats() }),
        "1 error/235/9,2 warnings/235/11,2 changes/235/6"
    );
    assert_eq!(
        with(Stats { test_fails: 3, passed_tests: 5, ..stats() }),
        "3 fails/235/208,3 changes/235/6"
    );
    assert_eq!(
        with(Stats { passed_tests: 5, warnings: 1, ..stats() }),
        "pass!/254/2,1 warning/235/11,4 changes/235/6"
    );
}

#[test]
fn help_page_covers_the_content() {
    let mut plain = settings();
    let mut state = AppState::new(mission(&plain), 20, 8);
    state.toggle_help();
    assert_eq!(
        drawn(&mut state),
        vec!["help 0+50 0,0 20x7", "goto 7", "status 20 Hit |<i>q</i>| to quit", "flush"]
    );
    state.apply_scroll_command(ScrollCommand::Pages(1));
    assert_eq!(drawn(&mut state)[0], "help 7+50 0,0 20x7");
    state.apply_scroll_command(ScrollCommand::Bottom);
    assert_eq!(drawn(&mut state)[0], "help 43+50 0,0 20x7");
    plain.reverse = true;
    let mut state = AppState::new(mission(&plain), 20, 8);
    state.toggle_help();
    assert_eq!(
        drawn(&mut state),
        vec!["goto 0", "status 20 Hit |<i>q</i>| to quit", "help 0+50 0,1 20x7", "flush"]
    );
}

#[test]
fn help_line_may_be_hidden() {
    let settings = Settings { help_line: false, ..settings() };
    let mut state = AppState::new(mission(&settings), 20, 8);
    let mut w = W::new();
    state.draw_help_line(&mut w, 7, "hints");
    assert!(w.ops.is_empty());
    state.toggle_search();
    state.draw_help_line(&mut w, 7, "hints");
    assert_eq!(ops(&w), vec!["goto 7", "status 20 Search:  (0 matches)"]);
}

#[test]
fn query_is_parsed_as_markdown() {
    let settings = settings();
    let mut state = AppState::new(mission(&settings), 20, 8);
    let mut w = W::new();
    state.draw_help_line(&mut w, 7, "**a** and *b*");
    assert_eq!(ops(&w)[1], "status 20 <b>a</b>| and |<i>b</i>");
    state.toggle_search();
    for c in "*x*".chars() {
        state.update_search(c);
    }
    let mut w = W::new();
    state.draw_help_line(&mut w, 7, "");
    assert_eq!(ops(&w)[1], "status 20 Search: |<i>x</i>| (0 matches)");
}

#[test]
fn small_screens() {
    let settings = settings();
    let mut state = AppState::new(mission(&settings), 20, 3);
    state.set_result(failure(10));
    assert!(content(&mut state, 2).is_empty());
    assert_eq!(gotos(&drawn(&mut state)), vec![0, 1, 2]);
    state.resize(20, 1);
    // no status line
    assert_eq!(gotos(&drawn(&mut state)), vec![0, 1]);
    state.resize(20, 0);
    assert!(!state.is_drawable());
    state.resize(0, 4);
    assert!(!state.is_drawable());
    state.resize(0, 3);
    assert!(state.is_drawable());
}

#[test]
fn drawing_again_is_the_same() {
    let settings = settings();
    let mut state = AppState::new(mission(&settings), 20, 12);
    state.set_result(CommandResult::Report(report(30, "x")));
    state.apply_scroll_command(ScrollCommand::Lines(7));
    let once = drawn(&mut state);
    assert_eq!(drawn(&mut state), once);
}

#[test]
fn computing_line() {
    let settings = settings();
    let mut state = AppState::new(mission(&settings), 3, 12);
    let mut w = W::new();
    state.draw_computing(&mut w, 1);
    state.computation_stops();
    state.draw_computing(&mut w, 1);
    assert_eq!(
        ops(&w),
        vec![
            "goto 1",
            "write \"\\u{1b}[38;5;235m\\u{1b}[48;5;204mcomputing...\\u{1b}[0m\"",
            "goto 1",
            "clear",
        ]
    );
    state.resize(25, 12);
    state.set_result(failure(1));
    let mut w = W::new();
    state.draw_computing(&mut w, 1);
    state.computation_starts();
    state.draw_computing(&mut w, 1);
    assert_eq!(
        ops(&w),
        vec![
            "goto 1",
            "write \"\\u{1b}[38;5;235m\\u{1b}[48;5;9m Command error code: -2  \\u{1b}[0m\"",
            "goto 1",
            "write \"\\u{1b}[38;5;235m\\u{1b}[48;5;204m      computing...       \\u{1b}[0m\"",
        ]
    );
}

#[test]
fn scroll_is_kept_in_a_wrapped_report() {
    let settings = Settings { wrap: true, ..settings() };
    // 8 columns, 3 of them for the marker: 2 rows by line, 4 by item
    let mut state = AppState::new(mission(&settings), 9, 8);
    state.set_result(CommandResult::Report(report(5, "abcdefgh")));
    state.apply_scroll_command(ScrollCommand::Lines(6));
    assert_eq!(content(&mut state, 2)[1], "marker normal 2 2 true");
    state.set_result(CommandResult::Report(report(5, "ABCDEFGH")));
    assert_eq!(content(&mut state, 2)[1], "marker normal 2 2 true");
    assert_eq!(content(&mut state, 2)[3], "part ABCDE");
    // with an output too
    state.set_result(failure(30));
    state.apply_scroll_command(ScrollCommand::Lines(6));
    state.set_result(failure(30));
    assert_eq!(content(&mut state, 2)[1], "part o6");
    // another count: back to the top
    state.set_result(failure(31));
    assert_eq!(content(&mut state, 2)[1], "part o0");
}

#[test]
fn no_row_is_left_as_it_was() {
    let settings = Settings { reverse: true, ..settings() };
    for count in 0..8 {
        let mut state = AppState::new(mission(&settings), 20, 9);
        state.set_result(failure(count));
        let rows = gotos(&drawn(&mut state));
        for y in 0..9 {
            assert!(rows.contains(&y));
        }
    }
}

#[test]
fn badges_take_columns() {
    let settings = settings();
    let mut w = W::new();
    // "proj" and "check"
    assert_eq!(AppState::new(mission(&settings), 20, 8).draw_badges(&mut w, 0), 9);
    assert_eq!(AppState::new(mission(&settings), 9, 8).draw_badges(&mut w, 0), 9);
    assert_eq!(AppState::new(mission(&settings), 6, 8).draw_badges(&mut w, 0), 6);
    assert_eq!(AppState::new(mission(&settings), 0, 8).draw_badges(&mut w, 0), 0);
    // wide characters aren't cut
    let mut m = mission(&settings);
    m.location_name = "\u{65e5}\u{672c}".to_string();
    assert_eq!(AppState::new(m, 3, 8).draw_badges(&mut w, 0), 2);
}

#[test]
fn content_stays_in_its_page() {
    let settings = Settings { reverse: true, wrap: true, ..settings() };
    for count in 0..8 {
        let mut state = AppState::new(mission(&settings), 6, 9);
        state.set_result(failure(count));
        // the badges make the lines longer
        state.toggle_search();
        state.update_search('o');
        for y in [1, 2] {
            for r in gotos(&content(&mut state, y)) {
                assert!(y <= r && r < y + 6);
            }
        }
        assert_eq!(gotos(&drawn(&mut state)), (0..9).collect::<Vec<u16>>());
    }
}

#[test]
fn top_item_is_set() {
    let settings = settings();
    let mut state = AppState::new(mission(&settings), 12, 7);
    state.set_result(CommandResult::Report(report(9, "abc")));
    state.apply_scroll_command(ScrollCommand::Lines(5));
    assert_eq!(state.top_item_idx(), 0);
    drawn(&mut state);
    assert_eq!(state.top_item_idx(), 3);
    state.set_top_item_idx(2);
    assert_eq!(state.get_last_item_scroll(), 2);
}
