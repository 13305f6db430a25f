use app_state::output::{CommandOutput, CommandOutputLine};
use app_state::report::{CommandResult, Failure, Line, LineType, Report, Stats};
use app_state::tline::TLine;

fn output(lines: &[&str]) -> CommandOutput {
    let mut output = CommandOutput::default();
    for line in lines {
        output.push(CommandOutputLine { content: TLine::from_raw(line.to_string()) });
    }
    output
}

fn texts(output: &CommandOutput) -> Vec<String> {
    output.lines.iter().map(|line| line.content.combined_raw()).collect()
}

fn report(lines: &[(usize, &str)]) -> Report {
    Report {
        output: output(&["a", "b"]),
        lines: lines
            .iter()
            .map(|(item_idx, content)| Line {
                item_idx: *item_idx,
                line_type: LineType::Normal,
                marker_cols: 0,
                content: TLine::from_raw(content.to_string()),
            })
            .collect(),
        stats: Stats {
            errors: 0,
            test_fails: 0,
            passed_tests: 0,
            warnings: 0,
            full_lines: 5,
            summary_lines: 2,
        },
        success: false,
    }
}

fn contents(report: &Report) -> Vec<String> {
    report.lines.iter().map(|line| line.content.combined_raw()).collect()
}

#[test]
fn output_in_reverse() {
    let mut out = output(&["a", "b", "c"]);
    out.reverse();
    assert_eq!(texts(&out), vec!["c", "b", "a"]);
    out.reverse();
    assert_eq!(texts(&out), vec!["a", "b", "c"]);
    assert_eq!(out.len(), 3);
    assert_eq!(texts(&out.clone()), texts(&out));
}

#[test]
fn items_in_reverse() {
    let mut r = report(&[(1, "1a"), (1, "1b"), (2, "2a"), (3, "3a"), (3, "3b")]);
    r.reverse();
    assert_eq!(contents(&r), vec!["3a", "3b", "2a", "1a", "1b"]);
    // again
    r.reverse();
    assert_eq!(contents(&r), vec!["3a", "3b", "2a", "1a", "1b"]);
}

#[test]
fn lines_of_an_item_keep_their_order() {
    let mut r = report(&[(1, "1a"), (2, "2a"), (1, "1b"), (2, "2b")]);
    r.reverse();
    assert_eq!(contents(&r), vec!["2a", "2b", "1a", "1b"]);
}

#[test]
fn blank_end_is_removed() {
    let mut r = report(&[(1, "a"), (1, " "), (1, "\t")]);
    r.remove_blank_end();
    assert_eq!(contents(&r), vec!["a", " "]);
    let mut r = report(&[(1, " "), (1, "a")]);
    r.remove_blank_end();
    assert_eq!(contents(&r), vec![" ", "a"]);
    let mut r = report(&[]);
    r.remove_blank_end();
    assert_eq!(r.lines.len(), 0);
}

#[test]
fn result_content() {
    let result = CommandResult::Report(report(&[(1, "x"), (2, "y"), (3, "z")]));
    assert_eq!(result.lines_len(), 3);
    assert_eq!(texts(result.output().unwrap()), vec!["a", "b"]);
    assert!(result.report().is_some());
    let mut result = CommandResult::Failure(Failure {
        error_code: 101,
        output: output(&["p", "q"]),
    });
    assert_eq!(result.lines_len(), 2);
    assert!(result.report().is_none());
    result.reverse();
    assert_eq!(texts(result.output().unwrap()), vec!["q", "p"]);
    result.remove_blank_end();
    assert_eq!(result.lines_len(), 2);
    let mut result = CommandResult::Nothing;
    result.reverse();
    assert_eq!(result.lines_len(), 0);
    assert!(result.output().is_none());
    assert!(result.report().is_none());
}

#[test]
fn stats_lines() {
    let r = report(&[]);
    assert_eq!(r.stats.lines(false), 5);
    assert_eq!(r.stats.lines(true), 2);
}
