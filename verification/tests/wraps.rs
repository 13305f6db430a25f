use app_state::fit::count_fitting;
use app_state::output::{CommandOutput, CommandOutputLine};
use app_state::report::{Line, LineType, Report, Stats};
use app_state::tline::{TLine, TString};
use app_state::wrap::{find_shown, push_rows, SubLine, WrappedCommandOutput, WrappedReport};

fn rows(sub_lines: &[SubLine]) -> Vec<(usize, usize, usize)> {
    sub_lines.iter().map(|s| (s.line_idx, s.start, s.end)).collect()
}

fn output(lines: &[&str]) -> CommandOutput {
    CommandOutput {
        lines: lines
            .iter()
            .map(|s| CommandOutputLine { content: TLine::from_raw(s.to_string()) })
            .collect(),
    }
}

fn line(item_idx: usize, line_type: LineType, marker_cols: usize, content: &str) -> Line {
    Line {
        item_idx,
        line_type,
        marker_cols,
        content: TLine::from_raw(content.to_string()),
    }
}

fn report(lines: Vec<Line>) -> Report {
    Report {
        output: output(&[]),
        lines,
        stats: Stats {
            errors: 0,
            test_fails: 0,
            passed_tests: 0,
            warnings: 0,
            full_lines: 0,
            summary_lines: 0,
        },
        success: false,
    }
}

#[test]
fn rows_of_given_widths() {
    let mut sub_lines = Vec::new();
    push_rows(&mut sub_lines, &vec![1, 1, 2, 1, 3], 7, 3);
    assert_eq!(rows(&sub_lines), vec![(7, 0, 2), (7, 2, 4), (7, 4, 5)]);
    // an empty line has a row
    push_rows(&mut sub_lines, &vec![], 8, 3);
    assert_eq!(rows(&sub_lines)[3], (8, 0, 0));
}

#[test]
fn too_wide_characters_are_alone() {
    let mut sub_lines = Vec::new();
    push_rows(&mut sub_lines, &vec![2, 1, 2], 0, 1);
    assert_eq!(rows(&sub_lines), vec![(0, 0, 1), (0, 1, 2), (0, 2, 3)]);
    sub_lines.clear();
    push_rows(&mut sub_lines, &vec![1, 0, 1], 0, 0);
    assert_eq!(rows(&sub_lines), vec![(0, 0, 1), (0, 1, 2), (0, 2, 3)]);
    sub_lines.clear();
    push_rows(&mut sub_lines, &vec![0, 0, 1], 0, 0);
    assert_eq!(rows(&sub_lines), vec![(0, 0, 2), (0, 2, 3)]);
    sub_lines.clear();
    push_rows(&mut sub_lines, &vec![usize::MAX, usize::MAX], 0, usize::MAX);
    assert_eq!(rows(&sub_lines), vec![(0, 0, 1), (0, 1, 2)]);
}

#[test]
fn output_is_wrapped() {
    let wrapped = WrappedCommandOutput::new(&output(&["abcdefg", "", "xyz"]), 3);
    assert_eq!(
        rows(&wrapped.sub_lines),
        vec![(0, 0, 3), (0, 3, 6), (0, 6, 7), (1, 0, 0), (2, 0, 3)]
    );
    assert_eq!(wrapped.line_count, 3);
}

#[test]
fn wide_characters_take_more_columns() {
    // each one takes two columns
    let wrapped = WrappedCommandOutput::new(&output(&["概要概要"]), 5);
    assert_eq!(rows(&wrapped.sub_lines), vec![(0, 0, 2), (0, 2, 4)]);
    // a combining accent takes none
    let wrapped = WrappedCommandOutput::new(&output(&["e\u{301}e\u{301}"]), 2);
    assert_eq!(rows(&wrapped.sub_lines), vec![(0, 0, 4)]);
}

#[test]
fn wrapping_goes_over_strings() {
    let mut out = output(&["ab"]);
    out.lines[0].content.strings.push(TString::new("cd".to_string()));
    let wrapped = WrappedCommandOutput::new(&out, 3);
    assert_eq!(rows(&wrapped.sub_lines), vec![(0, 0, 3), (0, 3, 4)]);
}

#[test]
fn update_is_as_wrapping_anew() {
    let mut wrapped = WrappedCommandOutput::new(&output(&["abcdefg"]), 3);
    let longer = output(&["abcdefg", "hijkl"]);
    wrapped.update(&longer, 3);
    let anew = WrappedCommandOutput::new(&longer, 3);
    assert_eq!(rows(&wrapped.sub_lines), rows(&anew.sub_lines));
    assert_eq!(wrapped.line_count, anew.line_count);
    // nothing more to wrap
    wrapped.update(&longer, 3);
    assert_eq!(rows(&wrapped.sub_lines), rows(&anew.sub_lines));
    wrapped.update(&output(&[]), 3);
    assert_eq!(rows(&wrapped.sub_lines), rows(&anew.sub_lines));
}

#[test]
fn report_is_wrapped_after_its_markers() {
    let r = report(vec![
        line(1, LineType::Title, 4, "abcdefg"),
        line(1, LineType::Normal, 0, "abcdefg"),
    ]);
    let wrapped = WrappedReport::new(&r, 8);
    assert_eq!(
        rows(&wrapped.sub_lines),
        vec![(0, 0, 3), (0, 3, 6), (0, 6, 7), (1, 0, 7)]
    );
    assert_eq!(wrapped.content_height(false), 4);
    assert_eq!(wrapped.content_height(true), 3);
}

#[test]
fn normal_lines_are_not_in_the_summary() {
    let types = vec![LineType::Title, LineType::Normal, LineType::Location];
    assert_eq!(find_shown(&types, false), vec![0, 1, 2]);
    assert_eq!(find_shown(&types, true), vec![0, 2]);
}

#[test]
fn characters_fit_in_columns() {
    assert_eq!(count_fitting(&vec![1, 2, 1], 4), (3, 4));
    assert_eq!(count_fitting(&vec![1, 2, 1], 2), (1, 1));
    assert_eq!(count_fitting(&vec![1, 0, 2], 1), (2, 1));
    assert_eq!(count_fitting(&vec![], 3), (0, 0));
    let mut content = TLine::from_raw("ab\u{65e5}".to_string());
    content.add_badge(TString::badge("c", 1, 2));
    assert_eq!(content.fitting(80), (4, 5));
    assert_eq!(content.fitting(4), (3, 4));
    assert_eq!(content.fitting(3), (2, 2));
    // a tab is drawn as two spaces
    assert_eq!(TLine::from_raw("\ta".to_string()).fitting(2), (1, 2));
}

#[test]
fn parts_keep_their_colors() {
    let mut content = TLine::from_raw("abc".to_string());
    content.add_badge(TString::badge("de", 1, 2));
    let parts = |start: usize, end: usize| -> Vec<(String, Option<u8>)> {
        content.part(start, end).strings.into_iter().map(|s| (s.raw, s.bg)).collect()
    };
    assert_eq!(parts(1, 4), vec![("bc".to_string(), None), ("d".to_string(), Some(2))]);
    assert_eq!(parts(3, 5), vec![("de".to_string(), Some(2))]);
    assert_eq!(parts(0, 3), vec![("abc".to_string(), None)]);
    assert_eq!(parts(4, 99), vec![("e".to_string(), Some(2))]);
    assert!(parts(2, 2).is_empty());
}
