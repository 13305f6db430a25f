use app_state::mission::{Job, KeyBindings, Mission, Settings};
use app_state::output::{CommandOutput, CommandOutputLine};
use app_state::report::{CommandResult, Failure};
use app_state::search::{highlight, SearchState};
use app_state::state::AppState;
use app_state::tline::{TLine, TString};

fn settings() -> Settings {
    Settings {
        summary: false,
        wrap: false,
        reverse: false,
        show_changes_count: false,
        help_line: false,
        help_page_height: 0,
        keybindings: KeyBindings { bindings: Vec::new() },
        exports: Vec::new(),
    }
}

fn mission(settings: &Settings) -> Mission<'_> {
    Mission {
        location_name: "proj".to_string(),
        job_name: "check".to_string(),
        job: Job { background: false, on_success: None },
        settings,
    }
}

fn output(lines: &[&[&str]]) -> CommandOutput {
    CommandOutput {
        lines: lines
            .iter()
            .map(|strings| CommandOutputLine {
                content: TLine {
                    strings: strings.iter().map(|s| TString::new(s.to_string())).collect(),
                },
            })
            .collect(),
    }
}

fn searching(query: &str, output: &CommandOutput) -> SearchState {
    let mut search = SearchState::default();
    search.query = query.to_string();
    search.perform(Some(output));
    search
}

/// the background of the badge of each line, if any
fn badges(search: Option<SearchState>, output: &CommandOutput) -> Vec<Option<u8>> {
    let before: Vec<usize> = output.lines.iter().map(|l| l.content.strings.len()).collect();
    highlight(&search, output)
        .iter()
        .enumerate()
        .map(|(i, line)| {
            let strings = &line.content.strings;
            if strings.len() == before[i] {
                None
            } else {
                assert_eq!(strings.len(), before[i] + 1);
                let badge = &strings[before[i]];
                assert_eq!(badge.raw, "MATCH");
                assert_eq!(badge.fg, Some(235));
                badge.bg
            }
        })
        .collect()
}

fn status(state: &AppState) -> String {
    state.status_markdown("").unwrap_or_default()
}

#[test]
fn lines_with_the_query_match() {
    let out = output(&[&["abc"], &["x"], &["a", "bc"], &["ABC"], &["cab"]]);
    assert_eq!(searching("ab", &out).matches, vec![0, 2, 4]);
    assert_eq!(searching("abc", &out).matches, vec![0, 2]);
    assert_eq!(searching("abcd", &out).matches, Vec::<usize>::new());
    assert!(searching("ab", &out).current_match.is_none());
}

#[test]
fn unicode_query() {
    let out = output(&[&["étage"], &["etage"], &["l'été"]]);
    assert_eq!(searching("ét", &out).matches, vec![0, 2]);
}

#[test]
fn blank_query_matches_nothing() {
    let out = output(&[&["a b"], &[" "]]);
    assert!(searching("", &out).matches.is_empty());
    assert!(searching(" ", &out).matches.is_empty());
    assert!(searching("\u{3000}\t", &out).matches.is_empty());
    // a space isn't ignored when there's something else
    assert_eq!(searching("a ", &out).matches, vec![0]);
    let mut nowhere = SearchState::default();
    nowhere.query = "a".to_string();
    nowhere.perform(None);
    assert!(nowhere.matches.is_empty());
}

#[test]
fn matches_are_visited_in_turn() {
    let out = output(&[&["a"], &["b"], &["a"], &["a"]]);
    let mut search = searching("a", &out);
    let mut visited = Vec::new();
    for _ in 0..5 {
        search.advance();
        visited.push(search.current_match.unwrap());
    }
    assert_eq!(visited, vec![0, 1, 2, 0, 1]);
    let mut search = searching("zzz", &out);
    search.advance();
    assert!(search.current_match.is_none());
}

#[test]
fn badges_on_matching_lines() {
    let out = output(&[&["a"], &["b"], &["a"], &["xa", "y"]]);
    let mut search = searching("a", &out);
    assert_eq!(
        badges(Some(searching("a", &out)), &out),
        vec![Some(208), None, Some(208), Some(208)]
    );
    search.advance();
    search.advance();
    assert_eq!(badges(Some(search), &out), vec![Some(208), None, Some(10), Some(208)]);
    assert_eq!(badges(None, &out), vec![None, None, None, None]);
    assert_eq!(badges(Some(searching(" ", &out)), &out), vec![None, None, None, None]);
}

#[test]
fn no_badge_on_a_match_over_several_strings() {
    let out = output(&[&["a", "b"], &["ab"]]);
    let mut search = searching("ab", &out);
    assert_eq!(search.matches, vec![0, 1]);
    search.advance();
    assert_eq!(badges(Some(search), &out), vec![None, Some(10)]);
}

#[test]
fn search_is_typed() {
    let settings = settings();
    let mut state = AppState::new(mission(&settings), 80, 10);
    for line in output(&[&["abc"], &["abd"], &["x"]]).lines {
        state.add_line(line);
    }
    // not searching
    state.update_search('a');
    state.backspace_search();
    state.next_search_match();
    assert!(!state.is_searching());
    state.toggle_search();
    assert!(state.is_searching());
    assert_eq!(status(&state), "Search:  (0 matches)");
    state.update_search('a');
    assert_eq!(status(&state), "Search: a (2 matches)");
    state.update_search('b');
    state.update_search('c');
    assert_eq!(status(&state), "Search: abc (1 matches)");
    state.backspace_search();
    assert_eq!(status(&state), "Search: ab (2 matches)");
    // already searching: the query is kept
    state.toggle_search();
    assert_eq!(status(&state), "Search: ab (2 matches)");
    state.backspace_search();
    state.backspace_search();
    state.backspace_search();
    assert_eq!(status(&state), "Search:  (0 matches)");
    state.exit_search();
    assert!(!state.is_searching());
    state.toggle_search();
    assert_eq!(status(&state), "Search:  (0 matches)");
}

#[test]
fn result_is_searched_before_the_running_job() {
    let settings = settings();
    let mut state = AppState::new(mission(&settings), 80, 10);
    for line in output(&[&["a"], &["a"], &["a"]]).lines {
        state.add_line(line);
    }
    state.set_result(CommandResult::Failure(Failure {
        error_code: 1,
        output: output(&[&["a"], &["b"]]),
    }));
    state.toggle_search();
    state.update_search('a');
    assert_eq!(status(&state), "Search: a (1 matches)");
    state.clear();
    state.perform_search();
    assert_eq!(status(&state), "Search: a (0 matches)");
}
