//! The state of the application and the operations on it.
pub mod draw;

use crate::display::StatusSkin;
use crate::mission::{Action, AutoRefresh, HelpPage, Internal, KeyBindings, Mission, Task};
use crate::mission;
use crate::model;
use crate::model::StateModel;
use crate::output::{CommandOutput, CommandOutputLine};
use crate::report;
use crate::report::{CommandResult, Report, ResultModel};
use crate::scroll;
use crate::scroll::ScrollCommand;
use crate::search::SearchState;
use crate::wrap;
use crate::wrap::{WrappedCommandOutput, WrappedReport, WrappedReportModel};
use vstd::prelude::*;

verus! {

/// Currently rendered state of the application, including scroll position
/// and the current report (if any).
pub struct AppState<'s> {
    /// the mission to run, with settings
    pub mission: Mission<'s>,
    /// the lines of a computation in progress
    output: Option<CommandOutput>,
    /// wrapped output for the width of the console
    wrapped_output: Option<WrappedCommandOutput>,
    /// result of a command, hopefully a report
    pub cmd_result: CommandResult,
    /// a report wrapped for the size of the console
    wrapped_report: Option<WrappedReport>,
    /// screen width
    width: u16,
    /// screen height
    height: u16,
    /// whether a computation is in progress
    computing: bool,
    /// whether the user wants wrapped lines
    pub wrap: bool,
    /// the optional RUST_BACKTRACE env var to set
    pub backtrace: Option<&'static str>,
    /// whether we should display only titles and locations
    summary: bool,
    /// whether we display the gui bottom-to-top
    reverse: bool,
    /// colors and styles used for status bar
    status_skin: StatusSkin,
    /// number of lines hidden on top due to scroll
    scroll: usize,
    /// item_idx of the item which was on top on last draw
    top_item_idx: usize,
    /// whether there's a help line
    help_line: bool,
    /// the help page displayed over the rest, if any
    help_page: Option<HelpPage>,
    /// the search state, if any
    search: Option<SearchState>,
    /// display the raw output instead of the report
    raw_output: bool,
    /// whether auto-refresh is enabled
    pub auto_refresh: AutoRefresh,
    /// How many watch events were received since last job start
    pub changes_since_last_job_start: usize,
    /// whether to display the count of changes
    pub show_changes_count: bool,
}

/// The content of the value, if there's one.
pub open spec fn opt_view<T: View>(value: Option<T>) -> Option<T::V> {
    match value {
        Some(value) => Some(value@),
        None => None,
    }
}

impl<'s> View for AppState<'s> {
    type V = StateModel<'s>;

    closed spec fn view(&self) -> StateModel<'s> {
        StateModel {
            mission: self.mission,
            output: opt_view(self.output),
            wrapped_output: opt_view(self.wrapped_output),
            result: self.cmd_result@,
            wrapped_report: opt_view(self.wrapped_report),
            width: self.width,
            height: self.height,
            computing: self.computing,
            wrap: self.wrap,
            backtrace: opt_view(self.backtrace),
            summary: self.summary,
            reverse: self.reverse,
            status_skin: self.status_skin,
            scroll: self.scroll as int,
            top_item_idx: self.top_item_idx,
            help_line: self.help_line,
            help_page: self.help_page,
            search: opt_view(self.search),
            raw_output: self.raw_output,
            auto_refresh: self.auto_refresh,
            changes: self.changes_since_last_job_start as int,
            show_changes_count: self.show_changes_count,
        }
    }
}

/// What a state holds can be counted.
proof fn lemma_counted<'s>(state: AppState<'s>)
    ensures
        state@.counted(),
{
    if let Some(output) = state.output {
        assert(output@.len() == output.lines.len());
    }
    match state.cmd_result {
        CommandResult::Report(report) => {
            assert(report@.output.len() == report.output.lines.len());
            assert(report@.lines.len() == report.lines.len());
        },
        CommandResult::Failure(failure) => {
            assert(failure.output@.len() == failure.output.lines.len());
        },
        CommandResult::Nothing => {},
    }
    if let Some(wrapped) = state.wrapped_output {
        assert(wrapped@.sub_lines.len() == wrapped.sub_lines.len());
    }
    if let Some(wrapped) = state.wrapped_report {
        assert(wrapped@.sub_lines.len() == wrapped.sub_lines.len());
    }
}

/// Finds the first of the rows of an item.
fn find_first_row(items: &Vec<usize>, item_idx: usize) -> (r: usize)
    ensures
        r == model::first_row(items@, item_idx),
        r == 0 || r < items.len(),
{
    proof {
        items@.index_of_first_ensures(item_idx);
    }
    for row_idx in 0..items.len()
        invariant
            forall|i: int| 0 <= i < row_idx ==> items@[i] != item_idx,
    {
        if items[row_idx] == item_idx {
            proof {
                assert(items@.contains(item_idx));
                items@.index_of_first_ensures(item_idx);
            }
            return row_idx;
        }
    }
    0
}

impl<'s> AppState<'s> {
    /// Builds the state in which the mission starts, for a screen of these
    /// dimensions.
    pub fn new(mission: Mission<'s>, width: u16, height: u16) -> (r: AppState<'s>)
        ensures
            r@ == model::initial(mission, width, height),
            r@.wf(),
    {
        let status_skin = StatusSkin { paragraph_fg: 252, paragraph_bg: 239, italic_fg: 204 };
        AppState {
            output: None,
            wrapped_output: None,
            cmd_result: CommandResult::Nothing,
            wrapped_report: None,
            width,
            height,
            computing: true,
            summary: mission.settings.summary,
            wrap: mission.settings.wrap,
            backtrace: None,
            reverse: mission.settings.reverse,
            show_changes_count: mission.settings.show_changes_count,
            status_skin,
            scroll: 0,
            top_item_idx: 0,
            help_line: mission.settings.help_line,
            help_page: None,
            search: None,
            mission,
            raw_output: false,
            auto_refresh: AutoRefresh::Enabled,
            changes_since_last_job_start: 0,
        }
    }

    /// Adds a line to the output of the computation in progress.
    pub fn add_line(&mut self, line: CommandOutputLine)
        requires
            old(self)@.wf(),
            old(self)@.output is Some && old(self)@.wrap ==> old(self)@.width >= 1,
        ensures
            final(self)@ == old(self)@.with_line(line@),
            final(self)@.wf(),
    {
        let auto_scroll = self.is_scroll_at_bottom();
        if self.output.is_some() {
            self.push_line(line);
            proof {
                lemma_counted(*self);
            }
            self.wrap_if_asked();
            if auto_scroll {
                // if the user never scrolled, we'll stick to the bottom
                self.scroll_to_bottom();
            }
        } else {
            self.wrapped_output = None;
            self.push_line(line);
            self.scroll = 0;
            self.fix_scroll();
            proof {
                lemma_counted(*self);
            }
        }
    }

    /// Adds a line to the output, which is created if necessary.
    fn push_line(&mut self, line: CommandOutputLine)
        ensures
            final(self)@ == (StateModel {
                output: Some(
                    match old(self)@.output {
                        Some(output) => output.push(line@),
                        None => seq![line@],
                    },
                ),
                ..old(self)@
            }),
    {
        let mut output = match self.output.take() {
            Some(output) => output,
            None => CommandOutput::default(),
        };
        output.push(line);
        assert(old(self)@.output is None ==> output@ =~= seq![line@]);
        self.output = Some(output);
    }

    /// Wraps what's displayed for the width of the screen, if lines are to be
    /// wrapped.
    fn wrap_if_asked(&mut self)
        requires
            old(self)@.wf(),
            old(self)@.wrap ==> old(self)@.width >= 1,
        ensures
            final(self)@ == old(self)@.wrapped_if_asked(),
            final(self)@.wf(),
            final(self)@.mission == old(self)@.mission,
    {
        if self.wrap {
            self.update_wrap(self.width - 1);
        }
    }

    /// Tells whether lines can be wrapped on the screen, or don't have to be.
    pub fn can_wrap(&self) -> (r: bool)
        ensures
            r == (self@.wrap ==> self@.width >= 1),
    {
        !self.wrap || self.width >= 1
    }

    /// Tells whether a line can be added: the first one of an output isn't
    /// wrapped when it comes.
    pub fn can_add_line(&self) -> (r: bool)
        ensures
            r == (self@.output is Some && self@.wrap ==> self@.width >= 1),
    {
        self.output.is_none() || self.can_wrap()
    }

    /// The task to run now.
    pub fn new_task(&self) -> (r: Task)
        ensures
            opt_view(r.backtrace) == self@.backtrace,
    {
        Task { backtrace: self.backtrace }
    }

    /// Takes the output of the computation in progress.
    pub fn take_output(&mut self) -> (r: Option<CommandOutput>)
        ensures
            opt_view(r) == old(self)@.output,
            final(self)@ == old(self)@.output_taken(),
            old(self)@.wf() ==> final(self)@.wf(),
    {
        self.wrapped_output = None;
        self.output.take()
    }

    /// Tells whether the last command gave a report.
    pub fn has_report(&self) -> (r: bool)
        ensures
            r == (self@.result is Report),
    {
        matches!(self.cmd_result, CommandResult::Report(_))
    }

    /// Switches between the report and the raw output.
    pub fn toggle_raw_output(&mut self)
        ensures
            final(self)@ == old(self)@.raw_output_toggled(),
            old(self)@.wf() ==> final(self)@.wf(),
    {
        self.raw_output = !self.raw_output;
    }

    /// Starts searching, unless a search is already there.
    pub fn toggle_search(&mut self)
        ensures
            final(self)@ == old(self)@.search_started(),
            old(self)@.wf() ==> final(self)@.wf(),
    {
        if self.search.is_none() {
            self.search = Some(SearchState::default());
        }
    }

    /// Forgets the search.
    pub fn exit_search(&mut self)
        ensures
            final(self)@ == old(self)@.search_exited(),
            old(self)@.wf() ==> final(self)@.wf(),
    {
        self.search = None;
    }

    /// Tells whether there's a search.
    pub fn is_searching(&self) -> (r: bool)
        ensures
            r == (self@.search is Some),
    {
        self.search.is_some()
    }

    /// Adds a character to the query, and searches.
    pub fn update_search(&mut self, c: char)
        ensures
            final(self)@ == old(self)@.search_updated(c),
            old(self)@.wf() ==> final(self)@.wf(),
    {
        if let Some(mut search) = self.search.take() {
            search.query.push(c);
            self.search = Some(search);
            self.perform_search();
        }
    }

    /// Removes the last character of the query, and searches.
    pub fn backspace_search(&mut self)
        ensures
            final(self)@ == old(self)@.search_backspaced(),
            old(self)@.wf() ==> final(self)@.wf(),
    {
        if let Some(mut search) = self.search.take() {
            search.query.pop();
            self.search = Some(search);
            self.perform_search();
        }
    }

    /// Goes to the next match of the search.
    pub fn next_search_match(&mut self)
        requires
            old(self)@.wf(),
        ensures
            final(self)@ == old(self)@.search_advanced(),
            final(self)@.wf(),
    {
        if let Some(mut search) = self.search.take() {
            search.advance();
            let mut target: Option<usize> = None;
            if let Some(current_match) = search.current_match {
                target = Some(search.matches[current_match]);
            }
            self.search = Some(search);
            // Scroll to the next match
            if let Some(match_idx) = target {
                self.scroll = match_idx;
                self.fix_scroll();
            }
        }
    }

    /// Searches the output, be it displayed or not.
    pub fn perform_search(&mut self)
        ensures
            final(self)@ == old(self)@.search_performed(),
            old(self)@.wf() ==> final(self)@.wf(),
    {
        if let Some(mut search) = self.search.take() {
            search.perform(self.shown_output());
            self.search = Some(search);
        }
    }

    /// The output of the last command or, if there's none, of the one which
    /// is running.
    fn shown_output(&self) -> (r: Option<&CommandOutput>)
        ensures
            match r {
                Some(output) => self@.shown_output() == Some(output@),
                None => self@.shown_output() is None,
            },
    {
        match self.cmd_result.output() {
            Some(output) => Some(output),
            None => self.output.as_ref(),
        }
    }

    /// Takes the result of the computation into account, and returns the
    /// indexes of the exports which must now be done.
    pub fn set_result(&mut self, cmd_result: CommandResult) -> (exports: Vec<usize>)
        requires
            old(self)@.wf(),
            old(self)@.wrap ==> old(self)@.width >= 1,
        ensures
            final(self)@ == old(self)@.with_result(cmd_result@),
            final(self)@.wf(),
            exports@ == mission::auto_exports(
                old(self)@.mission.settings.exports@,
                old(self)@.mission.settings.exports@.len() as int,
            ),
    {
        let mut cmd_result = cmd_result;
        if self.reverse {
            cmd_result.reverse();
        }
        // if the last line is empty, we remove it, to
        // avoid a useless empty line at the end
        cmd_result.remove_blank_end();

        // we keep the scroll when the number of lines didn't change
        let reset_scroll = self.cmd_result.lines_len() != cmd_result.lines_len();
        self.wrapped_report = None;
        self.wrapped_output = None;
        self.cmd_result = cmd_result;
        self.computing = false;
        if reset_scroll {
            self.reset_scroll();
        }
        self.raw_output = false;
        proof {
            lemma_counted(*self);
        }
        let scroll = self.scroll;
        let top_item_idx = self.top_item_idx;
        self.wrap_if_asked();
        if !reset_scroll {
            self.scroll = scroll;
            self.top_item_idx = top_item_idx;
        }

        // we do all exports which are set to auto
        self.mission.settings.auto_exports()
    }

    /// Tells whether a computation is in progress.
    pub fn is_computing(&self) -> (r: bool)
        ensures
            r == self@.computing,
    {
        self.computing
    }

    /// Forgets the output and the result.
    pub fn clear(&mut self)
        ensures
            final(self)@ == old(self)@.cleared(),
            old(self)@.wf() ==> final(self)@.wf(),
    {
        self.take_output();
        self.cmd_result = CommandResult::Nothing;
    }

    /// Starts a new task on the current mission: returns the task to be
    /// executed.
    pub fn start_computation(&mut self) -> (r: Task)
        ensures
            final(self)@ == old(self)@.started(),
            opt_view(r.backtrace) == old(self)@.backtrace,
            old(self)@.wf() ==> final(self)@.wf(),
    {
        self.computation_starts();
        self.new_task()
    }

    /// Called when a task has started
    pub fn computation_starts(&mut self)
        ensures
            final(self)@ == old(self)@.started(),
            old(self)@.wf() ==> final(self)@.wf(),
    {
        if !self.mission.job.background {
            self.clear();
        }
        self.computing = true;
        self.changes_since_last_job_start = 0;
    }

    /// Called when a task has stopped
    pub fn computation_stops(&mut self)
        ensures
            final(self)@ == old(self)@.stopped(),
            old(self)@.wf() ==> final(self)@.wf(),
    {
        self.computing = false;
    }

    /// Called when something changed
    pub fn receive_watch_event(&mut self)
        requires
            old(self)@.changes < usize::MAX,
        ensures
            final(self)@ == old(self)@.changed(),
            old(self)@.wf() ==> final(self)@.wf(),
    {
        self.changes_since_last_job_start += 1;
    }

    /// Goes to the top of the content.
    pub fn scroll_to_top(&mut self)
        ensures
            final(self)@ == old(self)@.scrolled_to_top(),
            old(self)@.wf() ==> final(self)@.wf(),
    {
        self.scroll = 0;
        self.top_item_idx = 0;
    }

    /// Goes to the bottom of the content.
    pub fn scroll_to_bottom(&mut self)
        ensures
            final(self)@ == old(self)@.scrolled_to_bottom(),
            old(self)@.wf() ==> final(self)@.wf(),
    {
        let ch = self.content_height();
        let ph = self.page_height();
        self.scroll = if ch > ph {
            ch - ph
        } else {
            0
        };
    }

    /// Tells whether there's at most one line hidden below.
    pub fn is_scroll_at_bottom(&self) -> (r: bool)
        ensures
            r == self@.is_scroll_at_bottom(),
    {
        let ch = self.content_height();
        self.scroll >= ch || ch - self.scroll <= self.page_height() + 1
    }

    /// Goes back to where the reading starts.
    pub fn reset_scroll(&mut self)
        ensures
            final(self)@ == old(self)@.scroll_reset(),
            old(self)@.wf() ==> final(self)@.wf(),
    {
        if self.reverse {
            self.scroll_to_bottom();
        } else {
            self.scroll_to_top();
        }
    }

    /// Brings the scroll back in the content.
    pub fn fix_scroll(&mut self)
        ensures
            final(self)@ == old(self)@.scroll_fixed(),
            old(self)@.wf() ==> final(self)@.wf(),
    {
        self.scroll = scroll::fix_scroll(self.scroll, self.content_height(), self.page_height());
    }

    /// The item which was on top on last draw.
    pub fn top_item_idx(&self) -> (r: usize)
        ensures
            r == self@.top_item_idx,
    {
        self.top_item_idx
    }

    /// Sets which item was on top on last draw. This is for a drawing which
    /// couldn't be executed.
    pub fn set_top_item_idx(&mut self, top_item_idx: usize)
        ensures
            final(self)@ == old(self)@.with_top_item(top_item_idx),
            old(self)@.wf() ==> final(self)@.wf(),
    {
        self.top_item_idx = top_item_idx;
    }

    /// get the scroll value needed to go to the last item (if any)
    pub fn get_last_item_scroll(&self) -> (r: usize)
        requires
            self@.wf(),
        ensures
            r == self@.last_item_scroll(),
    {
        proof {
            reveal(WrappedReportModel::wraps);
        }
        if let CommandResult::Report(report) = &self.cmd_result {
            let ghost lines = report@.lines;
            let mut items: Vec<usize> = Vec::new();
            match &self.wrapped_report {
                Some(wrapped_report) if self.wrap => {
                    let types = wrap::collect_row_types(&report.lines, &wrapped_report.sub_lines);
                    let rows = wrap::find_shown(&types, self.summary);
                    for i in 0..rows.len()
                        invariant
                            wrap::rows_in(lines, wrapped_report.sub_lines@),
                            lines == report::lines_model(report.lines@),
                            types.len() == wrapped_report.sub_lines.len(),
                            forall|j: int| 0 <= j < rows.len() ==> #[trigger] rows[j] < types.len(),
                            items.len() == i,
                            forall|j: int|
                                0 <= j < i ==> #[trigger] items[j]
                                    == lines[wrapped_report.sub_lines[rows[j] as int].line_idx as int].item_idx,
                    {
                        let sub_line = wrapped_report.sub_lines[rows[i]];
                        items.push(report.lines[sub_line.line_idx].item_idx);
                    }
                    assert(items@ =~= model::row_items(
                        lines,
                        wrapped_report.sub_lines@,
                        self.summary,
                    ));
                },
                _ => {
                    let types = wrap::collect_line_types(&report.lines);
                    let rows = wrap::find_shown(&types, self.summary);
                    for i in 0..rows.len()
                        invariant
                            lines == report::lines_model(report.lines@),
                            types.len() == report.lines.len(),
                            forall|j: int| 0 <= j < rows.len() ==> #[trigger] rows[j] < types.len(),
                            items.len() == i,
                            forall|j: int|
                                0 <= j < i ==> #[trigger] items[j] == lines[rows[j] as int].item_idx,
                    {
                        items.push(report.lines[rows[i]].item_idx);
                    }
                    assert(items@ =~= model::line_items(lines, self.summary));
                },
            }
            find_first_row(&items, self.top_item_idx)
        } else {
            0
        }
    }

    /// The actions bound to keys.
    pub fn keybindings(&self) -> (r: &KeyBindings)
        ensures
            *r == self@.mission.settings.keybindings,
    {
        &self.mission.settings.keybindings
    }

    /// Goes back to the item which was on top on last draw.
    pub fn try_scroll_to_last_top_item(&mut self)
        requires
            old(self)@.wf(),
        ensures
            final(self)@ == old(self)@.scrolled_to_last_top_item(),
            final(self)@.wf(),
    {
        self.scroll = self.get_last_item_scroll();
        self.fix_scroll();
    }

    /// close the help and return true if it was open,
    /// return false otherwise
    pub fn close_help(&mut self) -> (r: bool)
        ensures
            r == (old(self)@.help_page is Some),
            final(self)@ == old(self)@.help_closed(),
            old(self)@.wf() ==> final(self)@.wf(),
    {
        if self.help_page.is_some() {
            self.help_page = None;
            true
        } else {
            false
        }
    }

    /// Tells whether the help page is displayed.
    pub fn is_help(&self) -> (r: bool)
        ensures
            r == (self@.help_page is Some),
    {
        self.help_page.is_some()
    }

    /// Opens or closes the help page.
    pub fn toggle_help(&mut self)
        ensures
            final(self)@ == old(self)@.help_toggled(),
            old(self)@.wf() ==> final(self)@.wf(),
    {
        self.help_page = match self.help_page {
            Some(_) => None,
            None => Some(HelpPage::new(self.mission.settings)),
        };
    }

    /// Switches between the report and its summary.
    pub fn toggle_summary_mode(&mut self)
        requires
            old(self)@.wf(),
        ensures
            final(self)@ == old(self)@.summary_toggled(),
            final(self)@.wf(),
    {
        self.summary = !self.summary;
        self.try_scroll_to_last_top_item();
    }

    /// Asks for backtraces of this level, or for none if they're already
    /// asked for.
    pub fn toggle_backtrace(&mut self, level: &'static str)
        ensures
            final(self)@ == old(self)@.backtrace_toggled(level@),
            old(self)@.wf() ==> final(self)@.wf(),
    {
        let same = match self.backtrace {
            Some(current) => current.to_owned() == level.to_owned(),
            None => false,
        };
        self.backtrace = if same {
            None
        } else {
            Some(level)
        };
    }

    /// Switches between wrapped and unwrapped lines.
    pub fn toggle_wrap_mode(&mut self)
        requires
            old(self)@.wf(),
        ensures
            final(self)@ == old(self)@.wrap_toggled(),
            final(self)@.wf(),
    {
        self.wrap = !self.wrap;
        if self.wrapped_report.is_some() {
            self.try_scroll_to_last_top_item();
        }
    }

    /// The number of lines of what's displayed.
    pub fn content_height(&self) -> (r: usize)
        ensures
            r == self@.content_height(),
    {
        if let CommandResult::Report(report) = &self.cmd_result {
            if report.success || self.raw_output {
                if let Some(wrapped_output) = self.wrapped_output.as_ref() {
                    wrapped_output.sub_lines.len()
                } else {
                    report.output.len()
                }
            } else {
                if let Some(wrapped_report) = self.wrapped_report.as_ref() {
                    wrapped_report.content_height(self.summary)
                } else {
                    report.stats.lines(self.summary)
                }
            }
        } else if let Some(output) = self.shown_output() {
            match (self.wrap, self.wrapped_output.as_ref()) {
                (true, Some(wrapped_output)) => wrapped_output.sub_lines.len(),
                _ => output.len(),
            }
        } else {
            0
        }
    }

    /// The number of rows of the screen given to the content.
    pub fn page_height(&self) -> (r: usize)
        ensures
            r == self@.page_height(),
    {
        if self.height > 3 {
            (self.height - 3) as usize
        } else {
            0
        }
    }

    /// Takes new dimensions of the screen into account.
    pub fn resize(&mut self, width: u16, height: u16)
        requires
            old(self)@.wf(),
            old(self)@.wrap ==> width >= 1,
        ensures
            final(self)@ == old(self)@.resized(width, height),
            final(self)@.wf(),
    {
        if self.width != width {
            self.wrapped_report = None;
            self.wrapped_output = None;
        }
        self.width = width;
        self.height = height;
        self.wrap_if_asked();
        self.try_scroll_to_last_top_item();
    }

    /// Scrolls in the help page if it's open, and in the content otherwise.
    pub fn apply_scroll_command(&mut self, cmd: ScrollCommand)
        ensures
            final(self)@ == old(self)@.scrolled(cmd),
            old(self)@.wf() ==> final(self)@.wf(),
    {
        if let Some(mut help_page) = self.help_page {
            let area_height: usize = if self.height > 0 {
                (self.height - 1) as usize
            } else {
                0
            };
            help_page.apply_scroll_command(cmd, area_height);
            self.help_page = Some(help_page);
        } else {
            self.scroll = cmd.apply(self.scroll, self.content_height(), self.page_height());
        }
    }

    /// the action to execute now
    pub fn action(&self) -> (r: Option<&Action>)
        ensures
            match r {
                Some(action) => self@.action() == Some(*action),
                None => self@.action() is None,
            },
    {
        if let CommandResult::Report(report) = &self.cmd_result {
            if report.success {
                let on_success = self.mission.on_success().as_ref();
                if on_success.is_some() {
                    return on_success;
                }
            }
        }
        if self.changes_since_last_job_start > 0 && self.auto_refresh.is_enabled() {
            Some(&Action::Internal(Internal::ReRun))
        } else {
            None
        }
    }

    /// The report, unless its output is to be shown instead.
    pub fn report_to_draw(&self) -> (r: Option<&Report>)
        ensures
            match r {
                Some(report) => self@.report_to_draw() == Some(report@) && self@.result
                    == ResultModel::Report(report@),
                None => self@.report_to_draw() is None,
            },
    {
        match self.cmd_result.report() {
            Some(report) if !self.raw_output && !report.success => Some(report),
            _ => None,
        }
    }

    /// Wraps what's displayed, for this width.
    pub fn update_wrap(&mut self, width: u16)
        requires
            old(self)@.wf(),
        ensures
            final(self)@ == old(self)@.wrap_updated(width),
            final(self)@.wf(),
            final(self)@.mission == old(self)@.mission,
    {
        proof {
            reveal(StateModel::wrap_updated);
        }
        if let Some(report) = self.report_to_draw() {
            if self.wrapped_report.is_none() {
                self.wrapped_report = Some(WrappedReport::new(report, width));
                proof {
                    lemma_counted(*self);
                }
                self.scroll = self.get_last_item_scroll();
            }
        } else {
            let mut wrapped_output = self.wrapped_output.take();
            let mut fresh = false;
            if let Some(output) = self.shown_output() {
                match wrapped_output {
                    None => {
                        wrapped_output = Some(WrappedCommandOutput::new(output, width));
                        fresh = true;
                    },
                    Some(mut wo) => {
                        wo.update(output, width);
                        wrapped_output = Some(wo);
                    },
                }
            }
            self.wrapped_output = wrapped_output;
            if fresh {
                self.reset_scroll();
            }
            proof {
                lemma_counted(*self);
            }
        }
    }
}

} // verus!
