//! The state of the application as a value, and what the operations do to it.
use crate::display;
use crate::display::StatusSkin;
use crate::mission::{Action, AutoRefresh, HelpPage, Internal, Mission};
use crate::report::{LineModel, ReportModel, ResultModel};
use crate::scroll;
use crate::scroll::ScrollCommand;
use crate::search;
use crate::search::SearchModel;
use crate::tline::TStringModel;
use crate::wrap;
use crate::wrap::{SubLine, WrappedOutputModel, WrappedReportModel};
use vstd::prelude::*;

verus! {

/// The content of an `AppState`.
pub struct StateModel<'s> {
    pub mission: Mission<'s>,
    pub output: Option<Seq<Seq<TStringModel>>>,
    pub wrapped_output: Option<WrappedOutputModel>,
    pub result: ResultModel,
    pub wrapped_report: Option<WrappedReportModel>,
    pub width: u16,
    pub height: u16,
    pub computing: bool,
    pub wrap: bool,
    pub backtrace: Option<Seq<char>>,
    pub summary: bool,
    pub reverse: bool,
    pub status_skin: StatusSkin,
    pub scroll: int,
    pub top_item_idx: usize,
    pub help_line: bool,
    pub help_page: Option<HelpPage>,
    pub search: Option<SearchModel>,
    pub raw_output: bool,
    pub auto_refresh: AutoRefresh,
    pub changes: int,
    pub show_changes_count: bool,
}

/// The state in which a mission starts.
pub open spec fn initial<'s>(mission: Mission<'s>, width: u16, height: u16) -> StateModel<'s> {
    StateModel {
        mission,
        output: None,
        wrapped_output: None,
        result: ResultModel::Nothing,
        wrapped_report: None,
        width,
        height,
        computing: true,
        wrap: mission.settings.wrap,
        backtrace: None,
        summary: mission.settings.summary,
        reverse: mission.settings.reverse,
        status_skin: display::status_skin(),
        scroll: 0,
        top_item_idx: 0,
        help_line: mission.settings.help_line,
        help_page: None,
        search: None,
        raw_output: false,
        auto_refresh: AutoRefresh::Enabled,
        changes: 0,
        show_changes_count: mission.settings.show_changes_count,
    }
}

/// The items of the lines of a report, line by line, for the lines which are
/// shown.
pub open spec fn line_items(lines: Seq<LineModel>, summary: bool) -> Seq<usize> {
    wrap::shown(wrap::line_types(lines), summary).map_values(
        |i: usize| lines[i as int].item_idx,
    )
}

/// The items of the lines of a report, row by row, for the rows which are
/// shown.
pub open spec fn row_items(
    lines: Seq<LineModel>,
    sub_lines: Seq<SubLine>,
    summary: bool,
) -> Seq<usize> {
    wrap::shown(wrap::row_types(lines, sub_lines), summary).map_values(
        |i: usize| lines[sub_lines[i as int].line_idx as int].item_idx,
    )
}

/// The first row of an item, or the first row of all if the item isn't there.
pub open spec fn first_row(items: Seq<usize>, item_idx: usize) -> int {
    match items.index_of_first(item_idx) {
        Some(row) => row,
        None => 0,
    }
}

impl<'s> StateModel<'s> {
    /// Whether the lines, of outputs and reports, and the rows can be counted.
    pub open spec fn counted(self) -> bool {
        &&& self.output matches Some(output) ==> output.len() <= usize::MAX
        &&& self.result.output() matches Some(output) ==> output.len() <= usize::MAX
        &&& self.result.lines_len() <= usize::MAX
        &&& self.wrapped_output matches Some(wrapped) ==> wrapped.sub_lines.len() <= usize::MAX
        &&& self.wrapped_report matches Some(wrapped) ==> wrapped.sub_lines.len() <= usize::MAX
    }

    /// What holds of the state at any time: everything can be counted, the
    /// current match of the search exists, and a wrapped report is the one of
    /// the report.
    pub open spec fn wf(self) -> bool {
        &&& self.scroll >= 0
        &&& self.counted()
        &&& self.search matches Some(search) ==> search.wf()
        &&& (self.result, self.wrapped_report) matches (
            ResultModel::Report(report),
            Some(wrapped),
        ) ==> wrapped.wraps(report.lines)
    }

    /// The output of the last command or, if there's none, of the one which
    /// is running.
    pub open spec fn shown_output(self) -> Option<Seq<Seq<TStringModel>>> {
        match self.result.output() {
            Some(output) => Some(output),
            None => self.output,
        }
    }

    /// The report, unless its output is to be shown instead.
    pub open spec fn report_to_draw(self) -> Option<ReportModel> {
        match self.result {
            ResultModel::Report(report) => if self.raw_output || report.success {
                None
            } else {
                Some(report)
            },
            _ => None,
        }
    }

    /// The number of lines of what's displayed.
    pub open spec fn content_height(self) -> int {
        match self.result {
            ResultModel::Report(report) => if report.success || self.raw_output {
                match self.wrapped_output {
                    Some(wrapped) => wrapped.sub_lines.len() as int,
                    None => report.output.len() as int,
                }
            } else {
                match self.wrapped_report {
                    Some(wrapped) => wrapped.content_height(self.summary) as int,
                    None => report.stats.lines(self.summary) as int,
                }
            },
            _ => match self.shown_output() {
                Some(output) => match self.wrapped_output {
                    Some(wrapped) if self.wrap => wrapped.sub_lines.len() as int,
                    _ => output.len() as int,
                },
                None => 0,
            },
        }
    }

    /// The number of rows of the screen given to the content.
    pub open spec fn page_height(self) -> int {
        if self.height > 3 {
            self.height - 3
        } else {
            0
        }
    }

    /// With this item as the one which was on top on last draw.
    pub open spec fn with_top_item(self, top_item_idx: usize) -> StateModel<'s> {
        StateModel { top_item_idx, ..self }
    }

    /// Whether there's at most one line hidden below.
    pub open spec fn is_scroll_at_bottom(self) -> bool {
        self.scroll + self.page_height() + 1 >= self.content_height()
    }

    pub open spec fn scrolled_to_top(self) -> StateModel<'s> {
        StateModel { scroll: 0, top_item_idx: 0, ..self }
    }

    pub open spec fn scrolled_to_bottom(self) -> StateModel<'s> {
        StateModel {
            scroll: scroll::max_scroll(self.content_height(), self.page_height()),
            ..self
        }
    }

    /// Back to where the reading starts.
    pub open spec fn scroll_reset(self) -> StateModel<'s> {
        if self.reverse {
            self.scrolled_to_bottom()
        } else {
            self.scrolled_to_top()
        }
    }

    pub open spec fn scroll_fixed(self) -> StateModel<'s> {
        StateModel {
            scroll: scroll::fixed_scroll(self.scroll, self.content_height(), self.page_height()),
            ..self
        }
    }

    /// The items of the rows which can be shown for a report.
    pub open spec fn shown_items(self, report: ReportModel) -> Seq<usize> {
        match self.wrapped_report {
            Some(wrapped) if self.wrap => row_items(report.lines, wrapped.sub_lines, self.summary),
            _ => line_items(report.lines, self.summary),
        }
    }

    /// The scroll which puts on top the item which was there on last draw.
    pub open spec fn last_item_scroll(self) -> int {
        match self.result {
            ResultModel::Report(report) => first_row(self.shown_items(report), self.top_item_idx),
            _ => 0,
        }
    }

    pub open spec fn scrolled_to_last_top_item(self) -> StateModel<'s> {
        StateModel { scroll: self.last_item_scroll(), ..self }.scroll_fixed()
    }

    /// Once what's displayed is wrapped: a report which already is stays so,
    /// and so do the lines of an output.
    #[verifier::opaque]
    pub open spec fn wrap_updated(self, width: u16) -> StateModel<'s> {
        match self.report_to_draw() {
            Some(report) => if self.wrapped_report is None {
                let wrapped = StateModel {
                    wrapped_report: Some(wrap::wrapped_report(report.lines, width)),
                    ..self
                };
                StateModel { scroll: wrapped.last_item_scroll(), ..wrapped }
            } else {
                self
            },
            None => match self.shown_output() {
                Some(output) => match self.wrapped_output {
                    None => StateModel {
                        wrapped_output: Some(wrap::wrapped_output(output, width)),
                        ..self
                    }.scroll_reset(),
                    Some(wrapped) => StateModel {
                        wrapped_output: Some(wrapped.updated(output, width)),
                        ..self
                    },
                },
                None => self,
            },
        }
    }

    /// Wrapped for the width of the screen, if lines are to be wrapped. The
    /// last column is for the scrollbar.
    pub open spec fn wrapped_if_asked(self) -> StateModel<'s> {
        if self.wrap {
            self.wrap_updated((self.width - 1) as u16)
        } else {
            self
        }
    }

    /// With one more line of output. The bottom stays displayed if it was,
    /// and a new output is read from the top.
    pub open spec fn with_line(self, line: Seq<TStringModel>) -> StateModel<'s> {
        match self.output {
            Some(output) => {
                let longer = StateModel {
                    output: Some(output.push(line)),
                    ..self
                }.wrapped_if_asked();
                if self.is_scroll_at_bottom() {
                    longer.scrolled_to_bottom()
                } else {
                    longer
                }
            },
            None => StateModel {
                output: Some(seq![line]),
                wrapped_output: None,
                scroll: 0,
                ..self
            }.scroll_fixed(),
        }
    }

    pub open spec fn output_taken(self) -> StateModel<'s> {
        StateModel { output: None, wrapped_output: None, ..self }
    }

    pub open spec fn cleared(self) -> StateModel<'s> {
        StateModel { result: ResultModel::Nothing, ..self.output_taken() }
    }

    /// A job is running: unless it works in background, what the previous
    /// one gave isn't displayed anymore.
    pub open spec fn started(self) -> StateModel<'s> {
        let before = if self.mission.job.background {
            self
        } else {
            self.cleared()
        };
        StateModel { computing: true, changes: 0, ..before }
    }

    /// The job stopped.
    pub open spec fn stopped(self) -> StateModel<'s> {
        StateModel { computing: false, ..self }
    }

    /// One more change was seen.
    pub open spec fn changed(self) -> StateModel<'s> {
        StateModel { changes: self.changes + 1, ..self }
    }

    /// The result, as this state keeps it.
    pub open spec fn kept_result(self, result: ResultModel) -> ResultModel {
        if self.reverse {
            result.reversed().without_blank_end()
        } else {
            result.without_blank_end()
        }
    }

    /// The job gave its result, which isn't wrapped yet. The scroll is kept
    /// when the number of lines didn't change, and reset otherwise.
    pub open spec fn with_unwrapped_result(self, result: ResultModel) -> StateModel<'s> {
        let kept = self.kept_result(result);
        let done = StateModel {
            wrapped_report: None,
            wrapped_output: None,
            result: kept,
            computing: false,
            ..self
        };
        let scrolled = if self.result.lines_len() != kept.lines_len() {
            done.scroll_reset()
        } else {
            done
        };
        StateModel { raw_output: false, ..scrolled }
    }

    /// The job gave its result. The scroll is kept when the number of lines
    /// didn't change, be they wrapped or not.
    pub open spec fn with_result(self, result: ResultModel) -> StateModel<'s> {
        let wrapped = self.with_unwrapped_result(result).wrapped_if_asked();
        if self.result.lines_len() == self.kept_result(result).lines_len() {
            StateModel { scroll: self.scroll, top_item_idx: self.top_item_idx, ..wrapped }
        } else {
            wrapped
        }
    }

    /// On a screen of these dimensions, before anything is wrapped for it.
    pub open spec fn with_size(self, width: u16, height: u16) -> StateModel<'s> {
        let kept = if self.width == width {
            self
        } else {
            StateModel { wrapped_report: None, wrapped_output: None, ..self }
        };
        StateModel { width, height, ..kept }
    }

    /// On a screen of these dimensions.
    pub open spec fn resized(self, width: u16, height: u16) -> StateModel<'s> {
        self.with_size(width, height).wrapped_if_asked().scrolled_to_last_top_item()
    }

    /// The help page is scrolled when there's one, and the content otherwise.
    pub open spec fn scrolled(self, cmd: ScrollCommand) -> StateModel<'s> {
        match self.help_page {
            Some(help_page) => StateModel {
                help_page: Some(help_page.scrolled(cmd, self.help_area_height())),
                ..self
            },
            None => StateModel {
                scroll: scroll::fixed_scroll(
                    cmd.target(self.scroll, self.content_height(), self.page_height()),
                    self.content_height(),
                    self.page_height(),
                ),
                ..self
            },
        }
    }

    /// The number of rows of the screen given to the help page.
    pub open spec fn help_area_height(self) -> int {
        if self.height > 0 {
            self.height - 1
        } else {
            0
        }
    }

    pub open spec fn raw_output_toggled(self) -> StateModel<'s> {
        StateModel { raw_output: !self.raw_output, ..self }
    }

    pub open spec fn summary_toggled(self) -> StateModel<'s> {
        StateModel { summary: !self.summary, ..self }.scrolled_to_last_top_item()
    }

    pub open spec fn wrap_toggled(self) -> StateModel<'s> {
        let toggled = StateModel { wrap: !self.wrap, ..self };
        if self.wrapped_report is Some {
            toggled.scrolled_to_last_top_item()
        } else {
            toggled
        }
    }

    pub open spec fn backtrace_toggled(self, level: Seq<char>) -> StateModel<'s> {
        StateModel {
            backtrace: if self.backtrace == Some(level) {
                None
            } else {
                Some(level)
            },
            ..self
        }
    }

    pub open spec fn help_toggled(self) -> StateModel<'s> {
        StateModel {
            help_page: match self.help_page {
                Some(_) => None,
                None => Some(
                    HelpPage {
                        content_height: self.mission.settings.help_page_height,
                        scroll: 0,
                    },
                ),
            },
            ..self
        }
    }

    pub open spec fn help_closed(self) -> StateModel<'s> {
        StateModel { help_page: None, ..self }
    }

    /// Searching. A search which is already there is kept.
    pub open spec fn search_started(self) -> StateModel<'s> {
        match self.search {
            Some(_) => self,
            None => StateModel { search: Some(search::empty_search()), ..self },
        }
    }

    pub open spec fn search_exited(self) -> StateModel<'s> {
        StateModel { search: None, ..self }
    }

    /// The search, if any, is done in the output, be it displayed or not.
    pub open spec fn search_performed(self) -> StateModel<'s> {
        match self.search {
            Some(search) => StateModel {
                search: Some(search.performed(self.shown_output())),
                ..self
            },
            None => self,
        }
    }

    /// With this query, if there's a search.
    pub open spec fn with_query(self, query: Seq<char>) -> StateModel<'s> {
        match self.search {
            Some(search) => StateModel {
                search: Some(SearchModel { query, ..search }),
                ..self
            }.search_performed(),
            None => self,
        }
    }

    /// With one more character in the query.
    pub open spec fn search_updated(self, c: char) -> StateModel<'s> {
        match self.search {
            Some(search) => self.with_query(search.query.push(c)),
            None => self,
        }
    }

    /// Without the last character of the query.
    pub open spec fn search_backspaced(self) -> StateModel<'s> {
        match self.search {
            Some(search) => self.with_query(
                if search.query.len() > 0 {
                    search.query.drop_last()
                } else {
                    search.query
                },
            ),
            None => self,
        }
    }

    /// On the next match: the scroll is the index of its line, or as near of
    /// it as possible.
    pub open spec fn search_advanced(self) -> StateModel<'s> {
        match self.search {
            Some(search) => {
                let advanced = StateModel { search: Some(search.advanced()), ..self };
                match search.next_match() {
                    Some(current) => StateModel {
                        scroll: search.matches[current as int] as int,
                        ..advanced
                    }.scroll_fixed(),
                    None => advanced,
                }
            },
            None => self,
        }
    }

    /// Whether the result is a success.
    pub open spec fn is_success(self) -> bool {
        match self.result {
            ResultModel::Report(report) => report.success,
            _ => false,
        }
    }

    /// What must be done now, if anything.
    pub open spec fn action(self) -> Option<Action> {
        if self.is_success() && self.mission.job.on_success is Some {
            self.mission.job.on_success
        } else if self.changes > 0 && self.auto_refresh is Enabled {
            Some(Action::Internal(Internal::ReRun))
        } else {
            None
        }
    }
}

} // verus!
