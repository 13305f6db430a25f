//! What each operation changes, and that it changes nothing else.
use crate::display::StatusSkin;
use crate::laws::wrapping;
use crate::mission::{Action, AutoRefresh, HelpPage, Internal, Mission};
use crate::model;
use crate::model::StateModel;
use crate::report::{ReportModel, ResultModel};
use crate::scroll::ScrollCommand;
use crate::tline::TStringModel;
use crate::wrap;
use vstd::prelude::*;

verus! {

/// A mission starts as its settings want it, with a job running and nothing to
/// show.
pub proof fn settings_are_followed<'s>(mission: Mission<'s>, width: u16, height: u16)
    ensures
        ({
            let state = model::initial(mission, width, height);
            &&& state.mission == mission
            &&& state.width == width && state.height == height
            &&& state.wrap == mission.settings.wrap
            &&& state.summary == mission.settings.summary
            &&& state.reverse == mission.settings.reverse
            &&& state.help_line == mission.settings.help_line
            &&& state.show_changes_count == mission.settings.show_changes_count
            &&& state.computing && state.auto_refresh is Enabled && !state.raw_output
            &&& state.output is None && state.result is Nothing
            &&& state.wrapped_output is None && state.wrapped_report is None
            &&& state.search is None && state.help_page is None && state.backtrace is None
            &&& state.scroll == 0 && state.top_item_idx == 0 && state.changes == 0
            &&& state.status_skin == (StatusSkin {
                paragraph_fg: 252,
                paragraph_bg: 239,
                italic_fg: 204,
            })
        }),
{
}

/// Each switch changes what it's for to its opposite, and nothing else. The
/// search is only started, then left.
pub proof fn switches_change_one_thing<'s>(state: StateModel<'s>)
    ensures
        state.raw_output_toggled().raw_output != state.raw_output,
        state == (StateModel {
            raw_output: state.raw_output,
            ..state.raw_output_toggled()
        }),
        state.help_toggled().help_page is Some <==> state.help_page is None,
        state == (StateModel { help_page: state.help_page, ..state.help_toggled() }),
        state.help_closed().help_page is None,
        state == (StateModel { help_page: state.help_page, ..state.help_closed() }),
        state.search_started().search is Some,
        state.search is Some ==> state.search_started() == state,
        state == (StateModel { search: state.search, ..state.search_started() }),
        state.search_exited().search is None,
        state == (StateModel { search: state.search, ..state.search_exited() }),
{
}

/// A help page has the number of lines the settings give, and is read from its
/// top. A search starts with no query and no match.
pub proof fn fresh_start<'s>(state: StateModel<'s>)
    ensures
        state.help_page is None ==> state.help_toggled().help_page == Some(
            HelpPage { content_height: state.mission.settings.help_page_height, scroll: 0 },
        ),
        state.search is None ==> {
            let search = state.search_started().search->0;
            &&& search.query.len() == 0
            &&& search.matches.len() == 0
            &&& search.current_match is None
        },
{
}

/// Asking for backtraces changes nothing but them.
pub proof fn backtrace_is_alone<'s>(state: StateModel<'s>, level: Seq<char>)
    ensures
        state.backtrace_toggled(level).backtrace == if state.backtrace == Some(level) {
            None
        } else {
            Some(level)
        },
        state == (StateModel { backtrace: state.backtrace, ..state.backtrace_toggled(level) }),
{
}

proof fn lemma_back_to_top_item<'s>(state: StateModel<'s>)
    ensures
        nearest(
            state.scrolled_to_last_top_item(),
            state.scrolled_to_last_top_item().last_item_scroll(),
            state.scrolled_to_last_top_item().scroll,
        ),
        state == (StateModel { scroll: state.scroll, ..state.scrolled_to_last_top_item() }),
{
    moves_go_where_they_say(state);
    let after = state.scrolled_to_last_top_item();
    assert(after.content_height() == state.content_height());
    assert(after.last_item_scroll() == state.last_item_scroll());
}

/// The summary is switched on when it's off and off when it's on, then the
/// scroll goes back to the item which was on top. Nothing else changes.
pub proof fn summary_is_switched<'s>(state: StateModel<'s>)
    ensures
        ({
            let after = state.summary_toggled();
            &&& after.summary != state.summary
            &&& state == (StateModel { summary: state.summary, scroll: state.scroll, ..after })
            &&& nearest(after, after.last_item_scroll(), after.scroll)
        }),
{
    lemma_back_to_top_item(StateModel { summary: !state.summary, ..state });
}

/// The wrapping is switched on when it's off and off when it's on. If a report
/// is wrapped, the scroll then goes back to the item which was on top. Nothing
/// else changes.
pub proof fn wrapping_is_switched<'s>(state: StateModel<'s>)
    ensures
        ({
            let after = state.wrap_toggled();
            &&& after.wrap != state.wrap
            &&& state == (StateModel { wrap: state.wrap, scroll: state.scroll, ..after })
            &&& state.wrapped_report is None ==> after.scroll == state.scroll
            &&& state.wrapped_report is Some ==> nearest(
                after,
                after.last_item_scroll(),
                after.scroll,
            )
        }),
{
    lemma_back_to_top_item(StateModel { wrap: !state.wrap, ..state });
}

/// The output of the last command is shown or, when there's no result, the one
/// of the command which is running.
pub proof fn last_output_is_shown<'s>(state: StateModel<'s>)
    ensures
        state.shown_output() == match state.result {
            ResultModel::Report(report) => Some(report.output),
            ResultModel::Failure { output, .. } => Some(output),
            ResultModel::Nothing => state.output,
        },
{
}

/// A report is shown unless it's a success or the raw output is wanted.
pub proof fn report_is_shown_unless<'s>(state: StateModel<'s>)
    ensures
        state.report_to_draw() is Some <==> state.result is Report && !state.raw_output
            && !state.result->Report_0.success,
        state.report_to_draw() is Some ==> state.report_to_draw()->0 == state.result->Report_0,
{
}

/// Three rows of the screen aren't for the content.
pub proof fn page_leaves_three_rows<'s>(state: StateModel<'s>)
    ensures
        state.height >= 3 ==> state.page_height() == state.height - 3,
        state.height < 3 ==> state.page_height() == 0,
{
}

/// The height of the content is the number of lines of what's shown or, once
/// it's wrapped, the number of its rows.
pub proof fn height_is_of_what_is_shown<'s>(state: StateModel<'s>, report: ReportModel)
    ensures
        state.report_to_draw() == Some(report) ==> state.content_height() == match (
            state.wrapped_report,
            state.summary,
        ) {
            (None, false) => report.stats.full_lines as int,
            (None, true) => report.stats.summary_lines as int,
            (Some(wrapped), false) => wrapped.sub_lines.len() as int,
            (Some(wrapped), true) => wrapped.summary_height as int,
        },
        state.report_to_draw() is None ==> state.content_height() == match (
            state.shown_output(),
            state.wrapped_output,
        ) {
            (None, _) => 0,
            (Some(output), None) => output.len() as int,
            (Some(output), Some(wrapped)) => if state.wrap || state.result is Report {
                wrapped.sub_lines.len() as int
            } else {
                output.len() as int
            },
        },
{
}

/// The scroll is said to be at the bottom when at most one line is hidden
/// below the page.
pub proof fn at_most_one_line_is_below<'s>(state: StateModel<'s>)
    ensures
        state.is_scroll_at_bottom() <==> state.content_height() - (state.scroll
            + state.page_height()) <= 1,
{
}

/// The last position: nothing is hidden below, and no row is lost.
pub open spec fn bottom<'s>(state: StateModel<'s>) -> int {
    if state.content_height() >= state.page_height() {
        state.content_height() - state.page_height()
    } else {
        0
    }
}

/// Whether `to` is as near of `wanted` as the content allows.
pub open spec fn nearest<'s>(state: StateModel<'s>, wanted: int, to: int) -> bool {
    &&& wanted <= 0 ==> to == 0
    &&& wanted >= bottom(state) ==> to == bottom(state)
    &&& 0 <= wanted <= bottom(state) ==> to == wanted
}

/// Going somewhere in the content changes only the scroll, and which item is
/// on top when it's to the top.
pub proof fn moves_go_where_they_say<'s>(state: StateModel<'s>)
    ensures
        state.scrolled_to_top() == (StateModel { scroll: 0, top_item_idx: 0, ..state }),
        state.scrolled_to_bottom() == (StateModel { scroll: bottom(state), ..state }),
        !state.reverse ==> state.scroll_reset() == state.scrolled_to_top(),
        state.reverse ==> state.scroll_reset() == state.scrolled_to_bottom(),
        nearest(state, state.scroll, state.scroll_fixed().scroll),
        state == (StateModel { scroll: state.scroll, ..state.scroll_fixed() }),
        nearest(
            state,
            state.last_item_scroll(),
            state.scrolled_to_last_top_item().scroll,
        ),
        state == (StateModel { scroll: state.scroll, ..state.scrolled_to_last_top_item() }),
{
    let moved = StateModel { scroll: state.last_item_scroll(), ..state };
    assert(moved.content_height() == state.content_height());
}

/// A command moves the content, without help page, by as many lines or pages
/// as it says, or to an end, as far as the content allows. Nothing else
/// changes.
pub proof fn commands_move_by_what_they_say<'s>(state: StateModel<'s>, n: i32)
    requires
        state.help_page is None,
    ensures
        nearest(
            state,
            state.scroll + n,
            state.scrolled(ScrollCommand::Lines(n)).scroll,
        ),
        nearest(
            state,
            state.scroll + n * state.page_height(),
            state.scrolled(ScrollCommand::Pages(n)).scroll,
        ),
        state.scrolled(ScrollCommand::Top).scroll == 0,
        state.scrolled(ScrollCommand::Bottom).scroll == bottom(state),
        forall|cmd: ScrollCommand|
            state == (StateModel { scroll: state.scroll, ..#[trigger] state.scrolled(cmd) }),
{
}

/// A command moves the help page when it's there, by as much as it says and as
/// far as its lines allow, in the whole screen but one row. Nothing else
/// changes.
pub proof fn commands_move_the_help_page<'s>(state: StateModel<'s>, page: HelpPage, n: i32)
    requires
        state.help_page == Some(page),
        state.height >= 1,
        page.content_height > state.height - 1,
    ensures
        ({
            let max = page.content_height - (state.height - 1);
            let by_lines = state.scrolled(ScrollCommand::Lines(n)).help_page->0.scroll;
            let by_pages = state.scrolled(ScrollCommand::Pages(n)).help_page->0.scroll;
            let lines = page.scroll + n;
            let pages = page.scroll + n * (state.height - 1);
            &&& lines <= 0 ==> by_lines == 0
            &&& 0 <= lines <= max ==> by_lines == lines
            &&& lines >= max ==> by_lines == max
            &&& pages <= 0 ==> by_pages == 0
            &&& 0 <= pages <= max ==> by_pages == pages
            &&& pages >= max ==> by_pages == max
            &&& state.scrolled(ScrollCommand::Top).help_page->0.scroll == 0
            &&& state.scrolled(ScrollCommand::Bottom).help_page->0.scroll == max
        }),
        forall|cmd: ScrollCommand|
            #![trigger state.scrolled(cmd)]
            state.scrolled(cmd).help_page is Some && state.scrolled(
                cmd,
            ).help_page->0.content_height == page.content_height && state == (StateModel {
                help_page: state.help_page,
                ..state.scrolled(cmd)
            }),
{
}

/// A help page which fits in the screen isn't scrolled.
pub proof fn short_help_page_is_not_scrolled<'s>(
    state: StateModel<'s>,
    page: HelpPage,
    cmd: ScrollCommand,
)
    requires
        state.help_page == Some(page),
        page.content_height <= state.height - 1,
    ensures
        state.scrolled(cmd).help_page->0.scroll == 0,
{
}

/// Adding a line only changes the output, how it's wrapped and how it's read.
/// When the bottom was displayed, the new bottom is.
pub proof fn line_changes_the_output_only<'s>(state: StateModel<'s>, line: Seq<TStringModel>)
    ensures
        ({
            let after = state.with_line(line);
            &&& state == (StateModel {
                output: state.output,
                wrapped_output: state.wrapped_output,
                wrapped_report: state.wrapped_report,
                scroll: state.scroll,
                top_item_idx: state.top_item_idx,
                ..after
            })
            &&& state.output is None ==> after.scroll == 0 && after.top_item_idx
                == state.top_item_idx && after.wrapped_report == state.wrapped_report
                && after.wrapped_output is None
            &&& state.output is Some && state.is_scroll_at_bottom() ==> after.scroll == bottom(
                after,
            )
            &&& !state.wrap && state.output is Some ==> after.wrapped_report
                == state.wrapped_report && after.wrapped_output == state.wrapped_output
                && after.top_item_idx == state.top_item_idx
            &&& state.output matches Some(output) ==> {
                let wrapped = (StateModel {
                    output: Some(output.push(line)),
                    ..state
                }).wrapped_if_asked();
                &&& after == (StateModel { scroll: after.scroll, ..wrapped })
                &&& !state.is_scroll_at_bottom() ==> after.scroll == wrapped.scroll
            }
        }),
{
    if let Some(output) = state.output {
        let longer = StateModel { output: Some(output.push(line)), ..state };
        wrapping::wrapping_keeps_the_rest(longer, (longer.width - 1) as u16);
        let wrapped = longer.wrapped_if_asked();
        assert(wrapped.scrolled_to_bottom().content_height() == wrapped.content_height());
    }
}

/// Taking the output leaves none, and changes nothing but it and how it was
/// wrapped. Clearing forgets the result too.
pub proof fn output_is_forgotten<'s>(state: StateModel<'s>)
    ensures
        state.output_taken() == (StateModel { output: None, wrapped_output: None, ..state }),
        state.cleared() == (StateModel {
            output: None,
            wrapped_output: None,
            result: ResultModel::Nothing,
            ..state
        }),
{
}

/// A job which starts is running, with no change seen yet. It forgets what the
/// previous one gave, unless it works in background.
pub proof fn job_starts_and_stops<'s>(state: StateModel<'s>)
    ensures
        state.started().computing,
        state.started().changes == 0,
        state.mission.job.background ==> state == (StateModel {
            computing: state.computing,
            changes: state.changes,
            ..state.started()
        }),
        !state.mission.job.background ==> state.started() == (StateModel {
            computing: true,
            changes: 0,
            ..state.cleared()
        }),
        !state.stopped().computing,
        state == (StateModel { computing: state.computing, ..state.stopped() }),
        state.changed().changes == state.changes + 1,
        state == (StateModel { changes: state.changes, ..state.changed() }),
{
}

/// A result only changes what's displayed: the result, how it's wrapped and
/// read, and that no job is running. When lines aren't wrapped, nothing is.
pub proof fn result_changes_what_is_displayed<'s>(state: StateModel<'s>, result: ResultModel)
    ensures
        ({
            let after = state.with_result(result);
            &&& state == (StateModel {
                result: state.result,
                wrapped_output: state.wrapped_output,
                wrapped_report: state.wrapped_report,
                scroll: state.scroll,
                top_item_idx: state.top_item_idx,
                computing: state.computing,
                raw_output: state.raw_output,
                ..after
            })
            &&& !after.computing
            &&& !after.raw_output
            &&& !state.wrap ==> after.wrapped_output is None && after.wrapped_report is None
        }),
{
    let unwrapped = state.with_unwrapped_result(result);
    wrapping::wrapping_keeps_the_rest(unwrapped, (unwrapped.width - 1) as u16);
}

/// A result is kept as it is, but for the blank line a report may end with.
/// From bottom to top it's reversed first.
pub proof fn result_is_kept<'s>(state: StateModel<'s>, result: ResultModel)
    ensures
        !state.reverse ==> state.kept_result(result) == result.without_blank_end(),
        state.reverse ==> state.kept_result(result) == result.reversed().without_blank_end(),
        state.kept_result(result) is Report <==> result is Report,
        state.kept_result(result) is Failure <==> result is Failure,
        result is Failure ==> state.kept_result(result)->error_code == result->error_code,
        result is Failure && !state.reverse ==> state.kept_result(result) == result,
        result is Report ==> {
            let before = result->Report_0;
            let kept = state.kept_result(result)->Report_0;
            kept.output == before.output && kept.stats == before.stats && kept.success
                == before.success
        },
{
}

/// New dimensions are taken, what's wrapped and the scroll are adapted to them,
/// and nothing else changes. The scroll goes back to the item which was on top.
pub proof fn dimensions_are_taken<'s>(state: StateModel<'s>, width: u16, height: u16)
    ensures
        ({
            let after = state.resized(width, height);
            &&& after.width == width
            &&& after.height == height
            &&& state == (StateModel {
                width: state.width,
                height: state.height,
                wrapped_output: state.wrapped_output,
                wrapped_report: state.wrapped_report,
                scroll: state.scroll,
                top_item_idx: state.top_item_idx,
                ..after
            })
            &&& nearest(after, after.last_item_scroll(), after.scroll)
            &&& !state.wrap || state.report_to_draw() is Some ==> after.top_item_idx
                == state.top_item_idx
            &&& !state.wrap && width != state.width ==> after.wrapped_output is None
                && after.wrapped_report is None
            &&& !state.wrap && width == state.width ==> after.wrapped_output
                == state.wrapped_output && after.wrapped_report == state.wrapped_report
        }),
{
    reveal(StateModel::wrap_updated);
    let sized = state.with_size(width, height);
    wrapping::wrapping_keeps_the_rest(sized, (width - 1) as u16);
    let wrapped = sized.wrapped_if_asked();
    moves_go_where_they_say(wrapped);
    let after = state.resized(width, height);
    assert(after == wrapped.scrolled_to_last_top_item());
    assert(after.content_height() == wrapped.content_height());
    assert(after.last_item_scroll() == wrapped.last_item_scroll());
}

/// Wrapping an output which wasn't goes back to where the reading starts, and
/// wrapping a report goes to the row of the item which was on top. What's
/// already wrapped isn't moved.
pub proof fn wrapping_moves_what_was_not_wrapped<'s>(state: StateModel<'s>, width: u16)
    ensures
        ({
            let after = state.wrap_updated(width);
            &&& state.report_to_draw() is Some && state.wrapped_report is None ==> after.scroll
                == after.last_item_scroll() && after.top_item_idx == state.top_item_idx
                && after.wrapped_output == state.wrapped_output && after.wrapped_report == Some(
                wrap::wrapped_report(state.report_to_draw()->0.lines, width),
            )
            &&& state.report_to_draw() is Some && state.wrapped_report is Some ==> after == state
            &&& state.report_to_draw() is None ==> after.wrapped_report == state.wrapped_report
            &&& state.report_to_draw() is None && state.shown_output() is None ==> after == state
            &&& state.report_to_draw() is None && state.shown_output() is Some
                && state.wrapped_output is None ==> {
                &&& after.wrapped_output == Some(
                    wrap::wrapped_output(state.shown_output()->0, width),
                )
                &&& !state.reverse ==> after.scroll == 0 && after.top_item_idx == 0
                &&& state.reverse ==> after.scroll == bottom(after) && after.top_item_idx
                    == state.top_item_idx
            }
            &&& state.report_to_draw() is None && state.wrapped_output is Some ==> after.scroll
                == state.scroll && after.top_item_idx == state.top_item_idx
            &&& state.wrap ==> state.wrapped_if_asked() == state.wrap_updated(
                (state.width - 1) as u16,
            )
        }),
{
    reveal(StateModel::wrap_updated);
    if let Some(output) = state.shown_output() {
        let wrapped = StateModel {
            wrapped_output: Some(wrap::wrapped_output(output, width)),
            ..state
        };
        assert(wrapped.scroll_reset().content_height() == wrapped.content_height());
    }
}

/// What must be done now: what's wanted for a success if it's one, or else
/// another run if there were changes and unless refreshes are paused.
pub proof fn action_is_what_is_wanted<'s>(state: StateModel<'s>)
    ensures
        ({
            let succeeded = state.result matches ResultModel::Report(report) && report.success;
            state.action() == if succeeded && state.mission.job.on_success is Some {
                state.mission.job.on_success
            } else if state.changes > 0 && state.auto_refresh == AutoRefresh::Enabled {
                Some(Action::Internal(Internal::ReRun))
            } else {
                None
            }
        }),
{
}

/// The item said to be on top changes nothing else.
pub proof fn top_item_is_alone<'s>(state: StateModel<'s>, top_item_idx: usize)
    ensures
        state.with_top_item(top_item_idx).top_item_idx == top_item_idx,
        state == (StateModel {
            top_item_idx: state.top_item_idx,
            ..state.with_top_item(top_item_idx)
        }),
{
}

} // verus!
