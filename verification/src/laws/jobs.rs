//! The life of a job, from its start to its result.
use crate::mission;
use crate::mission::{Action, Export, Internal, Mission};
use crate::model;
use crate::model::StateModel;
use crate::report::{LineModel, LineType, ResultModel};
use crate::select;
use crate::tline::TStringModel;
use crate::wrap;
use vstd::prelude::*;

verus! {

/// A mission starts computing, with nothing to show and nothing to do.
pub proof fn initially_nothing<'s>(mission: Mission<'s>, width: u16, height: u16)
    ensures
        model::initial(mission, width, height).wf(),
        model::initial(mission, width, height).computing,
        model::initial(mission, width, height).content_height() == 0,
        model::initial(mission, width, height).action() is None,
{
}

/// When a job starts, nothing of the previous one is displayed anymore and
/// there's nothing to do.
pub proof fn start_forgets<'s>(state: StateModel<'s>)
    requires
        !state.mission.job.background,
    ensures
        state.started().computing,
        state.started().content_height() == 0,
        state.started().shown_output() is None,
        state.started().action() is None,
{
}

/// A job which works in background lets what the previous one gave
/// displayed.
pub proof fn background_start_keeps<'s>(state: StateModel<'s>)
    requires
        state.mission.job.background,
    ensures
        state.started() == (StateModel { computing: true, changes: 0, ..state }),
        state.started().content_height() == state.content_height(),
{
}

/// A line comes after those which are already there, and doesn't change the
/// result.
pub proof fn line_comes_last<'s>(state: StateModel<'s>, line: Seq<TStringModel>)
    ensures
        state.with_line(line).output == Some(
            match state.output {
                Some(output) => output.push(line),
                None => seq![line],
            },
        ),
        state.with_line(line).result == state.result,
{
    if state.output is Some {
        let longer = StateModel { output: Some(state.output->0.push(line)), ..state };
        crate::laws::wrapping::wrapping_keeps_the_rest(longer, (longer.width - 1) as u16);
    }
}

/// The state after lines have been added, one after the other.
pub open spec fn with_lines<'s>(
    state: StateModel<'s>,
    lines: Seq<Seq<TStringModel>>,
) -> StateModel<'s>
    decreases lines.len(),
{
    if lines.len() == 0 {
        state
    } else {
        with_lines(state, lines.drop_last()).with_line(lines.last())
    }
}

/// Once the output has been taken, the lines which are then added are those
/// which can be taken, all of them and in the same order. They're taken once.
pub proof fn lines_are_taken_back<'s>(state: StateModel<'s>, lines: Seq<Seq<TStringModel>>)
    ensures
        with_lines(state.output_taken(), lines).output == if lines.len() == 0 {
            None
        } else {
            Some(lines)
        },
        with_lines(state.output_taken(), lines).output_taken().output is None,
        with_lines(state.output_taken(), lines).result == state.result,
    decreases lines.len(),
{
    if lines.len() > 0 {
        let fewer = lines.drop_last();
        lines_are_taken_back(state, fewer);
        line_comes_last(with_lines(state.output_taken(), fewer), lines.last());
        assert(fewer.push(lines.last()) =~= lines);
        if fewer.len() == 0 {
            assert(seq![lines.last()] =~= lines);
        }
    }
}

/// Once there's a result, the computation is over and the result is what's
/// displayed, in place of the raw output. The output of the job isn't lost.
pub proof fn result_ends_the_job<'s>(state: StateModel<'s>, result: ResultModel)
    ensures
        !state.with_result(result).computing,
        !state.with_result(result).raw_output,
        state.with_result(result).result == state.kept_result(result),
        state.with_result(result).output == state.output,
        state.with_result(result).search == state.search,
        state.kept_result(result).output() == if state.reverse && result is Failure {
            Some(result->output.reverse())
        } else {
            result.output()
        },
{
    let last = state.with_unwrapped_result(result);
    crate::laws::wrapping::wrapping_keeps_the_rest(last, (last.width - 1) as u16);
}

/// Whether it's a report and not its output which is shown for this result.
pub open spec fn shown_as_report(result: ResultModel) -> bool {
    match result {
        ResultModel::Report(report) => !report.success,
        _ => false,
    }
}

/// The scroll is kept if the number of lines didn't change, and so is the item
/// which was on top on last draw.
pub proof fn scroll_is_kept_with_same_count<'s>(state: StateModel<'s>, result: ResultModel)
    requires
        state.kept_result(result).lines_len() == state.result.lines_len(),
    ensures
        state.with_result(result).scroll == state.scroll,
        state.with_result(result).top_item_idx == state.top_item_idx,
{
}

/// When the number of lines changed, and unless a report is wrapped, the
/// reading starts again: from the top or, when the display is from bottom to
/// top and a report doesn't replace a raw output, from the bottom.
pub proof fn scroll_is_reset_with_other_count<'s>(state: StateModel<'s>, result: ResultModel)
    requires
        !(state.wrap && shown_as_report(result)),
        state.kept_result(result).lines_len() != state.result.lines_len(),
    ensures
        !state.reverse ==> state.with_result(result).scroll == 0,
        !state.reverse ==> state.with_result(result).top_item_idx == 0,
        state.reverse && !(state.raw_output && shown_as_report(result)) ==> state.with_result(
            result,
        ) == state.with_result(result).scrolled_to_bottom(),
{
    reveal(StateModel::wrap_updated);
    let last = state.with_unwrapped_result(result);
    assert(last.report_to_draw() is None || !state.wrap);
    if state.wrap && last.shown_output() is Some {
        let wrapped = StateModel {
            wrapped_output: Some(
                crate::wrap::wrapped_output(last.shown_output()->0, (last.width - 1) as u16),
            ),
            ..last
        };
        assert(state.with_result(result) == wrapped.scroll_reset());
        assert(wrapped.scroll_reset().content_height() == wrapped.content_height());
    }
}

/// Whether the items of the lines don't decrease.
pub open spec fn items_in_order(lines: Seq<LineModel>) -> bool {
    forall|i: int, j: int|
        0 <= i < j < lines.len() ==> (#[trigger] lines[i]).item_idx <= (
        #[trigger] lines[j]).item_idx
}

/// From top to bottom, and whether lines are wrapped or not, the reading starts
/// again from the top when the number of lines changed. This is for a report
/// whose items don't decrease from one line to the next one.
pub proof fn new_count_is_read_from_the_top<'s>(state: StateModel<'s>, result: ResultModel)
    requires
        !state.reverse,
        state.with_result(result).wf(),
        state.kept_result(result).lines_len() != state.result.lines_len(),
        result matches ResultModel::Report(report) ==> items_in_order(report.lines),
    ensures
        state.with_result(result).top_item_idx == 0,
        state.with_result(result).scroll == 0,
{
    if state.wrap && shown_as_report(result) {
        let after = state.with_result(result);
        wrapped_report_goes_to_the_top_item(state, result);
        crate::laws::operations::result_changes_what_is_displayed(state, result);
        let report = after.result->Report_0;
        let wrapped = after.wrapped_report->0;
        let rows = wrapped.sub_lines;
        let types = wrap::row_types(report.lines, rows);
        let keep = |i: int| !(state.summary && types[i] == LineType::Normal);
        let shown = wrap::shown(types, state.summary);
        let items = after.shown_items(report);
        crate::laws::wrapping::lemma_report_rows_order(
            report.lines,
            report.lines.len() as int,
            (state.width - 1) as u16,
        );
        select::selection_is_exact(keep, rows.len() as int);
        assert(shown == select::selected(keep, rows.len() as int));
        assert(after.wrap && after.summary == state.summary);
        assert(items == model::row_items(report.lines, rows, state.summary));
        assert(items.len() == shown.len());
        assert forall|i: int, j: int| 0 <= i < j < report.lines.len() implies (
        #[trigger] report.lines[i]).item_idx <= (#[trigger] report.lines[j]).item_idx by {
            let all = result->Report_0.lines;
            assert(report.lines[i] == all[i] && report.lines[j] == all[j]);
        }
        assert forall|i: int, j: int| 0 <= i < j < items.len() implies (#[trigger] items[i]) <= (
        #[trigger] items[j]) by {
            assert(shown[i] < shown[j]);
            let a = rows[shown[i] as int];
            let b = rows[shown[j] as int];
            assert(a.line_idx <= b.line_idx);
            assert(items[i] == report.lines[a.line_idx as int].item_idx);
            assert(items[j] == report.lines[b.line_idx as int].item_idx);
        }
        if after.scroll > 0 {
            assert(items[0] <= items[after.scroll]);
            assert(items[0] != after.top_item_idx);
        }
    } else {
        scroll_is_reset_with_other_count(state, result);
    }
}

/// When the number of lines changed, the scroll is in the content: it's at the
/// top or, from bottom to top, at the bottom. This isn't of a report which, from
/// bottom to top, is wrapped or replaces a raw output.
pub proof fn new_count_is_in_the_content<'s>(state: StateModel<'s>, result: ResultModel)
    requires
        !(state.reverse && shown_as_report(result) && (state.wrap || state.raw_output)),
        state.with_result(result).wf(),
        state.kept_result(result).lines_len() != state.result.lines_len(),
        result matches ResultModel::Report(report) ==> items_in_order(report.lines),
    ensures
        ({
            let after = state.with_result(result);
            let hidden = after.content_height() - after.page_height();
            &&& !state.reverse ==> after.scroll == 0
            &&& state.reverse && hidden > 0 ==> after.scroll == hidden
            &&& state.reverse && hidden <= 0 ==> after.scroll == 0
        }),
{
    if state.reverse {
        scroll_is_reset_with_other_count(state, result);
    } else {
        new_count_is_read_from_the_top(state, result);
    }
}

/// When a report is wrapped and the number of lines changed, the first row of
/// the item on top is on top: there's something to see. From top to bottom,
/// this item is the first one.
pub proof fn wrapped_report_goes_to_the_top_item<'s>(state: StateModel<'s>, result: ResultModel)
    requires
        state.wrap,
        shown_as_report(result),
        state.kept_result(result).lines_len() != state.result.lines_len(),
    ensures
        ({
            let after = state.with_result(result);
            let items = after.shown_items(after.result->Report_0);
            &&& after.result == state.kept_result(result)
            &&& after.wrapped_report == Some(
                wrap::wrapped_report(after.result->Report_0.lines, (state.width - 1) as u16),
            )
            &&& after.top_item_idx == if state.reverse {
                state.top_item_idx
            } else {
                0
            }
            &&& after.scroll == 0 || 0 < after.scroll < items.len() && items[after.scroll]
                == after.top_item_idx
            &&& forall|i: int| 0 <= i < after.scroll ==> #[trigger] items[i] != after.top_item_idx
            &&& items.contains(after.top_item_idx) ==> items[after.scroll] == after.top_item_idx
        }),
{
    reveal(StateModel::wrap_updated);
    let after = state.with_result(result);
    let items = after.shown_items(after.result->Report_0);
    items.index_of_first_ensures(after.top_item_idx);
    let unwrapped = state.with_unwrapped_result(result);
    let wrapped = unwrapped.wrap_updated((state.width - 1) as u16);
    assert(after == wrapped);
    assert(after.scroll == after.last_item_scroll());
}

/// A change makes the job run again, if this is wanted and unless there's
/// something to do for a success.
pub proof fn change_asks_for_a_run<'s>(state: StateModel<'s>)
    requires
        0 <= state.changes,
        state.action() is None,
    ensures
        state.auto_refresh is Enabled ==> state.changed().action() == Some(
            Action::Internal(Internal::ReRun),
        ),
        state.auto_refresh is Paused ==> state.changed().action() is None,
{
}

/// Nothing is done by itself when refreshes are paused, but what's wanted for
/// a success.
pub proof fn paused_does_nothing<'s>(state: StateModel<'s>)
    requires
        state.auto_refresh is Paused,
    ensures
        state.action() is Some ==> state.is_success() && state.action()
            == state.mission.job.on_success,
{
}

/// What's wanted for a success is done first.
pub proof fn success_comes_first<'s>(state: StateModel<'s>)
    requires
        state.is_success(),
        state.mission.job.on_success is Some,
    ensures
        state.action() == state.mission.job.on_success,
{
}

/// The automatic exports are all the exports set so, each one once and in
/// order.
pub proof fn auto_exports_are_exact(exports: Seq<Export>)
    requires
        exports.len() <= usize::MAX,
    ensures
        forall|i: usize|
            #[trigger] mission::auto_exports(exports, exports.len() as int).contains(i) <==> i
                < exports.len() && exports[i as int].auto,
        forall|j: int, k: int|
            0 <= j < k < mission::auto_exports(exports, exports.len() as int).len()
                ==> mission::auto_exports(exports, exports.len() as int)[j]
                < mission::auto_exports(exports, exports.len() as int)[k],
{
    let keep = |i: int| exports[i].auto;
    let n = exports.len() as int;
    select::selection_is_exact(keep, n);
    assert forall|i: usize|
        #[trigger] mission::auto_exports(exports, n).contains(i) <==> i < n
            && exports[i as int].auto by {
        if i < n && exports[i as int].auto {
            assert(keep(i as int));
        }
    }
}

} // verus!
