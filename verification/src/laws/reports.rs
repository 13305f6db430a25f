//! A report is reordered, never altered.
use crate::report;
use crate::report::{LineModel, ReportModel, ResultModel};
use crate::text;
use crate::tline;
use crate::tline::TStringModel;
use vstd::prelude::*;

verus! {

/// Whether the items come in decreasing order.
pub open spec fn items_decrease(lines: Seq<LineModel>) -> bool {
    forall|i: int, j: int|
        0 <= i < j < lines.len() ==> (#[trigger] lines[i]).item_idx >= (
        #[trigger] lines[j]).item_idx
}

/// The lines of an item, in order.
pub open spec fn lines_of(lines: Seq<LineModel>, item_idx: usize) -> Seq<LineModel>
    decreases lines.len(),
{
    if lines.len() == 0 {
        Seq::empty()
    } else {
        let rest = lines_of(lines.drop_first(), item_idx);
        if lines[0].item_idx == item_idx {
            seq![lines[0]] + rest
        } else {
            rest
        }
    }
}

proof fn lemma_place(lines: Seq<LineModel>, item_idx: usize)
    ensures
        0 <= report::place(lines, item_idx) <= lines.len(),
        forall|i: int|
            0 <= i < report::place(lines, item_idx) ==> (#[trigger] lines[i]).item_idx > item_idx,
        report::place(lines, item_idx) < lines.len() ==> lines[report::place(
            lines,
            item_idx,
        )].item_idx <= item_idx,
    decreases lines.len(),
{
    if lines.len() > 0 && lines[0].item_idx > item_idx {
        let rest = lines.drop_first();
        lemma_place(rest, item_idx);
        assert forall|i: int| 0 <= i < report::place(lines, item_idx) implies (
        #[trigger] lines[i]).item_idx > item_idx by {
            if i > 0 {
                assert(lines[i] == rest[i - 1]);
            }
        }
        let p = report::place(rest, item_idx);
        if p < rest.len() {
            assert(lines[p + 1] == rest[p]);
        }
    }
}

/// Reversing a report puts its items in decreasing order.
pub proof fn reversed_items_decrease(lines: Seq<LineModel>)
    ensures
        items_decrease(report::items_reversed(lines)),
        report::items_reversed(lines).len() == lines.len(),
    decreases lines.len(),
{
    if lines.len() > 0 {
        let others = report::items_reversed(lines.drop_first());
        reversed_items_decrease(lines.drop_first());
        lemma_place(others, lines[0].item_idx);
        let p = report::place(others, lines[0].item_idx);
        others.insert_ensures(p, lines[0]);
        let all = report::items_reversed(lines);
        assert forall|i: int, j: int| 0 <= i < j < all.len() implies (
        #[trigger] all[i]).item_idx >= (#[trigger] all[j]).item_idx by {
            let before = |k: int| if k < p { k } else { k - 1 };
            if i != p && j != p {
                assert(all[i] == others[before(i)] && all[j] == others[before(j)]);
            } else if i == p {
                assert(all[j] == others[j - 1]);
                assert(others[p].item_idx <= lines[0].item_idx);
                if j - 1 > p {
                    assert(others[p].item_idx >= others[j - 1].item_idx);
                }
            } else {
                assert(all[i] == others[i]);
            }
        }
    }
}

proof fn lemma_lines_of_insert(lines: Seq<LineModel>, p: int, line: LineModel, item_idx: usize)
    requires
        0 <= p <= lines.len(),
        forall|i: int| 0 <= i < p ==> (#[trigger] lines[i]).item_idx != line.item_idx,
    ensures
        lines_of(lines.insert(p, line), item_idx) == if line.item_idx == item_idx {
            seq![line] + lines_of(lines, item_idx)
        } else {
            lines_of(lines, item_idx)
        },
    decreases p,
{
    let inserted = lines.insert(p, line);
    if p == 0 {
        assert(inserted.drop_first() =~= lines);
    } else {
        let rest = lines.drop_first();
        assert forall|i: int| 0 <= i < p - 1 implies (#[trigger] rest[i]).item_idx
            != line.item_idx by {
            assert(rest[i] == lines[i + 1]);
        }
        lemma_lines_of_insert(rest, p - 1, line, item_idx);
        assert(inserted.drop_first() =~= rest.insert(p - 1, line));
        assert(inserted[0] == lines[0]);
        assert(lines[0].item_idx != line.item_idx);
    }
}

/// Reversing a report keeps all the lines of an item, in the same order.
pub proof fn reversed_keeps_the_lines_of_items(lines: Seq<LineModel>, item_idx: usize)
    ensures
        lines_of(report::items_reversed(lines), item_idx) == lines_of(lines, item_idx),
    decreases lines.len(),
{
    if lines.len() > 0 {
        let rest = lines.drop_first();
        let others = report::items_reversed(rest);
        reversed_keeps_the_lines_of_items(rest, item_idx);
        lemma_place(others, lines[0].item_idx);
        lemma_lines_of_insert(
            others,
            report::place(others, lines[0].item_idx),
            lines[0],
            item_idx,
        );
    }
}

/// Reversing a report neither adds nor removes a line.
pub proof fn reversed_has_the_same_lines(lines: Seq<LineModel>)
    ensures
        report::items_reversed(lines).to_multiset() == lines.to_multiset(),
    decreases lines.len(),
{
    if lines.len() > 0 {
        let rest = lines.drop_first();
        let others = report::items_reversed(rest);
        reversed_has_the_same_lines(rest);
        lemma_place(others, lines[0].item_idx);
        vstd::seq_lib::to_multiset_insert(
            others,
            report::place(others, lines[0].item_idx),
            lines[0],
        );
        vstd::seq_lib::to_multiset_insert(rest, 0, lines[0]);
        assert(rest.insert(0, lines[0]) =~= lines);
    }
}

proof fn lemma_reversed_already(lines: Seq<LineModel>)
    requires
        items_decrease(lines),
    ensures
        report::items_reversed(lines) == lines,
    decreases lines.len(),
{
    if lines.len() > 0 {
        let rest = lines.drop_first();
        assert forall|i: int, j: int| 0 <= i < j < rest.len() implies (
        #[trigger] rest[i]).item_idx >= (#[trigger] rest[j]).item_idx by {
            assert(rest[i] == lines[i + 1] && rest[j] == lines[j + 1]);
        }
        lemma_reversed_already(rest);
        if rest.len() > 0 {
            assert(rest[0] == lines[1]);
            assert(lines[0].item_idx >= lines[1].item_idx);
        }
        assert(rest.insert(0, lines[0]) =~= lines);
    }
}

/// A report whose items are already in decreasing order isn't changed by
/// being reversed: doing it twice is the same as doing it once.
pub proof fn reversed_twice(lines: Seq<LineModel>)
    ensures
        report::items_reversed(report::items_reversed(lines)) == report::items_reversed(lines),
{
    reversed_items_decrease(lines);
    lemma_reversed_already(report::items_reversed(lines));
}

/// Reversing twice the output of a failure changes nothing.
pub proof fn reversed_failure_twice(result: ResultModel)
    requires
        result is Failure,
    ensures
        result.reversed().reversed() == result,
{
    assert(result->output.reverse().reverse() =~= result->output);
}

/// Nothing but a blank line is removed at the end of a report.
pub proof fn only_a_blank_line_is_removed(report: ReportModel)
    ensures
        report.without_blank_end().lines == report.lines || report.lines
            == report.without_blank_end().lines.push(report.lines.last()) && tline::all_blank(
            report.lines.last().content,
        ),
        report.without_blank_end().output == report.output,
        report.without_blank_end().stats == report.stats,
        report.without_blank_end().success == report.success,
{
    if report.lines.len() > 0 {
        assert(report.lines.drop_last().push(report.lines.last()) =~= report.lines);
    }
}

/// The last line of a report is removed when it's blank, and only then.
pub proof fn blank_end_is_removed(report: ReportModel)
    ensures
        ({
            let after = report.without_blank_end();
            let ends_blank = report.lines.len() > 0 && text::blank(
                tline::combined(report.lines.last().content),
            );
            &&& ends_blank ==> after.lines.len() == report.lines.len() - 1
            &&& !ends_blank ==> after.lines.len() == report.lines.len()
            &&& forall|i: int|
                0 <= i < after.lines.len() ==> #[trigger] after.lines[i] == report.lines[i]
        }),
{
    if report.lines.len() > 0 {
        crate::laws::texts::blank_line_has_a_blank_text(report.lines.last().content);
    }
}

/// The blank end is the one of a report. Reversing reorders the lines of a
/// report, and the output of a failure. Nothing else changes.
pub proof fn results_are_only_reordered(
    report: ReportModel,
    error_code: i32,
    output: Seq<Seq<TStringModel>>,
)
    ensures
        ({
            let reversed = ResultModel::Report(report).reversed();
            &&& reversed is Report
            &&& reversed->Report_0.lines == report::items_reversed(report.lines)
            &&& reversed->Report_0.output == report.output
            &&& reversed->Report_0.stats == report.stats
            &&& reversed->Report_0.success == report.success
        }),
        ({
            let failure = (ResultModel::Failure { error_code, output });
            &&& failure.reversed() is Failure
            &&& failure.reversed()->error_code == error_code
            &&& failure.reversed()->output.len() == output.len()
            &&& forall|i: int|
                0 <= i < output.len() ==> #[trigger] failure.reversed()->output[i]
                    == output[output.len() - 1 - i]
            &&& failure.without_blank_end() == failure
        }),
        ResultModel::Report(report).without_blank_end() == ResultModel::Report(
            report.without_blank_end(),
        ),
        ResultModel::Nothing.reversed() is Nothing,
        ResultModel::Nothing.without_blank_end() is Nothing,
{
}

/// The lines which count are those of a report, or of the output of a failure.
/// A report has the count of lines it tells for itself or for its summary.
pub proof fn lines_are_counted(
    report: ReportModel,
    error_code: i32,
    output: Seq<Seq<TStringModel>>,
)
    ensures
        ResultModel::Report(report).lines_len() == report.lines.len(),
        (ResultModel::Failure { error_code, output }).lines_len() == output.len(),
        ResultModel::Nothing.lines_len() == 0,
        ResultModel::Report(report).output() == Some(report.output),
        (ResultModel::Failure { error_code, output }).output() == Some(output),
        ResultModel::Nothing.output() is None,
        report.stats.lines(true) == report.stats.summary_lines,
        report.stats.lines(false) == report.stats.full_lines,
{
}

} // verus!
