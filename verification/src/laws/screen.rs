//! What's seen on each row of the screen.
use crate::display;
use crate::display::OpModel;
use crate::frame;
use crate::laws::drawing;
use crate::model::StateModel;
use crate::report::{LineModel, LineType, ReportModel, ResultModel};
use crate::scroll::Area;
use crate::search;
use crate::select;
use crate::text;
use crate::tline;
use crate::tline::TStringModel;
use crate::wrap;
use crate::wrap::{SubLine, WrappedReportModel};
use vstd::prelude::*;

verus! {

/// The row on which the operations end.
pub open spec fn last_row(ops: Seq<OpModel>) -> Option<u16>
    decreases ops.len(),
{
    if ops.len() == 0 {
        None
    } else {
        match ops.last() {
            OpModel::Goto(y) => Some(y),
            _ => last_row(ops.drop_last()),
        }
    }
}

/// Whether an operation leaves something on the screen, on the current row.
pub open spec fn is_seen(op: OpModel) -> bool {
    !(op is Goto || op is ReportDrawn || op is Flush)
}

/// What's drawn on row `y`, since the last time it was gone to.
pub open spec fn on_row(ops: Seq<OpModel>, y: u16) -> Seq<OpModel>
    decreases ops.len(),
{
    if ops.len() == 0 {
        Seq::empty()
    } else {
        let before = on_row(ops.drop_last(), y);
        match ops.last() {
            OpModel::Goto(r) => if r == y {
                Seq::empty()
            } else {
                before
            },
            op => if is_seen(op) && last_row(ops.drop_last()) == Some(y) {
                before.push(op)
            } else {
                before
            },
        }
    }
}

proof fn lemma_last_row(ops: Seq<OpModel>)
    requires
        ops.len() > 0,
        ops[0] is Goto,
    ensures
        last_row(ops) is Some,
        drawing::gotos(ops).contains(last_row(ops)->0),
    decreases ops.len(),
{
    let before = drawing::gotos(ops.drop_last());
    if ops.last() is Goto {
        assert(drawing::gotos(ops)[before.len() as int] == ops.last()->Goto_0);
    } else {
        assert(ops.len() > 1);
        lemma_last_row(ops.drop_last());
    }
}

proof fn lemma_on_row_add(a: Seq<OpModel>, b: Seq<OpModel>, y: u16)
    requires
        b.len() > 0 ==> b[0] is Goto,
    ensures
        on_row(a + b, y) == if drawing::gotos(b).contains(y) {
            on_row(b, y)
        } else {
            on_row(a, y)
        },
        b.len() > 0 ==> last_row(a + b) == last_row(b),
    decreases b.len(),
{
    if b.len() == 0 {
        assert(a + b =~= a);
    } else {
        let fewer = b.drop_last();
        assert((a + b).drop_last() =~= a + fewer);
        assert((a + b).last() == b.last());
        lemma_on_row_add(a, fewer, y);
        let rows = drawing::gotos(b);
        let rows_before = drawing::gotos(fewer);
        if let OpModel::Goto(r) = b.last() {
            assert(rows == rows_before.push(r));
            if r == y {
                assert(rows[rows_before.len() as int] == y);
            } else if rows_before.contains(y) {
                let i = choose|i: int| 0 <= i < rows_before.len() && rows_before[i] == y;
                assert(rows[i] == y);
            }
        } else {
            assert(rows == rows_before);
            assert(fewer.len() > 0);
            assert(fewer[0] == b[0]);
            lemma_last_row(fewer);
        }
    }
}

/// Whether all of this is seen on the current row.
pub open spec fn all_seen(ops: Seq<OpModel>) -> bool {
    forall|i: int| 0 <= i < ops.len() ==> is_seen(#[trigger] ops[i])
}

proof fn lemma_one_row(y: u16, rest: Seq<OpModel>, r: u16)
    requires
        all_seen(rest),
    ensures
        on_row(seq![OpModel::Goto(y)] + rest, r) == if r == y {
            rest
        } else {
            Seq::empty()
        },
        last_row(seq![OpModel::Goto(y)] + rest) == Some(y),
        drawing::gotos(seq![OpModel::Goto(y)] + rest) == seq![y],
    decreases rest.len(),
{
    let all = seq![OpModel::Goto(y)] + rest;
    if rest.len() == 0 {
        assert(all.drop_last() =~= Seq::<OpModel>::empty());
        assert(all.last() == OpModel::Goto(y));
        assert(drawing::gotos(all.drop_last()) =~= Seq::<u16>::empty());
        assert(drawing::gotos(all) =~= seq![y]);
        assert(rest =~= Seq::<OpModel>::empty());
        assert(on_row(all.drop_last(), r) =~= Seq::<OpModel>::empty());
    } else {
        let fewer = rest.drop_last();
        assert forall|i: int| 0 <= i < fewer.len() implies is_seen(#[trigger] fewer[i]) by {
            assert(is_seen(rest[i]));
        }
        lemma_one_row(y, fewer, r);
        assert(all.drop_last() =~= seq![OpModel::Goto(y)] + fewer);
        assert(all.last() == rest.last());
        assert(is_seen(rest[rest.len() - 1]));
        assert(fewer.push(rest.last()) =~= rest);
    }
}

proof fn lemma_rows_start(
    contents: spec_fn(int) -> Seq<OpModel>,
    n: int,
    top: int,
    x: u16,
    scrollbar: Option<(u16, u16)>,
)
    requires
        n > 0,
    ensures
        frame::rows(contents, n, top, x, scrollbar).len() > 0,
        frame::rows(contents, n, top, x, scrollbar)[0] is Goto,
    decreases n,
{
    let before = frame::rows(contents, n - 1, top, x, scrollbar);
    let row = frame::whole_row(contents(n - 1), top + n - 1, x, scrollbar);
    assert(row[0] == OpModel::Goto((top + n - 1) as u16));
    if n > 1 {
        lemma_rows_start(contents, n - 1, top, x, scrollbar);
    } else {
        assert(before + row =~= row);
    }
}

proof fn lemma_rows_gotos(
    contents: spec_fn(int) -> Seq<OpModel>,
    n: int,
    top: int,
    x: u16,
    scrollbar: Option<(u16, u16)>,
)
    requires
        0 <= n,
        forall|k: int| 0 <= k < n ==> all_seen(#[trigger] contents(k)),
    ensures
        drawing::gotos(frame::rows(contents, n, top, x, scrollbar)) == drawing::range(top, n),
    decreases n,
{
    if n > 0 {
        lemma_rows_gotos(contents, n - 1, top, x, scrollbar);
        let y = (top + n - 1) as u16;
        let row = frame::whole_row(contents(n - 1), top + n - 1, x, scrollbar);
        let rest = contents(n - 1) + frame::row_end(top + n - 1, x, scrollbar);
        assert(all_seen(contents(n - 1)));
        lemma_one_row(y, rest, y);
        assert(row =~= seq![OpModel::Goto(y)] + rest);
        drawing::lemma_gotos_add(frame::rows(contents, n - 1, top, x, scrollbar), row);
    }
    assert(drawing::gotos(frame::rows(contents, n, top, x, scrollbar)) =~= drawing::range(top, n));
}

proof fn lemma_rows(
    contents: spec_fn(int) -> Seq<OpModel>,
    n: int,
    top: int,
    x: u16,
    scrollbar: Option<(u16, u16)>,
    i: int,
)
    requires
        0 <= i < n,
        0 <= top,
        top + n <= u16::MAX + 1,
        forall|k: int| 0 <= k < n ==> all_seen(#[trigger] contents(k)),
    ensures
        on_row(frame::rows(contents, n, top, x, scrollbar), (top + i) as u16) == contents(i)
            + frame::row_end(top + i, x, scrollbar),
    decreases n,
{
    let y = (top + n - 1) as u16;
    let r = (top + i) as u16;
    let before = frame::rows(contents, n - 1, top, x, scrollbar);
    let row = frame::whole_row(contents(n - 1), top + n - 1, x, scrollbar);
    let rest = contents(n - 1) + frame::row_end(top + n - 1, x, scrollbar);
    assert(all_seen(contents(n - 1)));
    lemma_one_row(y, rest, r);
    assert(row =~= seq![OpModel::Goto(y)] + rest);
    lemma_on_row_add(before, row, r);
    if i == n - 1 {
        assert(drawing::gotos(row)[0] == r);
    } else {
        assert(!drawing::gotos(row).contains(r));
        lemma_rows(contents, n - 1, top, x, scrollbar, i);
    }
}

proof fn lemma_empty_rows(top: int, n: int, i: int)
    requires
        0 <= i < n,
        0 <= top,
        top + n <= u16::MAX + 1,
    ensures
        on_row(frame::empty_rows(top, n), (top + i) as u16) == seq![OpModel::ClearLine],
    decreases n,
{
    let y = (top + n - 1) as u16;
    let r = (top + i) as u16;
    let before = frame::empty_rows(top, n - 1);
    let rest = seq![OpModel::ClearLine];
    let row = seq![OpModel::Goto(y), OpModel::ClearLine];
    lemma_one_row(y, rest, r);
    assert(row =~= seq![OpModel::Goto(y)] + rest);
    lemma_on_row_add(before, row, r);
    if i == n - 1 {
        assert(drawing::gotos(row)[0] == r);
    } else {
        assert(!drawing::gotos(row).contains(r));
        lemma_empty_rows(top, n - 1, i);
    }
}

/// What a row of the content is made of, when this is what it shows: the rest
/// of the row is cleared, and the scrollbar is in the last column.
pub open spec fn with_end<'s>(
    shown: Seq<OpModel>,
    state: StateModel<'s>,
    y: u16,
    r: int,
) -> Seq<OpModel> {
    let cleared = shown + seq![OpModel::ClearLine];
    match state.content_scrollbar(y) {
        Some((first, last)) if first <= r && r <= last => cleared + seq![
            OpModel::Thumb { x: (state.width - 1) as u16, y: r as u16 },
        ],
        _ => cleared,
    }
}

proof fn lemma_with_end<'s>(shown: Seq<OpModel>, state: StateModel<'s>, y: u16, r: int)
    ensures
        shown + frame::row_end(r, (state.width - 1) as u16, state.content_scrollbar(y))
            == with_end(shown, state, y, r),
{
    assert(shown + frame::row_end(r, (state.width - 1) as u16, state.content_scrollbar(y))
        =~= with_end(shown, state, y, r));
}

proof fn lemma_report_on_row<'s>(state: StateModel<'s>, y: u16, report: ReportModel, i: int)
    requires
        state.height >= 4,
        state.content_drawable(y),
        state.report_to_draw() == Some(report),
        0 <= i < state.page_height() - state.rows_above(),
    ensures
        on_row(state.content_ops(y), (y + state.rows_above() + i) as u16) == with_end(
            state.report_row(report, i),
            state,
            y,
            y + state.rows_above() + i,
        ),
{
    let contents = |k: int| state.report_row(report, k);
    let area = state.filled_area(y);
    let scrollbar = state.content_scrollbar(y);
    let top = (y + state.rows_above()) as u16;
    let above = frame::empty_rows(y as int, state.rows_above());
    let n = area.height as int;
    let r = (top + i) as u16;
    let rows = frame::rows(contents, n, top as int, area.width, scrollbar);
    lemma_rows(contents, n, top as int, area.width, scrollbar, i);
    lemma_rows_start(contents, n, top as int, area.width, scrollbar);
    lemma_rows_gotos(contents, n, top as int, area.width, scrollbar);
    let block = rows.push(OpModel::ReportDrawn);
    assert(block.drop_last() =~= rows);
    assert(on_row(block, r) == on_row(rows, r));
    assert(drawing::gotos(block) == drawing::gotos(rows));
    lemma_on_row_add(above, block, r);
    assert(drawing::gotos(block)[i] == r);
    lemma_with_end(state.report_row(report, i), state, y, y + state.rows_above() + i);
}

proof fn lemma_output_on_row<'s>(
    state: StateModel<'s>,
    y: u16,
    output: Seq<Seq<TStringModel>>,
    i: int,
)
    requires
        state.height >= 4,
        state.content_drawable(y),
        state.report_to_draw() is None,
        state.shown_output() == Some(output),
        0 <= i < state.page_height() - state.rows_above(),
    ensures
        on_row(state.content_ops(y), (y + state.rows_above() + i) as u16) == with_end(
            state.output_row(output, i),
            state,
            y,
            y + state.rows_above() + i,
        ),
{
    let contents = |k: int| state.output_row(output, k);
    let area = state.filled_area(y);
    let scrollbar = state.content_scrollbar(y);
    let top = (y + state.rows_above()) as u16;
    let above = frame::empty_rows(y as int, state.rows_above());
    let n = area.height as int;
    let r = (top + i) as u16;
    let rows = frame::rows(contents, n, top as int, area.width, scrollbar);
    lemma_rows(contents, n, top as int, area.width, scrollbar, i);
    lemma_rows_start(contents, n, top as int, area.width, scrollbar);
    lemma_rows_gotos(contents, n, top as int, area.width, scrollbar);
    lemma_on_row_add(above, rows, r);
    assert(drawing::gotos(rows)[i] == r);
    lemma_with_end(state.output_row(output, i), state, y, y + state.rows_above() + i);
}

/// Whether these are, in order, the indexes under `n` of what's kept.
pub open spec fn selects(indexes: Seq<usize>, n: int, keep: spec_fn(int) -> bool) -> bool {
    &&& forall|j: int, k: int|
        0 <= j < k < indexes.len() ==> (#[trigger] indexes[j]) < (#[trigger] indexes[k])
    &&& forall|j: int|
        0 <= j < indexes.len() ==> (#[trigger] indexes[j]) < n && keep(indexes[j] as int)
    &&& forall|i: int| 0 <= i < n && #[trigger] keep(i) ==> indexes.contains(i as usize)
}

proof fn lemma_selects(indexes: Seq<usize>, n: int, keep: spec_fn(int) -> bool)
    requires
        0 <= n <= usize::MAX,
        selects(indexes, n, keep),
    ensures
        indexes == select::selected(keep, n),
    decreases n,
{
    if n == 0 {
        if indexes.len() > 0 {
            assert(indexes[0] < n);
        }
        assert(indexes =~= select::selected(keep, n));
    } else if keep(n - 1) {
        assert(indexes.contains((n - 1) as usize));
        let p = choose|p: int| 0 <= p < indexes.len() && indexes[p] == (n - 1) as usize;
        let m = indexes.len() - 1;
        if p < m {
            assert(indexes[p] < indexes[m]);
            assert(indexes[m] < n);
        }
        let fewer = indexes.drop_last();
        assert forall|j: int| 0 <= j < fewer.len() implies (#[trigger] fewer[j]) < n - 1 && keep(
            fewer[j] as int,
        ) by {
            assert(indexes[j] < indexes[m]);
        }
        assert forall|i: int| 0 <= i < n - 1 && #[trigger] keep(i) implies fewer.contains(
            i as usize,
        ) by {
            assert(indexes.contains(i as usize));
            let q = choose|q: int| 0 <= q < indexes.len() && indexes[q] == i as usize;
            assert(fewer[q] == i as usize);
        }
        lemma_selects(fewer, n - 1, keep);
        assert(fewer.push(indexes.last()) =~= indexes);
    } else {
        assert forall|j: int| 0 <= j < indexes.len() implies (#[trigger] indexes[j]) < n - 1
            && keep(indexes[j] as int) by {
            assert(indexes[j] < n && keep(indexes[j] as int));
        }
        lemma_selects(indexes, n - 1, keep);
    }
}

/// Whether these are, in order, the indexes of the lines which are shown: all
/// of them or, in a summary, the titles and the locations.
pub open spec fn lines_shown(indexes: Seq<usize>, lines: Seq<LineModel>, summary: bool) -> bool {
    selects(
        indexes,
        lines.len() as int,
        |i: int| summary ==> lines[i].line_type is Title || lines[i].line_type is Location,
    )
}

/// Whether these are, in order, the indexes of the rows which are shown: all
/// of them or, in a summary, those of the titles and of the locations.
pub open spec fn rows_shown(
    indexes: Seq<usize>,
    lines: Seq<LineModel>,
    sub_lines: Seq<SubLine>,
    summary: bool,
) -> bool {
    selects(
        indexes,
        sub_lines.len() as int,
        |i: int|
            {
                let line_type = lines[sub_lines[i].line_idx as int].line_type;
                summary ==> line_type is Title || line_type is Location
            },
    )
}

proof fn lemma_same_selection(a: spec_fn(int) -> bool, b: spec_fn(int) -> bool, n: int)
    requires
        forall|i: int| 0 <= i < n ==> #[trigger] a(i) == b(i),
    ensures
        select::selected(a, n) == select::selected(b, n),
    decreases n,
{
    if n > 0 {
        lemma_same_selection(a, b, n - 1);
        assert(a(n - 1) == b(n - 1));
    }
}

proof fn lemma_lines_shown(indexes: Seq<usize>, lines: Seq<LineModel>, summary: bool)
    requires
        lines.len() <= usize::MAX,
        lines_shown(indexes, lines, summary),
    ensures
        indexes == wrap::shown(wrap::line_types(lines), summary),
{
    let types = wrap::line_types(lines);
    let n = lines.len() as int;
    let keep = |i: int| summary ==> lines[i].line_type is Title || lines[i].line_type is Location;
    let kept = |i: int| !(summary && types[i] == LineType::Normal);
    lemma_selects(indexes, n, keep);
    lemma_same_selection(keep, kept, n);
}

proof fn lemma_rows_shown(
    indexes: Seq<usize>,
    lines: Seq<LineModel>,
    sub_lines: Seq<SubLine>,
    summary: bool,
)
    requires
        sub_lines.len() <= usize::MAX,
        rows_shown(indexes, lines, sub_lines, summary),
    ensures
        indexes == wrap::shown(wrap::row_types(lines, sub_lines), summary),
{
    let types = wrap::row_types(lines, sub_lines);
    let n = sub_lines.len() as int;
    let keep = |i: int|
        {
            let line_type = lines[sub_lines[i].line_idx as int].line_type;
            summary ==> line_type is Title || line_type is Location
        };
    let kept = |i: int| !(summary && types[i] == LineType::Normal);
    lemma_selects(indexes, n, keep);
    lemma_same_selection(keep, kept, n);
}

/// Each shown line of a report which isn't wrapped is on its row, in the order
/// of the report and from the scroll on, with its marker, a space and, whatever
/// its type, its text in the columns which are left. The rows after the last
/// line are empty.
pub proof fn report_lines_are_on_their_rows<'s>(
    state: StateModel<'s>,
    y: u16,
    report: ReportModel,
    indexes: Seq<usize>,
    i: int,
)
    requires
        state.wf(),
        state.height >= 4,
        state.content_drawable(y),
        state.result == ResultModel::Report(report),
        !report.success,
        !state.raw_output,
        !(state.wrap && state.wrapped_report is Some),
        lines_shown(indexes, report.lines, state.summary),
        0 <= i < state.page_height() - state.rows_above(),
    ensures
        ({
            let r = y + state.rows_above() + i;
            let drawn = on_row(state.content_ops(y), r as u16);
            if state.scroll + i < indexes.len() {
                let line = report.lines[indexes[state.scroll + i] as int];
                let head = seq![
                    OpModel::Marker {
                        line_type: line.line_type,
                        item_idx: line.item_idx,
                        cols: line.marker_cols,
                        first: true,
                    },
                    OpModel::Write(" "@),
                ];
                let text = OpModel::Text {
                    content: line.content,
                    cols: (state.width - 1 - line.marker_cols) as usize,
                };
                drawn == if line.marker_cols + 1 < state.width {
                    with_end(head + seq![text], state, y, r)
                } else {
                    with_end(head, state, y, r)
                }
            } else {
                drawn == with_end(Seq::empty(), state, y, r)
            }
        }),
{
    lemma_report_on_row(state, y, report, i);
    lemma_lines_shown(indexes, report.lines, state.summary);
    if state.scroll + i < indexes.len() {
        let line = report.lines[indexes[state.scroll + i] as int];
        assert(state.report_row(report, i) == frame::line_ops(line, state.width));
        let head = seq![
            OpModel::Marker {
                line_type: line.line_type,
                item_idx: line.item_idx,
                cols: line.marker_cols,
                first: true,
            },
            OpModel::Write(" "@),
        ];
        let text = OpModel::Text {
            content: line.content,
            cols: (state.width - 1 - line.marker_cols) as usize,
        };
        assert(head.push(text) =~= head + seq![text]);
    }
}

/// Each shown row of a wrapped report is on its row of the screen, in order
/// and from the scroll on, with the marker of its line (which is only drawn on
/// the first row of the line), a space, and its part of the text of the line.
/// The rows after the last one are empty.
pub proof fn wrapped_report_rows_are_on_their_rows<'s>(
    state: StateModel<'s>,
    y: u16,
    report: ReportModel,
    wrapped: WrappedReportModel,
    indexes: Seq<usize>,
    i: int,
)
    requires
        state.wf(),
        state.height >= 4,
        state.content_drawable(y),
        state.result == ResultModel::Report(report),
        !report.success,
        !state.raw_output,
        state.wrap,
        state.wrapped_report == Some(wrapped),
        rows_shown(indexes, report.lines, wrapped.sub_lines, state.summary),
        0 <= i < state.page_height() - state.rows_above(),
    ensures
        ({
            let r = y + state.rows_above() + i;
            let drawn = on_row(state.content_ops(y), r as u16);
            if state.scroll + i < indexes.len() {
                let sub_line = wrapped.sub_lines[indexes[state.scroll + i] as int];
                let line = report.lines[sub_line.line_idx as int];
                drawn == with_end(
                    seq![
                        OpModel::Marker {
                            line_type: line.line_type,
                            item_idx: line.item_idx,
                            cols: line.marker_cols,
                            first: sub_line.start == 0,
                        },
                        OpModel::Write(" "@),
                        OpModel::SubText {
                            content: line.content,
                            start: sub_line.start,
                            end: sub_line.end,
                        },
                    ],
                    state,
                    y,
                    r,
                )
            } else {
                drawn == with_end(Seq::empty(), state, y, r)
            }
        }),
{
    lemma_report_on_row(state, y, report, i);
    lemma_rows_shown(indexes, report.lines, wrapped.sub_lines, state.summary);
}

/// Each line of an output which isn't wrapped is on its row, from the scroll
/// on, with the badge it may have for the search. The rows after the last line
/// are empty.
pub proof fn output_lines_are_on_their_rows<'s>(
    state: StateModel<'s>,
    y: u16,
    output: Seq<Seq<TStringModel>>,
    i: int,
)
    requires
        state.height >= 4,
        state.content_drawable(y),
        state.report_to_draw() is None,
        state.shown_output() == Some(output),
        !(state.wrap && state.wrapped_output is Some),
        0 <= i < state.page_height() - state.rows_above(),
    ensures
        ({
            let r = y + state.rows_above() + i;
            let drawn = on_row(state.content_ops(y), r as u16);
            if state.scroll + i < output.len() {
                let line = search::highlighted(state.search, output)[state.scroll + i];
                drawn == with_end(
                    seq![OpModel::Text { content: line, cols: state.width as usize }],
                    state,
                    y,
                    r,
                )
            } else {
                drawn == with_end(Seq::empty(), state, y, r)
            }
        }),
{
    lemma_output_on_row(state, y, output, i);
}

/// When the lines of an output are wrapped, those which have been given a badge
/// for the search are wrapped with it: each row of the screen, from the scroll
/// on, has its part of such a line. The rows after the last one are empty.
pub proof fn wrapped_output_rows_are_on_their_rows<'s>(
    state: StateModel<'s>,
    y: u16,
    output: Seq<Seq<TStringModel>>,
    i: int,
)
    requires
        state.height >= 4,
        state.content_drawable(y),
        state.report_to_draw() is None,
        state.shown_output() == Some(output),
        state.wrap,
        state.wrapped_output is Some,
        0 <= i < state.page_height() - state.rows_above(),
    ensures
        ({
            let r = y + state.rows_above() + i;
            let drawn = on_row(state.content_ops(y), r as u16);
            let lines = search::highlighted(state.search, output);
            let rows = wrap::wrapped_output(lines, state.width).sub_lines;
            if state.scroll + i < rows.len() {
                let sub_line = rows[state.scroll + i];
                drawn == with_end(
                    seq![
                        OpModel::SubText {
                            content: lines[sub_line.line_idx as int],
                            start: sub_line.start,
                            end: sub_line.end,
                        },
                    ],
                    state,
                    y,
                    r,
                )
            } else {
                drawn == with_end(Seq::empty(), state, y, r)
            }
        }),
{
    lemma_output_on_row(state, y, output, i);
}

/// From bottom to top, a content which is shorter than its page is at the
/// bottom of it: the rows above are empty. There are none otherwise.
pub proof fn rows_above_are_empty<'s>(state: StateModel<'s>, y: u16, i: int)
    requires
        state.height >= 4,
        state.content_drawable(y),
    ensures
        !state.reverse ==> state.rows_above() == 0,
        state.reverse && state.content_height() < state.height - 3 ==> state.rows_above()
            + state.content_height() == state.height - 3,
        state.content_height() >= state.height - 3 ==> state.rows_above() == 0,
        0 <= i < state.rows_above() ==> on_row(state.content_ops(y), (y + i) as u16) == seq![
            OpModel::ClearLine,
        ],
{
    if 0 <= i < state.rows_above() {
        let area = state.filled_area(y);
        let scrollbar = state.content_scrollbar(y);
        let top = (y + state.rows_above()) as u16;
        let above = frame::empty_rows(y as int, state.rows_above());
        let n = area.height as int;
        let r = (y + i) as u16;
        lemma_empty_rows(y as int, state.rows_above(), i);
        if let Some(report) = state.report_to_draw() {
            let contents = |k: int| state.report_row(report, k);
            let rows = frame::rows(contents, n, top as int, area.width, scrollbar);
            lemma_rows_gotos(contents, n, top as int, area.width, scrollbar);
            let block = rows.push(OpModel::ReportDrawn);
            assert(block.drop_last() =~= rows);
            if n > 0 {
                lemma_rows_start(contents, n, top as int, area.width, scrollbar);
                lemma_on_row_add(above, block, r);
                assert(!drawing::gotos(block).contains(r));
            } else {
                assert(above + block =~= above.push(OpModel::ReportDrawn));
                assert(above.push(OpModel::ReportDrawn).drop_last() =~= above);
            }
        } else if let Some(output) = state.shown_output() {
            let contents = |k: int| state.output_row(output, k);
            let rows = frame::rows(contents, n, top as int, area.width, scrollbar);
            lemma_rows_gotos(contents, n, top as int, area.width, scrollbar);
            if n > 0 {
                lemma_rows_start(contents, n, top as int, area.width, scrollbar);
            }
            lemma_on_row_add(above, rows, r);
            assert(!drawing::gotos(rows).contains(r));
        }
    }
}

/// The items of a report which isn't wrapped are those of its shown lines.
pub proof fn items_are_those_of_the_lines<'s>(
    state: StateModel<'s>,
    report: ReportModel,
    indexes: Seq<usize>,
)
    requires
        report.lines.len() <= usize::MAX,
        !(state.wrap && state.wrapped_report is Some),
        lines_shown(indexes, report.lines, state.summary),
    ensures
        state.shown_items(report).len() == indexes.len(),
        forall|i: int|
            0 <= i < indexes.len() ==> #[trigger] state.shown_items(report)[i]
                == report.lines[indexes[i] as int].item_idx,
{
    lemma_lines_shown(indexes, report.lines, state.summary);
}

/// The items of a wrapped report are those of the lines of its shown rows.
pub proof fn items_are_those_of_the_rows<'s>(
    state: StateModel<'s>,
    report: ReportModel,
    wrapped: WrappedReportModel,
    indexes: Seq<usize>,
)
    requires
        wrapped.sub_lines.len() <= usize::MAX,
        state.wrap,
        state.wrapped_report == Some(wrapped),
        rows_shown(indexes, report.lines, wrapped.sub_lines, state.summary),
    ensures
        state.shown_items(report).len() == indexes.len(),
        forall|i: int|
            0 <= i < indexes.len() ==> #[trigger] state.shown_items(report)[i]
                == report.lines[wrapped.sub_lines[indexes[i] as int].line_idx as int].item_idx,
{
    lemma_rows_shown(indexes, report.lines, wrapped.sub_lines, state.summary);
}

/// The rows of a summary are counted when the report is wrapped.
pub proof fn summary_rows_are_counted(lines: Seq<LineModel>, width: u16, indexes: Seq<usize>)
    requires
        wrap::wrapped_report(lines, width).sub_lines.len() <= usize::MAX,
        rows_shown(indexes, lines, wrap::wrapped_report(lines, width).sub_lines, true),
    ensures
        wrap::wrapped_report(lines, width).summary_height == indexes.len(),
{
    lemma_rows_shown(indexes, lines, wrap::wrapped_report(lines, width).sub_lines, true);
}

/// The row we go back to is the first one of the item which was on top, or the
/// first row of all when this item isn't shown or when there's no report.
pub proof fn top_item_row_is_found<'s>(state: StateModel<'s>)
    ensures
        !(state.result is Report) ==> state.last_item_scroll() == 0,
        state.result matches ResultModel::Report(report) ==> {
            let items = state.shown_items(report);
            let row = state.last_item_scroll();
            &&& items.contains(state.top_item_idx) ==> 0 <= row < items.len() && items[row]
                == state.top_item_idx
            &&& !items.contains(state.top_item_idx) ==> row == 0
            &&& forall|i: int| 0 <= i < row ==> #[trigger] items[i] != state.top_item_idx
        },
{
    if let ResultModel::Report(report) = state.result {
        state.shown_items(report).index_of_first_ensures(state.top_item_idx);
    }
}

/// Drawing a report remembers which item is on its first row, unless one is
/// given. It's the first item of all when there's none on this row. Drawing
/// anything else remembers nothing.
pub proof fn top_item_is_remembered<'s>(
    state: StateModel<'s>,
    report: ReportModel,
    height: int,
    given: usize,
)
    ensures
        state.report_drawn(report, height, Some(given)).top_item_idx == given,
        ({
            let items = state.shown_items(report);
            let top = state.report_drawn(report, height, None).top_item_idx;
            &&& height > 0 && state.scroll < items.len() ==> top == items[state.scroll]
            &&& height <= 0 || state.scroll >= items.len() ==> top == 0
        }),
        state.help_page is Some ==> state.drawn() == state,
        state.help_page is None ==> state.drawn() == state.content_drawn(),
        state.report_to_draw() is None || state.height < 4 ==> state.content_drawn() == state,
        state.report_to_draw() == Some(report) && state.height >= 4 ==> state.content_drawn()
            == state.report_drawn(report, state.height - 3 - state.rows_above(), None),
        forall|top: Option<usize>|
            state == (StateModel {
                top_item_idx: state.top_item_idx,
                ..#[trigger] state.report_drawn(report, height, top)
            }),
{
}

proof fn lemma_content_start<'s>(state: StateModel<'s>, y: u16)
    ensures
        state.content_ops(y).len() > 0 ==> state.content_ops(y)[0] is Goto,
{
    if state.height >= 4 {
        let area = state.filled_area(y);
        let scrollbar = state.content_scrollbar(y);
        let top = (y + state.rows_above()) as u16;
        let above = frame::empty_rows(y as int, state.rows_above());
        let n = area.height as int;
        lemma_empty_rows_start(y as int, state.rows_above());
        if let Some(report) = state.report_to_draw() {
            let contents = |k: int| state.report_row(report, k);
            if n > 0 {
                lemma_rows_start(contents, n, top as int, area.width, scrollbar);
            }
        } else if let Some(output) = state.shown_output() {
            let contents = |k: int| state.output_row(output, k);
            if n > 0 {
                lemma_rows_start(contents, n, top as int, area.width, scrollbar);
            }
        }
    }
}

proof fn lemma_empty_rows_start(top: int, n: int)
    ensures
        n > 0 ==> frame::empty_rows(top, n).len() > 0 && frame::empty_rows(top, n)[0] is Goto,
        n <= 0 ==> frame::empty_rows(top, n).len() == 0,
    decreases n,
{
    if n > 0 {
        lemma_empty_rows_start(top, n - 1);
    }
}

/// The operation which tells that a job is running or, when it isn't, which
/// tells the error code of a failure. Otherwise the row is cleared.
pub open spec fn job_line<'s>(state: StateModel<'s>) -> OpModel {
    if state.computing {
        OpModel::Write(
            "\u{1b}[38;5;235m\u{1b}[48;5;204m"@ + text::centered(
                "computing..."@,
                state.width as nat,
            ) + "\u{1b}[0m"@,
        )
    } else {
        match state.result {
            ResultModel::Failure { error_code, .. } => OpModel::Write(
                "\u{1b}[38;5;235m\u{1b}[48;5;9m"@ + text::centered(
                    "Command error code: "@ + text::signed_decimal(error_code as int),
                    state.width as nat,
                ) + "\u{1b}[0m"@,
            ),
            _ => OpModel::ClearLine,
        }
    }
}

/// The status line, with these hints: it tells the query of the search and how
/// many matches it has. When there's no search it gives the hints, if there's
/// a help line.
pub open spec fn status_line<'s>(state: StateModel<'s>, hints: Seq<char>) -> Seq<OpModel> {
    let spans = |markdown: Seq<char>|
        seq![
            OpModel::Status {
                spans: display::inline_spans(markdown),
                width: state.width,
                skin: state.status_skin,
            },
        ];
    match state.search {
        Some(search) => spans(
            "Search: "@ + search.query + " ("@ + text::decimal(search.matches.len())
                + " matches)"@,
        ),
        None => if state.help_line {
            spans(hints)
        } else {
            Seq::empty()
        },
    }
}

/// The badges, the line about the job and the status line are drawn on the row
/// they're given, and on no other one.
pub proof fn lines_are_on_their_row<'s>(
    state: StateModel<'s>,
    y: u16,
    hints: Seq<char>,
    r: u16,
)
    requires
        state.height > 1,
    ensures
        on_row(state.badges_ops(y), r) == if r == y {
            seq![
                OpModel::Badges { badges: state.badges(), width: state.width },
                OpModel::ClearLine,
            ]
        } else {
            Seq::empty()
        },
        on_row(state.computing_ops(y), r) == if r == y {
            seq![job_line(state)]
        } else {
            Seq::empty()
        },
        on_row(state.help_line_ops(y, hints), r) == if r == y {
            status_line(state, hints)
        } else {
            Seq::empty()
        },
        drawing::gotos(state.badges_ops(y)) == seq![y],
        drawing::gotos(state.computing_ops(y)) == seq![y],
        status_line(state, hints).len() > 0 ==> drawing::gotos(state.help_line_ops(y, hints))
            == seq![y],
        status_line(state, hints).len() == 0 ==> state.help_line_ops(y, hints).len() == 0,
        state.help_line_ops(y, hints).len() > 0 ==> state.help_line_ops(y, hints)[0] is Goto,
{
    let badges = seq![
        OpModel::Badges { badges: state.badges(), width: state.width },
        OpModel::ClearLine,
    ];
    let status = status_line(state, hints);
    lemma_one_row(y, badges, r);
    assert(state.badges_ops(y) =~= seq![OpModel::Goto(y)] + badges);
    lemma_one_row(y, seq![job_line(state)], r);
    assert(state.computing_ops(y) =~= seq![OpModel::Goto(y)] + seq![job_line(state)]);
    lemma_one_row(y, status, r);
    if status.len() > 0 {
        assert(state.help_line_ops(y, hints) =~= seq![OpModel::Goto(y)] + status);
    }
}

/// The parts of the screen are drawn one after the other: the status line at
/// the bottom or, from bottom to top, at the top and the other way around. There
/// are no status line on a screen of one row, and no content on a screen of less
/// than four rows.
pub proof fn parts_come_in_order<'s>(state: StateModel<'s>, hints: Seq<char>, y: u16)
    requires
        state.help_page is None,
        state.drawable(),
    ensures
        !state.reverse ==> state.draw_ops(hints) == state.badges_ops(0) + state.computing_ops(1)
            + state.content_ops(2) + state.help_line_ops((state.height - 1) as u16, hints) + seq![
            OpModel::Flush,
        ],
        state.reverse ==> state.draw_ops(hints) == state.help_line_ops(0, hints)
            + state.content_ops(1) + state.computing_ops((state.height - 2) as u16)
            + state.badges_ops((state.height - 1) as u16) + seq![OpModel::Flush],
        state.height <= 1 ==> state.help_line_ops(y, hints).len() == 0,
        state.height < 4 ==> state.content_ops(y).len() == 0,
{
    if state.reverse {
        assert(state.draw_ops(hints) =~= state.help_line_ops(0, hints) + state.content_ops(1)
            + state.computing_ops((state.height - 2) as u16) + state.badges_ops(
            (state.height - 1) as u16,
        ) + seq![OpModel::Flush]);
    } else {
        assert(state.draw_ops(hints) =~= state.badges_ops(0) + state.computing_ops(1)
            + state.content_ops(2) + state.help_line_ops((state.height - 1) as u16, hints) + seq![
            OpModel::Flush,
        ]);
    }
}

proof fn lemma_four_parts(
    a: Seq<OpModel>,
    b: Seq<OpModel>,
    c: Seq<OpModel>,
    d: Seq<OpModel>,
    r: u16,
)
    requires
        b.len() > 0 ==> b[0] is Goto,
        c.len() > 0 ==> c[0] is Goto,
        d.len() > 0 ==> d[0] is Goto,
    ensures
        on_row(a + b + c + d + seq![OpModel::Flush], r) == if drawing::gotos(d).contains(r) {
            on_row(d, r)
        } else if drawing::gotos(c).contains(r) {
            on_row(c, r)
        } else if drawing::gotos(b).contains(r) {
            on_row(b, r)
        } else {
            on_row(a, r)
        },
{
    let all = a + b + c + d;
    let sent = all + seq![OpModel::Flush];
    assert(sent.drop_last() =~= all);
    assert(sent.last() == OpModel::Flush);
    assert(on_row(sent, r) == on_row(all, r));
    lemma_on_row_add(a + b + c, d, r);
    lemma_on_row_add(a + b, c, r);
    lemma_on_row_add(a, b, r);
}

proof fn lemma_own_row(ops: Seq<OpModel>, y: u16, r: u16)
    requires
        drawing::gotos(ops) == seq![y],
    ensures
        drawing::gotos(ops).contains(r) <==> r == y,
{
    assert(drawing::gotos(ops)[0] == y);
}

proof fn lemma_no_row(ops: Seq<OpModel>, r: u16)
    requires
        ops.len() == 0,
    ensures
        !drawing::gotos(ops).contains(r),
        on_row(ops, r) == Seq::<OpModel>::empty(),
{
}

proof fn lemma_divided_bottom_up<'s>(state: StateModel<'s>, hints: Seq<char>, r: u16)
    requires
        state.height >= 3,
        state.help_page is None,
        state.drawable(),
        state.reverse,
        r < state.height,
    ensures
        ({
            let drawn = on_row(state.draw_ops(hints), r);
            let badges = seq![
                OpModel::Badges { badges: state.badges(), width: state.width },
                OpModel::ClearLine,
            ];
            if r == 0 {
                drawn == status_line(state, hints)
            } else if r == state.height - 1 {
                drawn == badges
            } else if r == state.height - 2 {
                drawn == seq![job_line(state)]
            } else {
                drawn == on_row(state.content_ops(1), r)
            }
        }),
{
    let last = (state.height - 1) as u16;
    let job_y = (state.height - 2) as u16;
    let status = state.help_line_ops(0, hints);
    let content = state.content_ops(1);
    let job = state.computing_ops(job_y);
    let badges = state.badges_ops(last);
    parts_come_in_order(state, hints, 0);
    lines_are_on_their_row(state, 0, hints, r);
    lines_are_on_their_row(state, job_y, hints, r);
    lines_are_on_their_row(state, last, hints, r);
    lemma_content_start(state, 1);
    lemma_in_page(state, 1);
    lemma_seen(content, r);
    lemma_four_parts(status, content, job, badges, r);
    lemma_own_row(badges, last, r);
    lemma_own_row(job, job_y, r);
}

proof fn lemma_divided_top_down<'s>(state: StateModel<'s>, hints: Seq<char>, r: u16)
    requires
        state.height >= 3,
        state.help_page is None,
        state.drawable(),
        !state.reverse,
        r < state.height,
    ensures
        ({
            let drawn = on_row(state.draw_ops(hints), r);
            let badges = seq![
                OpModel::Badges { badges: state.badges(), width: state.width },
                OpModel::ClearLine,
            ];
            if r == 0 {
                drawn == badges
            } else if r == 1 {
                drawn == seq![job_line(state)]
            } else if r == state.height - 1 {
                drawn == status_line(state, hints)
            } else {
                drawn == on_row(state.content_ops(2), r)
            }
        }),
{
    let last = (state.height - 1) as u16;
    let badges = state.badges_ops(0);
    let job = state.computing_ops(1);
    let content = state.content_ops(2);
    let status = state.help_line_ops(last, hints);
    parts_come_in_order(state, hints, 0);
    lines_are_on_their_row(state, 0, hints, r);
    lines_are_on_their_row(state, 1, hints, r);
    lines_are_on_their_row(state, last, hints, r);
    lemma_content_start(state, 2);
    lemma_in_page(state, 2);
    lemma_seen(content, r);
    lemma_four_parts(badges, job, content, status, r);
    lemma_own_row(job, 1, r);
    if status.len() > 0 {
        lemma_own_row(status, last, r);
    } else {
        lemma_no_row(status, r);
    }
}

/// On a screen of at least three rows, and when there's no help page, the
/// badges are on the first row, the line about the job on the second one, the
/// status line on the last one and the content on the rows in between. From
/// bottom to top, it's the other way around.
pub proof fn screen_is_divided<'s>(state: StateModel<'s>, hints: Seq<char>, r: u16)
    requires
        state.height >= 3,
        state.help_page is None,
        state.drawable(),
        r < state.height,
    ensures
        ({
            let drawn = on_row(state.draw_ops(hints), r);
            let badges = seq![
                OpModel::Badges { badges: state.badges(), width: state.width },
                OpModel::ClearLine,
            ];
            if state.reverse {
                if r == 0 {
                    drawn == status_line(state, hints)
                } else if r == state.height - 1 {
                    drawn == badges
                } else if r == state.height - 2 {
                    drawn == seq![job_line(state)]
                } else {
                    drawn == on_row(state.content_ops(1), r)
                }
            } else {
                if r == 0 {
                    drawn == badges
                } else if r == 1 {
                    drawn == seq![job_line(state)]
                } else if r == state.height - 1 {
                    drawn == status_line(state, hints)
                } else {
                    drawn == on_row(state.content_ops(2), r)
                }
            }
        }),
{
    if state.reverse {
        lemma_divided_bottom_up(state, hints, r);
    } else {
        lemma_divided_top_down(state, hints, r);
    }
}

proof fn lemma_in_page<'s>(state: StateModel<'s>, y: u16)
    requires
        state.content_drawable(y),
    ensures
        forall|r: u16| #[trigger]
            drawing::gotos(state.content_ops(y)).contains(r) ==> y <= r < y + state.page_height(),
{
    assert forall|r: u16| #[trigger]
        drawing::gotos(state.content_ops(y)).contains(r) implies y <= r < y
        + state.page_height() by {
        drawing::content_stays_in_its_page(state, y, r);
    }
}

proof fn lemma_seen(ops: Seq<OpModel>, r: u16)
    ensures
        !drawing::gotos(ops).contains(r) ==> on_row(ops, r).len() == 0 && last_row(ops) != Some(r),
    decreases ops.len(),
{
    if ops.len() > 0 {
        let fewer = ops.drop_last();
        lemma_seen(fewer, r);
        let rows = drawing::gotos(ops);
        let rows_before = drawing::gotos(fewer);
        if let OpModel::Goto(y) = ops.last() {
            assert(rows[rows_before.len() as int] == y);
            if rows_before.contains(r) {
                let i = choose|i: int| 0 <= i < rows_before.len() && rows_before[i] == r;
                assert(rows[i] == r);
            }
        }
    }
}

/// All that's drawn is sent to the terminal at the end. When there's a help
/// page, it's drawn alone on the whole screen but the row of the status line.
pub proof fn help_page_is_alone<'s>(state: StateModel<'s>, hints: Seq<char>)
    requires
        state.height >= 2,
        state.drawable(),
    ensures
        state.draw_ops(hints).last() is Flush,
        state.help_page matches Some(page) ==> {
            let top = if state.reverse {
                1u16
            } else {
                0u16
            };
            let y = if state.reverse {
                0u16
            } else {
                (state.height - 1) as u16
            };
            let area = Area { left: 0, top, width: state.width, height: (state.height - 1) as u16 };
            let help = seq![OpModel::HelpPage { page, area }];
            let status = if status_line(state, hints).len() == 0 {
                Seq::empty()
            } else {
                seq![OpModel::Goto(y)] + status_line(state, hints)
            };
            state.draw_ops(hints) == if state.reverse {
                status + help + seq![OpModel::Flush]
            } else {
                help + status + seq![OpModel::Flush]
            }
        },
{
    if let Some(page) = state.help_page {
        let top = if state.reverse {
            1u16
        } else {
            0u16
        };
        let y = if state.reverse {
            0u16
        } else {
            (state.height - 1) as u16
        };
        let area = Area { left: 0, top, width: state.width, height: (state.height - 1) as u16 };
        let help = seq![OpModel::HelpPage { page, area }];
        let status = state.help_line_ops(y, hints);
        lines_are_on_their_row(state, y, hints, y);
        if status_line(state, hints).len() > 0 {
            assert(status =~= seq![OpModel::Goto(y)] + status_line(state, hints));
        } else {
            assert(status =~= Seq::<OpModel>::empty());
        }
        if state.reverse {
            assert(state.draw_ops(hints) =~= status + help + seq![OpModel::Flush]);
        } else {
            assert(state.draw_ops(hints) =~= help + status + seq![OpModel::Flush]);
        }
    }
}

/// A badge in black.
pub open spec fn black_badge(label: Seq<char>, bg: u8) -> TStringModel {
    TStringModel { raw: label, fg: Some(235), bg: Some(bg) }
}

/// The badges tell, in order: the project, the job, the errors if there are
/// some, the tests which failed if there are some or else that they passed if
/// there are some, and the warnings if there are some.
pub proof fn badges_tell_the_report<'s>(state: StateModel<'s>, report: ReportModel)
    requires
        state.result == ResultModel::Report(report),
        !state.show_changes_count,
    ensures
        ({
            let stats = report.stats;
            let project = seq![
                TStringModel {
                    raw: state.mission.location_name@,
                    fg: Some(255),
                    bg: Some(240),
                },
                black_badge(state.mission.job_name@, 204),
            ];
            let errors = if stats.errors == 0 {
                Seq::empty()
            } else {
                seq![black_badge(tline::counted(stats.errors as nat, "error"@), 9)]
            };
            let tests = if stats.test_fails > 0 {
                seq![black_badge(tline::counted(stats.test_fails as nat, "fail"@), 208)]
            } else if stats.passed_tests > 0 {
                seq![TStringModel { raw: "pass!"@, fg: Some(254), bg: Some(2) }]
            } else {
                Seq::empty()
            };
            let warnings = if stats.warnings == 0 {
                Seq::empty()
            } else {
                seq![black_badge(tline::counted(stats.warnings as nat, "warning"@), 11)]
            };
            state.badges() == project + errors + tests + warnings
        }),
{
    let stats = report.stats;
    let project = seq![
        tline::badge(state.mission.location_name@, 255, 240),
        tline::badge(state.mission.job_name@, 235, 204),
    ];
    let errors = frame::count_badges(stats.errors, "error"@, 9);
    let tests = if stats.test_fails == 0 && stats.passed_tests > 0 {
        seq![tline::badge("pass!"@, 254, 2)]
    } else {
        frame::count_badges(stats.test_fails, "fail"@, 208)
    };
    let warnings = frame::count_badges(stats.warnings, "warning"@, 11);
    assert(project + (errors + tests + warnings) =~= project + errors + tests + warnings);
}

/// After the project and the job, the badges tell the error code of a failure.
pub proof fn badges_tell_the_failure<'s>(state: StateModel<'s>)
    requires
        !(state.result is Report),
        !state.show_changes_count,
    ensures
        ({
            let project = seq![
                TStringModel {
                    raw: state.mission.location_name@,
                    fg: Some(255),
                    bg: Some(240),
                },
                black_badge(state.mission.job_name@, 204),
            ];
            state.badges() == match state.result {
                ResultModel::Failure { error_code, .. } => project.push(
                    black_badge(
                        "Command error code: "@ + text::signed_decimal(error_code as int),
                        9,
                    ),
                ),
                _ => project,
            }
        }),
{
    let project = seq![
        tline::badge(state.mission.location_name@, 255, 240),
        tline::badge(state.mission.job_name@, 235, 204),
    ];
    if let ResultModel::Failure { error_code, .. } = state.result {
        let code = tline::badge(frame::error_message(error_code), 235, 9);
        assert(project + seq![code] =~= project.push(code));
    } else {
        assert(project + Seq::<TStringModel>::empty() =~= project);
    }
}

/// The badge telling the changes, when it's wanted, comes after all the other
/// ones.
pub proof fn changes_come_last<'s>(state: StateModel<'s>)
    requires
        state.show_changes_count,
        state.changes >= 0,
    ensures
        state.badges() == (StateModel { show_changes_count: false, ..state }).badges().push(
            black_badge(tline::counted(state.changes as nat, "change"@), 6),
        ),
{
}

/// The scrollbar, if any, starts on the first row of the page when nothing is
/// hidden above, and lower otherwise. It's as high as the part of the page
/// which the content would let if it was all shown in it, but it doesn't reach
/// the last row of the page as long as something is hidden below, unless it
/// has nowhere else to be.
pub proof fn scrollbar_is_proportional<'s>(state: StateModel<'s>, y: u16)
    requires
        state.wf(),
        state.height >= 4,
        state.content_drawable(y),
    ensures
        state.content_scrollbar(y) is Some <==> state.content_height() > state.height - 3,
        state.content_scrollbar(y) matches Some((first, last)) ==> {
            let page = state.height - 3;
            let content = state.content_height();
            let share = state.scroll * page / content;
            let full = first + page * page / content;
            &&& first == y + share || share == 0 && state.scroll > 0 && first == y + 1
            &&& first == y ==> state.scroll == 0
            &&& first <= last <= full
            &&& state.scroll + page >= content || page <= 3 ==> last == full
            &&& full <= y + page - 2 ==> last == full
            &&& state.scroll + page < content && page > 3 ==> last <= y + page - 2 || last == first
            &&& last < full ==> last == y + page - 2 || last == first
        },
{
    let page = state.height - 3;
    let content = state.content_height();
    if content > page {
        let share = state.scroll * page / content;
        let shown = page * page / content;
        assert(0 <= share && 0 <= shown) by (nonlinear_arith)
            requires
                share == state.scroll * page / content,
                shown == page * page / content,
                0 <= state.scroll,
                0 < page < content,
        ;
    }
}

} // verus!
