//! Wrapping loses nothing.
use crate::fit;
use crate::model;
use crate::model::StateModel;
use crate::report::{LineModel, ResultModel};
use crate::tline;
use crate::tline::TStringModel;
use crate::wrap;
use crate::wrap::{SubLine, WrappedOutputModel};
use vstd::prelude::*;

verus! {

/// Wrapping what's displayed changes nothing but how it's wrapped and where
/// it's read.
pub proof fn wrapping_keeps_the_rest<'s>(state: StateModel<'s>, width: u16)
    ensures
        state.wrap_updated(width) == (StateModel {
            wrapped_output: state.wrap_updated(width).wrapped_output,
            wrapped_report: state.wrap_updated(width).wrapped_report,
            scroll: state.wrap_updated(width).scroll,
            top_item_idx: state.wrap_updated(width).top_item_idx,
            ..state
        }),
{
    reveal(StateModel::wrap_updated);
}

/// Wrapping again for the same width a content which didn't change does
/// nothing.
pub proof fn wrapping_twice<'s>(state: StateModel<'s>, width: u16)
    ensures
        state.wrap_updated(width).wrap_updated(width) == state.wrap_updated(width),
{
    reveal(StateModel::wrap_updated);
    let once = state.wrap_updated(width);
    assert(once.report_to_draw() == state.report_to_draw());
    assert(once.shown_output() == state.shown_output());
}

/// Whether the rows are those of the characters from `start` on, one row
/// after the other and without any hole.
pub open spec fn rows_follow(rows: Seq<SubLine>, line_idx: usize, start: int, end: int) -> bool {
    &&& rows.len() > 0
    &&& rows[0].start == start
    &&& rows.last().end == end
    &&& forall|i: int| 0 <= i < rows.len() ==> (#[trigger] rows[i]).line_idx == line_idx
    &&& forall|i: int| 0 <= i < rows.len() - 1 ==> (#[trigger] rows[i]).end == rows[i + 1].start
}

/// Whether the rows have as many characters as possible, and at least one.
pub open spec fn rows_fill(rows: Seq<SubLine>, cols: Seq<usize>, avail: int) -> bool {
    &&& forall|i: int|
        0 <= i < rows.len() ==> {
            let row = #[trigger] rows[i];
            &&& row.start < row.end <= cols.len()
            &&& row.end == row.start + 1 || fit::total(cols, row.start as int, row.end as int) <= avail
            &&& row.end < cols.len() ==> fit::total(cols, row.start as int, row.end + 1) > avail
        }
}

proof fn lemma_piece(cols: Seq<usize>, start: int, end: int, avail: int)
    requires
        0 <= start < end <= cols.len(),
        end == start + 1 || fit::total(cols, start, end) <= avail,
    ensures
        ({
            let last = fit::fit_end(cols, end, fit::total(cols, start, end), avail);
            &&& end <= last <= cols.len()
            &&& last == start + 1 || fit::total(cols, start, last) <= avail
            &&& last < cols.len() ==> fit::total(cols, start, last + 1) > avail
        }),
    decreases cols.len() - end,
{
    if end < cols.len() && fit::total(cols, start, end) + cols[end] <= avail {
        assert(fit::total(cols, start, end + 1) == fit::total(cols, start, end) + cols[end]);
        lemma_piece(cols, start, end + 1, avail);
    }
}

proof fn lemma_pieces(cols: Seq<usize>, line_idx: usize, start: int, avail: int)
    requires
        0 <= start < cols.len() <= usize::MAX,
    ensures
        rows_follow(
            wrap::pieces(cols, line_idx, start, avail),
            line_idx,
            start,
            cols.len() as int,
        ),
        rows_fill(wrap::pieces(cols, line_idx, start, avail), cols, avail),
    decreases cols.len() - start,
{
    assert(fit::total(cols, start, start) == 0);
    assert(fit::total(cols, start, start + 1) == cols[start]);
    lemma_piece(cols, start, start + 1, avail);
    let end = fit::fit_end(cols, start + 1, cols[start] as int, avail);
    let first = SubLine { line_idx, start: start as usize, end: end as usize };
    let all = wrap::pieces(cols, line_idx, start, avail);
    let rest = wrap::pieces(cols, line_idx, end, avail);
    assert(all == seq![first] + rest);
    if end < cols.len() {
        lemma_pieces(cols, line_idx, end, avail);
        assert(all.last() == rest.last());
    } else {
        assert(rest.len() == 0);
    }
    assert forall|i: int| 0 <= i < all.len() implies (#[trigger] all[i]).line_idx == line_idx by {
        if i > 0 {
            assert(all[i] == rest[i - 1]);
        }
    }
    assert forall|i: int| 0 <= i < all.len() - 1 implies (#[trigger] all[i]).end
        == all[i + 1].start by {
        assert(all[i + 1] == rest[i]);
        if i > 0 {
            assert(all[i] == rest[i - 1]);
        }
    }
    assert forall|i: int| 0 <= i < all.len() implies {
        let row = #[trigger] all[i];
        &&& row.start < row.end <= cols.len()
        &&& row.end == row.start + 1 || fit::total(cols, row.start as int, row.end as int) <= avail
        &&& row.end < cols.len() ==> fit::total(cols, row.start as int, row.end + 1) > avail
    } by {
        if i > 0 {
            assert(all[i] == rest[i - 1]);
        }
    }
}

/// The rows of a line show the whole line: the first one starts where the
/// line starts, each one starts where the previous one stops, and the last one
/// stops where the line stops.
pub proof fn rows_show_the_whole_line(cols: Seq<usize>, line_idx: usize, avail: int)
    requires
        cols.len() <= usize::MAX,
    ensures
        rows_follow(
            wrap::rows_of(cols, line_idx, avail),
            line_idx,
            0,
            cols.len() as int,
        ),
{
    if cols.len() > 0 {
        lemma_pieces(cols, line_idx, 0, avail);
    }
}

/// The rows of a line which isn't empty have at least a character, don't have
/// more than fit in the available columns unless there's only one, and
/// couldn't have one more.
pub proof fn rows_are_filled(cols: Seq<usize>, line_idx: usize, avail: int)
    requires
        0 < cols.len() <= usize::MAX,
    ensures
        rows_fill(wrap::rows_of(cols, line_idx, avail), cols, avail),
{
    lemma_pieces(cols, line_idx, 0, avail);
}

/// The rows which come from a line, in order.
pub open spec fn of_line(rows: Seq<SubLine>, line_idx: int) -> Seq<SubLine>
    decreases rows.len(),
{
    if rows.len() == 0 {
        rows
    } else if rows.last().line_idx == line_idx {
        of_line(rows.drop_last(), line_idx).push(rows.last())
    } else {
        of_line(rows.drop_last(), line_idx)
    }
}

/// Whether the rows of a line are all before those of the next one.
pub open spec fn in_line_order(rows: Seq<SubLine>) -> bool {
    forall|i: int, j: int|
        0 <= i < j < rows.len() ==> (#[trigger] rows[i]).line_idx <= (#[trigger] rows[j]).line_idx
}

/// Whether the rows of a line whose text has characters of these widths show
/// this whole text, in order, in as few rows as possible: they don't take more
/// than the available columns, unless there's only one character. An empty
/// text has one row.
pub open spec fn line_is_wrapped(
    rows: Seq<SubLine>,
    line_idx: usize,
    cols: Seq<usize>,
    avail: int,
) -> bool {
    &&& rows_follow(rows, line_idx, 0, cols.len() as int)
    &&& cols.len() == 0 ==> rows.len() == 1
    &&& cols.len() > 0 ==> rows_fill(rows, cols, avail)
}

proof fn lemma_of_line_add(a: Seq<SubLine>, b: Seq<SubLine>, line_idx: int)
    ensures
        of_line(a + b, line_idx) == of_line(a, line_idx) + of_line(b, line_idx),
    decreases b.len(),
{
    if b.len() == 0 {
        assert(a + b =~= a);
    } else {
        lemma_of_line_add(a, b.drop_last(), line_idx);
        assert((a + b).drop_last() =~= a + b.drop_last());
    }
    assert(of_line(a + b, line_idx) =~= of_line(a, line_idx) + of_line(b, line_idx));
}

proof fn lemma_of_one_line(rows: Seq<SubLine>, from: int, line_idx: int)
    requires
        forall|i: int| 0 <= i < rows.len() ==> (#[trigger] rows[i]).line_idx == from,
    ensures
        of_line(rows, line_idx) == if line_idx == from {
            rows
        } else {
            Seq::empty()
        },
    decreases rows.len(),
{
    if rows.len() > 0 {
        let fewer = rows.drop_last();
        assert forall|i: int| 0 <= i < fewer.len() implies (#[trigger] fewer[i]).line_idx
            == from by {
            assert(fewer[i] == rows[i]);
        }
        lemma_of_one_line(fewer, from, line_idx);
        assert(rows[rows.len() - 1].line_idx == from);
        if line_idx == from {
            assert(fewer.push(rows.last()) =~= rows);
        }
    }
}

proof fn lemma_line_is_wrapped(cols: Seq<usize>, line_idx: usize, avail: int)
    requires
        cols.len() <= usize::MAX,
    ensures
        line_is_wrapped(wrap::rows_of(cols, line_idx, avail), line_idx, cols, avail),
{
    rows_show_the_whole_line(cols, line_idx, avail);
    if cols.len() > 0 {
        rows_are_filled(cols, line_idx, avail);
    }
}

proof fn lemma_next_line(before: Seq<SubLine>, cols: Seq<usize>, line_idx: usize, avail: int, k: int)
    requires
        cols.len() <= usize::MAX,
        in_line_order(before),
        forall|i: int| 0 <= i < before.len() ==> (#[trigger] before[i]).line_idx < line_idx,
    ensures
        ({
            let all = before + wrap::rows_of(cols, line_idx, avail);
            &&& in_line_order(all)
            &&& forall|i: int| 0 <= i < all.len() ==> (#[trigger] all[i]).line_idx <= line_idx
            &&& k < line_idx ==> of_line(all, k) == of_line(before, k)
            &&& line_is_wrapped(of_line(all, line_idx as int), line_idx, cols, avail)
        }),
{
    let rows = wrap::rows_of(cols, line_idx, avail);
    let all = before + rows;
    lemma_line_is_wrapped(cols, line_idx, avail);
    wrap::lemma_rows_line(cols, line_idx, avail);
    lemma_of_line_add(before, rows, k);
    lemma_of_one_line(rows, line_idx as int, k);
    lemma_of_line_add(before, rows, line_idx as int);
    lemma_of_one_line(rows, line_idx as int, line_idx as int);
    lemma_of_no_line(before, line_idx as int);
    assert(of_line(all, line_idx as int) =~= rows);
    if k < line_idx {
        assert(of_line(all, k) =~= of_line(before, k));
    }
    assert forall|i: int| 0 <= i < all.len() implies (#[trigger] all[i]).line_idx <= line_idx by {
        if i < before.len() {
            assert(all[i] == before[i]);
        } else {
            assert(all[i] == rows[i - before.len()]);
        }
    }
    assert forall|i: int, j: int| 0 <= i < j < all.len() implies (#[trigger] all[i]).line_idx <= (
    #[trigger] all[j]).line_idx by {
        if j < before.len() {
            assert(all[i] == before[i] && all[j] == before[j]);
        } else {
            assert(all[j] == rows[j - before.len()]);
        }
    }
}

proof fn lemma_of_no_line(rows: Seq<SubLine>, line_idx: int)
    requires
        forall|i: int| 0 <= i < rows.len() ==> (#[trigger] rows[i]).line_idx < line_idx,
    ensures
        of_line(rows, line_idx) == Seq::<SubLine>::empty(),
    decreases rows.len(),
{
    if rows.len() > 0 {
        let fewer = rows.drop_last();
        assert forall|i: int| 0 <= i < fewer.len() implies (#[trigger] fewer[i]).line_idx
            < line_idx by {
            assert(fewer[i] == rows[i]);
        }
        lemma_of_no_line(fewer, line_idx);
        assert(rows[rows.len() - 1].line_idx < line_idx);
    }
}

/// The widths of the characters of the whole text of a line.
pub open spec fn text_cols(content: Seq<TStringModel>) -> Seq<usize> {
    Seq::new(
        tline::combined(content).len(),
        |i: int| fit::char_cols(tline::combined(content)[i]),
    )
}

/// The columns left for the content of a line of a report, after its marker
/// and a space.
pub open spec fn left_cols(line: LineModel, width: u16) -> int {
    if line.marker_cols + 1 < width {
        width - 1 - line.marker_cols
    } else {
        0
    }
}

pub(crate) proof fn lemma_report_rows_order(lines: Seq<LineModel>, n: int, width: u16)
    requires
        0 <= n <= lines.len() <= usize::MAX,
    ensures
        in_line_order(wrap::report_rows(lines, n, width)),
        wrap::rows_in(lines.take(n), wrap::report_rows(lines, n, width)),
        wrap::rows_in(lines, wrap::report_rows(lines, n, width)),
    decreases n,
{
    if n > 0 {
        lemma_report_rows_order(lines, n - 1, width);
        let line = lines[n - 1];
        let before = wrap::report_rows(lines, n - 1, width);
        let rows = wrap::rows_of(
            fit::line_cols(line.content),
            (n - 1) as usize,
            wrap::report_avail(line, width),
        );
        wrap::lemma_rows_line(
            fit::line_cols(line.content),
            (n - 1) as usize,
            wrap::report_avail(line, width),
        );
        let all = wrap::report_rows(lines, n, width);
        assert forall|i: int| 0 <= i < all.len() implies (#[trigger] all[i]).line_idx < n by {
            if i < before.len() {
                assert(all[i] == before[i]);
            } else {
                assert(all[i] == rows[i - before.len()]);
            }
        }
        assert forall|i: int, j: int| 0 <= i < j < all.len() implies (#[trigger] all[i]).line_idx
            <= (#[trigger] all[j]).line_idx by {
            if j < before.len() {
                assert(all[i] == before[i] && all[j] == before[j]);
            } else {
                assert(all[j] == rows[j - before.len()]);
            }
        }
    }
}

proof fn lemma_report_rows(lines: Seq<LineModel>, n: int, width: u16, k: int)
    requires
        0 <= n <= lines.len() <= usize::MAX,
        forall|i: int|
            0 <= i < lines.len() ==> tline::combined((#[trigger] lines[i]).content).len()
                <= usize::MAX,
    ensures
        in_line_order(wrap::report_rows(lines, n, width)),
        forall|i: int|
            0 <= i < wrap::report_rows(lines, n, width).len() ==> (#[trigger] wrap::report_rows(
                lines,
                n,
                width,
            )[i]).line_idx < n,
        0 <= k < n ==> line_is_wrapped(
            of_line(wrap::report_rows(lines, n, width), k),
            k as usize,
            text_cols(lines[k].content),
            left_cols(lines[k], width),
        ),
    decreases n,
{
    if n > 0 {
        lemma_report_rows(lines, n - 1, width, k);
        let line = lines[n - 1];
        assert(fit::line_cols(line.content) =~= text_cols(line.content));
        lemma_next_line(
            wrap::report_rows(lines, n - 1, width),
            text_cols(line.content),
            (n - 1) as usize,
            left_cols(line, width),
            k,
        );
    }
}

/// A wrapped report has rows for all its lines, in the order of the lines.
/// Those of a line show its whole text, over all its strings, in the columns
/// left after the marker and a space.
pub proof fn report_rows_show_all_lines(lines: Seq<LineModel>, width: u16, k: int)
    requires
        lines.len() <= usize::MAX,
        forall|i: int|
            0 <= i < lines.len() ==> tline::combined((#[trigger] lines[i]).content).len()
                <= usize::MAX,
        0 <= k < lines.len(),
    ensures
        in_line_order(wrap::wrapped_report(lines, width).sub_lines),
        wrap::rows_in(lines, wrap::wrapped_report(lines, width).sub_lines),
        line_is_wrapped(
            of_line(wrap::wrapped_report(lines, width).sub_lines, k),
            k as usize,
            text_cols(lines[k].content),
            left_cols(lines[k], width),
        ),
{
    lemma_report_rows(lines, lines.len() as int, width, k);
}

proof fn lemma_output_rows(lines: Seq<Seq<TStringModel>>, n: int, width: u16, k: int)
    requires
        0 <= n <= lines.len() <= usize::MAX,
        forall|i: int|
            0 <= i < lines.len() ==> tline::combined(#[trigger] lines[i]).len() <= usize::MAX,
    ensures
        in_line_order(wrap::output_rows(lines, 0, n, width)),
        forall|i: int|
            0 <= i < wrap::output_rows(lines, 0, n, width).len() ==> (#[trigger] wrap::output_rows(
                lines,
                0,
                n,
                width,
            )[i]).line_idx < n,
        0 <= k < n ==> line_is_wrapped(
            of_line(wrap::output_rows(lines, 0, n, width), k),
            k as usize,
            text_cols(lines[k]),
            width as int,
        ),
    decreases n,
{
    if n > 0 {
        lemma_output_rows(lines, n - 1, width, k);
        let line = lines[n - 1];
        assert(fit::line_cols(line) =~= text_cols(line));
        lemma_next_line(
            wrap::output_rows(lines, 0, n - 1, width),
            text_cols(line),
            (n - 1) as usize,
            width as int,
            k,
        );
    }
}

/// A wrapped output has rows for all its lines, in the order of the lines.
/// Those of a line show its whole text, over all its strings, in the width.
pub proof fn output_rows_show_all_lines(lines: Seq<Seq<TStringModel>>, width: u16, k: int)
    requires
        lines.len() <= usize::MAX,
        forall|i: int|
            0 <= i < lines.len() ==> tline::combined(#[trigger] lines[i]).len() <= usize::MAX,
        0 <= k < lines.len(),
    ensures
        wrap::wrapped_output(lines, width).line_count == lines.len(),
        in_line_order(wrap::wrapped_output(lines, width).sub_lines),
        forall|i: int|
            0 <= i < wrap::wrapped_output(lines, width).sub_lines.len() ==> (
            #[trigger] wrap::wrapped_output(lines, width).sub_lines[i]).line_idx < lines.len(),
        line_is_wrapped(
            of_line(wrap::wrapped_output(lines, width).sub_lines, k),
            k as usize,
            text_cols(lines[k]),
            width as int,
        ),
{
    lemma_output_rows(lines, lines.len() as int, width, k);
}

/// The characters which fit in the available columns are the first ones, they
/// don't take more columns than there are, and one more wouldn't fit.
pub proof fn fitting_is_longest(content: Seq<TStringModel>, avail: int)
    requires
        0 <= avail,
    ensures
        ({
            let cols = fit::line_cols(content);
            let count = fit::fitting_chars(content, avail);
            &&& 0 <= count <= tline::combined(content).len()
            &&& fit::fitting_cols(content, avail) == fit::total(cols, 0, count)
            &&& 0 <= fit::fitting_cols(content, avail) <= avail
            &&& count < cols.len() ==> fit::total(cols, 0, count + 1) > avail
        }),
{
    lemma_fitting(fit::line_cols(content), 0, avail);
}

proof fn lemma_fitting(cols: Seq<usize>, end: int, avail: int)
    requires
        0 <= end <= cols.len(),
        0 <= fit::total(cols, 0, end) <= avail,
    ensures
        ({
            let last = fit::fit_end(cols, end, fit::total(cols, 0, end), avail);
            &&& end <= last <= cols.len()
            &&& 0 <= fit::total(cols, 0, last) <= avail
            &&& last < cols.len() ==> fit::total(cols, 0, last + 1) > avail
        }),
    decreases cols.len() - end,
{
    if end < cols.len() && fit::total(cols, 0, end) + cols[end] <= avail {
        assert(fit::total(cols, 0, end + 1) == fit::total(cols, 0, end) + cols[end]);
        lemma_fitting(cols, end + 1, avail);
    }
}

/// The characters of a line, each one with its colors.
pub open spec fn styled(strings: Seq<TStringModel>) -> Seq<(char, Option<u8>, Option<u8>)>
    decreases strings.len(),
{
    if strings.len() == 0 {
        Seq::empty()
    } else {
        let last = strings.last();
        styled(strings.drop_last()) + last.raw.map_values(|c: char| (c, last.fg, last.bg))
    }
}

proof fn lemma_styled_len(strings: Seq<TStringModel>)
    ensures
        styled(strings).len() == tline::combined(strings).len(),
    decreases strings.len(),
{
    if strings.len() > 0 {
        lemma_styled_len(strings.drop_last());
    }
}

/// A position brought back in a text of this length.
spec fn clipped(i: int, len: nat) -> int {
    if i < 0 {
        0
    } else if i > len {
        len as int
    } else {
        i
    }
}

proof fn lemma_part(strings: Seq<TStringModel>, start: int, end: int)
    requires
        0 <= start <= end,
    ensures
        styled(tline::part(strings, start, end)) == styled(strings).subrange(
            clipped(start, styled(strings).len()),
            clipped(end, styled(strings).len()),
        ),
    decreases strings.len(),
{
    let all = styled(strings);
    lemma_styled_len(strings);
    if strings.len() > 0 {
        let fewer = strings.drop_last();
        lemma_styled_len(fewer);
        lemma_part(fewer, start, end);
        let kept = tline::part(fewer, start, end);
        let parts = tline::part(strings, start, end);
        if parts.len() > kept.len() {
            assert(parts.drop_last() =~= kept);
        }
    }
    assert(styled(tline::part(strings, start, end)) =~= all.subrange(
        clipped(start, all.len()),
        clipped(end, all.len()),
    ));
}

/// A part of a line has the characters of this part, each one with its colors.
pub proof fn part_has_its_characters(strings: Seq<TStringModel>, start: int, end: int)
    requires
        0 <= start <= end <= tline::combined(strings).len(),
    ensures
        styled(tline::part(strings, start, end)) == styled(strings).subrange(start, end),
{
    lemma_styled_len(strings);
    lemma_part(strings, start, end);
}

proof fn lemma_output_rows_prefix(
    lines: Seq<Seq<TStringModel>>,
    longer: Seq<Seq<TStringModel>>,
    n: int,
    width: u16,
)
    requires
        0 <= n <= lines.len() <= longer.len(),
        lines == longer.take(lines.len() as int),
    ensures
        wrap::output_rows(lines, 0, n, width) == wrap::output_rows(longer, 0, n, width),
    decreases n,
{
    if n > 0 {
        lemma_output_rows_prefix(lines, longer, n - 1, width);
        assert(lines[n - 1] == longer[n - 1]);
    }
}

proof fn lemma_output_rows_split(
    lines: Seq<Seq<TStringModel>>,
    middle: int,
    n: int,
    width: u16,
)
    requires
        0 <= middle <= n <= lines.len(),
    ensures
        wrap::output_rows(lines, 0, n, width) == wrap::output_rows(lines, 0, middle, width)
            + wrap::output_rows(lines, middle, n, width),
    decreases n - middle,
{
    if n > middle {
        lemma_output_rows_split(lines, middle, n - 1, width);
    }
    assert(wrap::output_rows(lines, 0, n, width) =~= wrap::output_rows(lines, 0, middle, width)
        + wrap::output_rows(lines, middle, n, width));
}

/// Wrapping the lines as they come is the same as wrapping them all at once.
pub proof fn wrapping_as_lines_come(
    lines: Seq<Seq<TStringModel>>,
    longer: Seq<Seq<TStringModel>>,
    width: u16,
)
    requires
        lines.len() <= longer.len(),
        lines == longer.take(lines.len() as int),
    ensures
        wrap::wrapped_output(lines, width).updated(longer, width) == wrap::wrapped_output(
            longer,
            width,
        ),
{
    let k = lines.len() as int;
    let n = longer.len() as int;
    lemma_output_rows_prefix(lines, longer, k, width);
    lemma_output_rows_split(longer, k, n, width);
    if n <= k {
        assert(longer.take(k) =~= longer);
    }
}

/// An output which has no more lines than those which are wrapped isn't wrapped
/// again.
pub proof fn nothing_new_to_wrap(
    wrapped: WrappedOutputModel,
    lines: Seq<Seq<TStringModel>>,
    width: u16,
)
    requires
        lines.len() <= wrapped.line_count,
    ensures
        wrapped.updated(lines, width) == wrapped,
{
}

/// Whether what's wrapped is so for the width of the screen, but for the
/// column of the scrollbar: a wrapped output has the rows of the first lines
/// of the output which is shown, and a wrapped report those of the report.
pub open spec fn fits_screen<'s>(state: StateModel<'s>) -> bool {
    let width = (state.width - 1) as u16;
    &&& match (state.wrapped_output, state.shown_output()) {
        (Some(wrapped), Some(output)) => {
            &&& wrapped.line_count <= output.len()
            &&& wrapped == wrap::wrapped_output(output.take(wrapped.line_count as int), width)
        },
        (Some(_), None) => false,
        _ => true,
    }
    &&& match (state.wrapped_report, state.result) {
        (Some(wrapped), ResultModel::Report(report)) => wrapped == wrap::wrapped_report(
            report.lines,
            width,
        ),
        _ => true,
    }
}

/// Wrapping for the screen fits it, and leaves no line of the displayed output
/// or report unwrapped. Nothing is done when lines aren't to be wrapped.
pub proof fn wrapping_fits_screen<'s>(state: StateModel<'s>)
    requires
        fits_screen(state),
    ensures
        fits_screen(state.wrapped_if_asked()),
        state.wrap && state.report_to_draw() is None && state.shown_output() is Some
            ==> state.wrapped_if_asked().wrapped_output == Some(
            wrap::wrapped_output(state.shown_output()->0, (state.width - 1) as u16),
        ),
        state.wrap && state.report_to_draw() is Some ==> state.wrapped_if_asked().wrapped_report
            == Some(
            wrap::wrapped_report(state.report_to_draw()->0.lines, (state.width - 1) as u16),
        ),
        !state.wrap ==> state.wrapped_if_asked() == state,
{
    reveal(StateModel::wrap_updated);
    if let Some(output) = state.shown_output() {
        assert(output.take(output.len() as int) =~= output);
        if let Some(wrapped) = state.wrapped_output {
            wrapping_as_lines_come(
                output.take(wrapped.line_count as int),
                output,
                (state.width - 1) as u16,
            );
        }
    }
    assert(state.wrapped_if_asked().shown_output() == state.shown_output());
}

/// At the start nothing is wrapped. When lines come, what's wrapped still fits
/// the screen.
pub proof fn added_lines_fit_screen<'s>(state: StateModel<'s>, line: Seq<TStringModel>)
    requires
        fits_screen(state),
    ensures
        fits_screen(model::initial(state.mission, state.width, state.height)),
        fits_screen(state.with_line(line)),
{
    if let Some(output) = state.output {
        let longer = StateModel { output: Some(output.push(line)), ..state };
        if let Some(wrapped) = state.wrapped_output {
            let n = wrapped.line_count as int;
            if state.result.output() is None {
                assert(output.push(line).take(n) =~= output.take(n));
            }
        }
        assert(fits_screen(longer));
        wrapping_fits_screen(longer);
    }
}

/// Whatever is forgotten of the job, what's wrapped still fits the screen.
pub proof fn cleared_fits_screen<'s>(state: StateModel<'s>)
    requires
        fits_screen(state),
    ensures
        fits_screen(state.output_taken()),
        fits_screen(state.cleared()),
        fits_screen(state.started()),
{
}

/// What's wrapped of a result fits the screen.
pub proof fn result_fits_screen<'s>(state: StateModel<'s>, result: ResultModel)
    ensures
        fits_screen(state.with_result(result)),
{
    wrapping_fits_screen(state.with_unwrapped_result(result));
}

/// When the dimensions of the screen change, what's wrapped fits the new ones.
pub proof fn resized_fits_screen<'s>(state: StateModel<'s>, width: u16, height: u16)
    requires
        fits_screen(state),
    ensures
        fits_screen(state.resized(width, height)),
{
    let sized = state.with_size(width, height);
    wrapping_fits_screen(sized);
    let wrapped = sized.wrapped_if_asked();
    assert(state.resized(width, height).shown_output() == wrapped.shown_output());
}

/// Whether what's displayed is wrapped for the width of the screen, but for the
/// column of the scrollbar, and wholly.
pub open spec fn is_wholly_wrapped<'s>(state: StateModel<'s>) -> bool {
    let width = (state.width - 1) as u16;
    match (state.report_to_draw(), state.shown_output()) {
        (Some(report), _) => state.wrapped_report == Some(wrap::wrapped_report(report.lines, width)),
        (None, Some(output)) => state.wrapped_output == Some(wrap::wrapped_output(output, width)),
        (None, None) => true,
    }
}

/// When lines are to be wrapped, a result, new dimensions and a line which isn't
/// the first one leave what's displayed wholly wrapped.
pub proof fn displayed_is_wholly_wrapped<'s>(
    state: StateModel<'s>,
    result: ResultModel,
    width: u16,
    height: u16,
    line: Seq<TStringModel>,
)
    requires
        fits_screen(state),
        state.wrap,
    ensures
        is_wholly_wrapped(state.with_result(result)),
        is_wholly_wrapped(state.resized(width, height)),
        state.output is Some ==> is_wholly_wrapped(state.with_line(line)),
{
    lemma_result_wholly_wrapped(state, result);
    lemma_resized_wholly_wrapped(state, width, height);
    lemma_line_wholly_wrapped(state, line);
}

proof fn lemma_wholly_wrapped<'s>(state: StateModel<'s>, after: StateModel<'s>)
    requires
        fits_screen(state),
        state.wrap,
        after == (StateModel {
            scroll: after.scroll,
            top_item_idx: after.top_item_idx,
            ..state.wrapped_if_asked()
        }),
    ensures
        is_wholly_wrapped(after),
{
    wrapping_fits_screen(state);
    wrapping_keeps_the_rest(state, (state.width - 1) as u16);
    assert(after.report_to_draw() == state.report_to_draw());
    assert(after.shown_output() == state.shown_output());
}

proof fn lemma_result_wholly_wrapped<'s>(state: StateModel<'s>, result: ResultModel)
    requires
        state.wrap,
    ensures
        is_wholly_wrapped(state.with_result(result)),
{
    lemma_wholly_wrapped(state.with_unwrapped_result(result), state.with_result(result));
}

proof fn lemma_resized_wholly_wrapped<'s>(state: StateModel<'s>, width: u16, height: u16)
    requires
        fits_screen(state),
        state.wrap,
    ensures
        is_wholly_wrapped(state.resized(width, height)),
{
    lemma_wholly_wrapped(state.with_size(width, height), state.resized(width, height));
}

proof fn lemma_line_wholly_wrapped<'s>(state: StateModel<'s>, line: Seq<TStringModel>)
    requires
        fits_screen(state),
        state.wrap,
    ensures
        state.output is Some ==> is_wholly_wrapped(state.with_line(line)),
{
    if let Some(output) = state.output {
        let longer = StateModel { output: Some(output.push(line)), ..state };
        if let Some(wrapped) = state.wrapped_output {
            let n = wrapped.line_count as int;
            if state.result.output() is None {
                assert(output.push(line).take(n) =~= output.take(n));
            }
        }
        assert(fits_screen(longer));
        lemma_wholly_wrapped(longer, state.with_line(line));
    }
}

} // verus!
