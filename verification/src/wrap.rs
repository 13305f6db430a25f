//! Wrapping of lines which are too long for the screen.
use crate::fit;
use crate::output::CommandOutput;
use crate::report::{Line, LineModel, LineType, Report};
use crate::select;
use crate::tline::TStringModel;
use vstd::prelude::*;

verus! {

/// The part of a line which is displayed on a row: the characters `start..end`
/// of its text.
#[derive(Clone, Copy)]
pub struct SubLine {
    pub line_idx: usize,
    pub start: usize,
    pub end: usize,
}

/// The pieces of a line from character `start` on. A piece has at least one
/// character, even if it's too wide for the available columns.
pub open spec fn pieces(cols: Seq<usize>, line_idx: usize, start: int, avail: int) -> Seq<SubLine>
    decreases cols.len() - start,
{
    if 0 <= start < cols.len() {
        let end = fit::fit_end(cols, start + 1, cols[start] as int, avail);
        proof {
            fit::lemma_fit_end(cols, start + 1, cols[start] as int, avail);
        }
        seq![SubLine { line_idx, start: start as usize, end: end as usize }] + pieces(
            cols,
            line_idx,
            end,
            avail,
        )
    } else {
        Seq::empty()
    }
}

/// The rows of a line whose characters have these widths. An empty line still
/// has a row.
pub open spec fn rows_of(cols: Seq<usize>, line_idx: usize, avail: int) -> Seq<SubLine> {
    if cols.len() == 0 {
        seq![SubLine { line_idx, start: 0, end: 0 }]
    } else {
        pieces(cols, line_idx, 0, avail)
    }
}

/// Adds the rows of a line whose characters have these widths.
pub fn push_rows(sub_lines: &mut Vec<SubLine>, cols: &Vec<usize>, line_idx: usize, avail: usize)
    ensures
        final(sub_lines)@ == old(sub_lines)@ + rows_of(cols@, line_idx, avail as int),
{
    if cols.len() == 0 {
        sub_lines.push(SubLine { line_idx, start: 0, end: 0 });
        assert(sub_lines@ =~= old(sub_lines)@ + rows_of(cols@, line_idx, avail as int));
        return;
    }
    let mut start: usize = 0;
    while start < cols.len()
        invariant
            start <= cols.len(),
            sub_lines@ + pieces(cols@, line_idx, start as int, avail as int) == old(sub_lines)@
                + pieces(cols@, line_idx, 0, avail as int),
        decreases cols.len() - start,
    {
        let mut used: usize = cols[start];
        let mut end: usize = start + 1;
        while end < cols.len() && cols[end] <= avail && used <= avail - cols[end]
            invariant
                start < end <= cols.len(),
                fit::fit_end(cols@, end as int, used as int, avail as int) == fit::fit_end(
                    cols@,
                    start + 1,
                    cols@[start as int] as int,
                    avail as int,
                ),
            decreases cols.len() - end,
        {
            used = used + cols[end];
            end = end + 1;
        }
        let ghost before = sub_lines@;
        let ghost rest = pieces(cols@, line_idx, end as int, avail as int);
        let piece = SubLine { line_idx, start, end };
        sub_lines.push(piece);
        assert(sub_lines@ + rest =~= before + (seq![piece] + rest));
        start = end;
    }
    assert(sub_lines@ + pieces(cols@, line_idx, start as int, avail as int) =~= sub_lines@);
}

/// The rows of the lines `from..to` of an output, for a width.
pub open spec fn output_rows(
    lines: Seq<Seq<TStringModel>>,
    from: int,
    to: int,
    width: u16,
) -> Seq<SubLine>
    decreases to - from,
{
    if to <= from {
        Seq::empty()
    } else {
        output_rows(lines, from, to - 1, width) + rows_of(
            fit::line_cols(lines[to - 1]),
            (to - 1) as usize,
            width as int,
        )
    }
}

/// An output wrapped for a width.
pub struct WrappedCommandOutput {
    pub sub_lines: Vec<SubLine>,
    /// the number of lines which have been wrapped
    pub line_count: usize,
}

/// The content of a [`WrappedCommandOutput`].
#[verifier::ext_equal]
pub struct WrappedOutputModel {
    pub sub_lines: Seq<SubLine>,
    pub line_count: nat,
}

impl View for WrappedCommandOutput {
    type V = WrappedOutputModel;

    open spec fn view(&self) -> WrappedOutputModel {
        WrappedOutputModel { sub_lines: self.sub_lines@, line_count: self.line_count as nat }
    }
}

/// The output, wrapped for a width.
pub open spec fn wrapped_output(
    lines: Seq<Seq<TStringModel>>,
    width: u16,
) -> WrappedOutputModel {
    WrappedOutputModel {
        sub_lines: output_rows(lines, 0, lines.len() as int, width),
        line_count: lines.len(),
    }
}

impl WrappedOutputModel {
    /// The wrapped output, once the lines which weren't handled yet have been
    /// wrapped too.
    pub open spec fn updated(self, lines: Seq<Seq<TStringModel>>, width: u16) -> WrappedOutputModel {
        if lines.len() <= self.line_count {
            self
        } else {
            WrappedOutputModel {
                sub_lines: self.sub_lines + output_rows(
                    lines,
                    self.line_count as int,
                    lines.len() as int,
                    width,
                ),
                line_count: lines.len(),
            }
        }
    }
}

impl WrappedCommandOutput {
    /// Wraps an output for a width.
    pub fn new(output: &CommandOutput, width: u16) -> (r: WrappedCommandOutput)
        ensures
            r@ == wrapped_output(output@, width),
    {
        let mut r = WrappedCommandOutput { sub_lines: Vec::new(), line_count: 0 };
        r.update(output, width);
        assert(r@.sub_lines =~= output_rows(output@, 0, output@.len() as int, width));
        r
    }

    /// Wraps the lines which weren't handled yet, assuming that the width is
    /// the same and that the other lines didn't change.
    pub fn update(&mut self, output: &CommandOutput, width: u16)
        ensures
            final(self)@ == old(self)@.updated(output@, width),
    {
        let from = self.line_count;
        let to = output.lines.len();
        if to <= from {
            return;
        }
        for i in from..to
            invariant
                to == output@.len(),
                from < to,
                self.line_count == from,
                self.sub_lines@ == old(self).sub_lines@ + output_rows(
                    output@,
                    from as int,
                    i as int,
                    width,
                ),
        {
            let cols = fit::measure_line(&output.lines[i].content);
            let ghost before = self.sub_lines@;
            push_rows(&mut self.sub_lines, &cols, i, width as usize);
            assert(output.lines[i as int].content@ == output@[i as int]);
            assert(self.sub_lines@ =~= old(self).sub_lines@ + output_rows(
                output@,
                from as int,
                i + 1,
                width,
            ));
        }
        self.line_count = to;
    }
}

/// The columns available to the content of a line of a report: there's the
/// marker and a space before it.
pub open spec fn report_avail(line: LineModel, width: u16) -> int {
    if width > line.marker_cols + 1 {
        width - line.marker_cols - 1
    } else {
        0
    }
}

/// The rows of the `n` first lines of a report, for a width.
pub open spec fn report_rows(lines: Seq<LineModel>, n: int, width: u16) -> Seq<SubLine>
    decreases n,
{
    if n <= 0 {
        Seq::empty()
    } else {
        report_rows(lines, n - 1, width) + rows_of(
            fit::line_cols(lines[n - 1].content),
            (n - 1) as usize,
            report_avail(lines[n - 1], width),
        )
    }
}

/// The indexes, among the `n` first lines of these types, of those which are
/// shown: only the summary may be.
pub open spec fn shown_among(types: Seq<LineType>, summary: bool, n: int) -> Seq<usize> {
    select::selected(|i: int| !(summary && types[i] == LineType::Normal), n)
}

/// The indexes of the lines of these types which are shown: only the summary
/// may be.
pub open spec fn shown(types: Seq<LineType>, summary: bool) -> Seq<usize> {
    shown_among(types, summary, types.len() as int)
}

/// All the lines are shown when it's not only the summary.
pub proof fn lemma_all_shown(types: Seq<LineType>, summary: bool)
    requires
        !summary,
        types.len() <= usize::MAX,
    ensures
        shown(types, summary) == Seq::new(types.len(), |i: int| i as usize),
{
    select::all_selected(
        |i: int| !(summary && types[i] == LineType::Normal),
        types.len() as int,
    );
}

/// The types of the lines of a report.
pub open spec fn line_types(lines: Seq<LineModel>) -> Seq<LineType> {
    lines.map_values(|line: LineModel| line.line_type)
}

/// The types of the lines the rows come from.
pub open spec fn row_types(lines: Seq<LineModel>, sub_lines: Seq<SubLine>) -> Seq<LineType> {
    sub_lines.map_values(|sub_line: SubLine| lines[sub_line.line_idx as int].line_type)
}

/// Whether all the rows come from lines of the report.
pub open spec fn rows_in(lines: Seq<LineModel>, sub_lines: Seq<SubLine>) -> bool {
    forall|i: int| 0 <= i < sub_lines.len() ==> (#[trigger] sub_lines[i]).line_idx < lines.len()
}

/// A report wrapped for a width.
pub struct WrappedReport {
    pub sub_lines: Vec<SubLine>,
    /// the number of rows of the summary
    pub summary_height: usize,
}

/// The content of a [`WrappedReport`].
#[verifier::ext_equal]
pub struct WrappedReportModel {
    pub sub_lines: Seq<SubLine>,
    pub summary_height: nat,
}

impl View for WrappedReport {
    type V = WrappedReportModel;

    open spec fn view(&self) -> WrappedReportModel {
        WrappedReportModel {
            sub_lines: self.sub_lines@,
            summary_height: self.summary_height as nat,
        }
    }
}

impl WrappedReportModel {
    pub open spec fn content_height(self, summary: bool) -> nat {
        if summary {
            self.summary_height
        } else {
            self.sub_lines.len()
        }
    }

    /// Whether this is a wrapping of these lines.
    #[verifier::opaque]
    pub open spec fn wraps(self, lines: Seq<LineModel>) -> bool {
        &&& rows_in(lines, self.sub_lines)
        &&& self.summary_height == shown(row_types(lines, self.sub_lines), true).len()
    }
}

/// The report, wrapped for a width.
pub open spec fn wrapped_report(lines: Seq<LineModel>, width: u16) -> WrappedReportModel {
    let sub_lines = report_rows(lines, lines.len() as int, width);
    WrappedReportModel {
        sub_lines,
        summary_height: shown(row_types(lines, sub_lines), true).len(),
    }
}

proof fn lemma_pieces_line(cols: Seq<usize>, line_idx: usize, start: int, avail: int)
    requires
        0 <= start,
    ensures
        forall|i: int|
            0 <= i < pieces(cols, line_idx, start, avail).len() ==> (#[trigger] pieces(
                cols,
                line_idx,
                start,
                avail,
            )[i]).line_idx == line_idx,
    decreases cols.len() - start,
{
    if start < cols.len() {
        let end = fit::fit_end(cols, start + 1, cols[start] as int, avail);
        fit::lemma_fit_end(cols, start + 1, cols[start] as int, avail);
        lemma_pieces_line(cols, line_idx, end, avail);
        let all = pieces(cols, line_idx, start, avail);
        let rest = pieces(cols, line_idx, end, avail);
        assert forall|i: int| 0 <= i < all.len() implies (#[trigger] all[i]).line_idx
            == line_idx by {
            if i > 0 {
                assert(all[i] == rest[i - 1]);
            }
        }
    }
}

/// The rows of a line come from this line.
pub proof fn lemma_rows_line(cols: Seq<usize>, line_idx: usize, avail: int)
    ensures
        forall|i: int|
            0 <= i < rows_of(cols, line_idx, avail).len() ==> (#[trigger] rows_of(
                cols,
                line_idx,
                avail,
            )[i]).line_idx == line_idx,
{
    lemma_pieces_line(cols, line_idx, 0, avail);
}

/// The rows of a report come from its lines.
pub proof fn lemma_report_rows_in(lines: Seq<LineModel>, n: int, width: u16)
    requires
        n <= lines.len() <= usize::MAX,
    ensures
        rows_in(lines, report_rows(lines, n, width)),
    decreases n,
{
    if n > 0 {
        lemma_report_rows_in(lines, n - 1, width);
        lemma_rows_line(
            fit::line_cols(lines[n - 1].content),
            (n - 1) as usize,
            report_avail(lines[n - 1], width),
        );
    }
}

/// The rows of an output come from its lines.
pub proof fn lemma_output_rows_in(
    lines: Seq<Seq<TStringModel>>,
    from: int,
    to: int,
    width: u16,
)
    requires
        0 <= from,
        to <= lines.len() <= usize::MAX,
    ensures
        forall|i: int|
            0 <= i < output_rows(lines, from, to, width).len() ==> (#[trigger] output_rows(
                lines,
                from,
                to,
                width,
            )[i]).line_idx < to,
    decreases to - from,
{
    if to > from {
        lemma_output_rows_in(lines, from, to - 1, width);
        let last = rows_of(fit::line_cols(lines[to - 1]), (to - 1) as usize, width as int);
        lemma_rows_line(fit::line_cols(lines[to - 1]), (to - 1) as usize, width as int);
        let before = output_rows(lines, from, to - 1, width);
        let all = output_rows(lines, from, to, width);
        assert forall|i: int| 0 <= i < all.len() implies (#[trigger] all[i]).line_idx < to by {
            if i < before.len() {
                assert(all[i] == before[i]);
            } else {
                assert(all[i] == last[i - before.len()]);
            }
        }
    }
}

/// Finds which lines of these types are shown, maybe only in the summary.
pub fn find_shown(types: &Vec<LineType>, summary: bool) -> (r: Vec<usize>)
    ensures
        r@ == shown(types@, summary),
        forall|i: int| 0 <= i < r.len() ==> #[trigger] r[i] < types.len(),
{
    let mut r: Vec<usize> = Vec::new();
    for i in 0..types.len()
        invariant
            r@ == shown_among(types@, summary, i as int),
            forall|j: int| 0 <= j < r.len() ==> #[trigger] r[j] < i,
    {
        if !(summary && types[i] == LineType::Normal) {
            r.push(i);
        }
    }
    r
}

/// Collects the types of the lines of a report.
pub(crate) fn collect_line_types(lines: &Vec<Line>) -> (r: Vec<LineType>)
    ensures
        r@ == line_types(crate::report::lines_model(lines@)),
{
    let mut r: Vec<LineType> = Vec::new();
    for i in 0..lines.len()
        invariant
            r.len() == i,
            forall|j: int| 0 <= j < i ==> #[trigger] r[j] == lines[j].line_type,
    {
        r.push(lines[i].line_type);
    }
    assert(r@ =~= line_types(crate::report::lines_model(lines@)));
    r
}

/// Collects the types of the lines the rows come from.
pub(crate) fn collect_row_types(lines: &Vec<Line>, sub_lines: &Vec<SubLine>) -> (r: Vec<LineType>)
    requires
        rows_in(crate::report::lines_model(lines@), sub_lines@),
    ensures
        r@ == row_types(crate::report::lines_model(lines@), sub_lines@),
{
    let mut r: Vec<LineType> = Vec::new();
    for i in 0..sub_lines.len()
        invariant
            rows_in(crate::report::lines_model(lines@), sub_lines@),
            r.len() == i,
            forall|j: int|
                0 <= j < i ==> #[trigger] r[j] == lines[sub_lines[j].line_idx as int].line_type,
    {
        assert(sub_lines@[i as int].line_idx < lines.len());
        r.push(lines[sub_lines[i].line_idx].line_type);
    }
    proof {
        let model = crate::report::lines_model(lines@);
        assert forall|j: int| 0 <= j < sub_lines.len() implies r@[j] == #[trigger] row_types(
            model,
            sub_lines@,
        )[j] by {
            assert(sub_lines@[j].line_idx < model.len());
            assert(r[j] == lines[sub_lines[j].line_idx as int].line_type);
        }
        assert(r@ =~= row_types(model, sub_lines@));
    }
    r
}

impl WrappedReport {
    /// Wraps a report for a width.
    pub fn new(report: &Report, width: u16) -> (r: WrappedReport)
        ensures
            r@ == wrapped_report(report@.lines, width),
            r@.wraps(report@.lines),
    {
        let mut sub_lines: Vec<SubLine> = Vec::new();
        for i in 0..report.lines.len()
            invariant
                sub_lines@ == report_rows(report@.lines, i as int, width),
        {
            let cols = fit::measure_line(&report.lines[i].content);
            let marker_cols = report.lines[i].marker_cols;
            let width_cols: usize = width as usize;
            let avail: usize = if width_cols >= 1 && marker_cols < width_cols - 1 {
                width_cols - 1 - marker_cols
            } else {
                0
            };
            assert(report.lines[i as int]@ == report@.lines[i as int]);
            push_rows(&mut sub_lines, &cols, i, avail);
        }
        proof {
            lemma_report_rows_in(report@.lines, report@.lines.len() as int, width);
        }
        let types = collect_row_types(&report.lines, &sub_lines);
        let summary_height = find_shown(&types, true).len();
        proof {
            reveal(WrappedReportModel::wraps);
        }
        WrappedReport { sub_lines, summary_height }
    }

    /// The number of rows, maybe only of the summary.
    pub fn content_height(&self, summary: bool) -> (r: usize)
        ensures
            r == self@.content_height(summary),
    {
        if summary {
            self.summary_height
        } else {
            self.sub_lines.len()
        }
    }
}

} // verus!
