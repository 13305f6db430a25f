//! What a command gave: a report, a failure, or nothing.
use crate::output::CommandOutput;
use crate::tline::{TLine, TStringModel};
use vstd::prelude::*;

verus! {

/// The kinds of lines of a report.
#[derive(Clone, Copy, PartialEq, Eq, Structural)]
pub enum LineType {
    /// the line starting an item
    Title,
    /// the line telling where the item lies
    Location,
    /// any other line, not shown in a summary
    Normal,
}

/// A line of a report.
pub struct Line {
    /// the item the line belongs to
    pub item_idx: usize,
    pub line_type: LineType,
    /// the columns taken by the marker drawn before the content
    pub marker_cols: usize,
    pub content: TLine,
}

/// The content of a [`Line`].
#[verifier::ext_equal]
pub struct LineModel {
    pub item_idx: usize,
    pub line_type: LineType,
    pub marker_cols: usize,
    pub content: Seq<TStringModel>,
}

impl View for Line {
    type V = LineModel;

    open spec fn view(&self) -> LineModel {
        LineModel {
            item_idx: self.item_idx,
            line_type: self.line_type,
            marker_cols: self.marker_cols,
            content: self.content@,
        }
    }
}

/// What a report counts.
#[derive(Clone, Copy)]
pub struct Stats {
    pub errors: usize,
    pub test_fails: usize,
    pub passed_tests: usize,
    pub warnings: usize,
    /// the lines of the whole report
    pub full_lines: usize,
    /// the lines of the summary
    pub summary_lines: usize,
}

impl Stats {
    pub open spec fn spec_lines(self, summary: bool) -> usize {
        if summary {
            self.summary_lines
        } else {
            self.full_lines
        }
    }

    /// The number of lines of the report, or of its summary.
    #[verifier::when_used_as_spec(spec_lines)]
    pub fn lines(self, summary: bool) -> (r: usize)
        ensures
            r == self.lines(summary),
    {
        if summary {
            self.summary_lines
        } else {
            self.full_lines
        }
    }
}

/// What could be read in the output of a command.
pub struct Report {
    /// the output the report was read in
    pub output: CommandOutput,
    pub lines: Vec<Line>,
    pub stats: Stats,
    /// whether the mission takes the report for a success
    pub success: bool,
}

/// The content of a [`Report`].
#[verifier::ext_equal]
pub struct ReportModel {
    pub output: Seq<Seq<TStringModel>>,
    pub lines: Seq<LineModel>,
    pub stats: Stats,
    pub success: bool,
}

/// The content of lines of a report.
pub open spec fn lines_model(lines: Seq<Line>) -> Seq<LineModel> {
    lines.map_values(|line: Line| line@)
}

impl View for Report {
    type V = ReportModel;

    open spec fn view(&self) -> ReportModel {
        ReportModel {
            output: self.output@,
            lines: lines_model(self.lines@),
            stats: self.stats,
            success: self.success,
        }
    }
}

/// Where a line of item `item_idx` goes among lines sorted by decreasing
/// item: just before the lines which aren't of a greater item.
pub open spec fn place(lines: Seq<LineModel>, item_idx: usize) -> int
    decreases lines.len(),
{
    if lines.len() == 0 || lines[0].item_idx <= item_idx {
        0
    } else {
        1 + place(lines.drop_first(), item_idx)
    }
}

/// The lines with the items in decreasing order, the lines of an item
/// keeping theirs.
pub open spec fn items_reversed(lines: Seq<LineModel>) -> Seq<LineModel>
    decreases lines.len(),
{
    if lines.len() == 0 {
        lines
    } else {
        let others = items_reversed(lines.drop_first());
        others.insert(place(others, lines[0].item_idx), lines[0])
    }
}

impl ReportModel {
    /// The report without its last line if this one is blank.
    pub open spec fn without_blank_end(self) -> ReportModel {
        if self.lines.len() > 0 && crate::tline::all_blank(self.lines.last().content) {
            ReportModel { lines: self.lines.drop_last(), ..self }
        } else {
            self
        }
    }
}

proof fn lemma_place(lines: Seq<LineModel>, item_idx: usize, p: int)
    requires
        0 <= p <= lines.len(),
        forall|i: int| 0 <= i < p ==> (#[trigger] lines[i]).item_idx > item_idx,
        p == lines.len() || lines[p].item_idx <= item_idx,
    ensures
        place(lines, item_idx) == p,
    decreases p,
{
    if p > 0 {
        assert(lines[0].item_idx > item_idx);
        assert forall|i: int| 0 <= i < p - 1 implies (
        #[trigger] lines.drop_first()[i]).item_idx > item_idx by {
            assert(lines.drop_first()[i] == lines[i + 1]);
        }
        lemma_place(lines.drop_first(), item_idx, p - 1);
    }
}

impl Report {
    /// Changes the order of the lines so that the items are in the reverse
    /// order, while the lines of a given item keep theirs.
    pub fn reverse(&mut self)
        ensures
            final(self)@ == (ReportModel { lines: items_reversed(old(self)@.lines), ..old(self)@ }),
    {
        let mut sorted: Vec<Line> = Vec::new();
        let ghost all = lines_model(self.lines@);
        loop
            invariant
                self.lines@.len() <= all.len(),
                lines_model(self.lines@) == all.take(self.lines@.len() as int),
                lines_model(sorted@) == items_reversed(all.skip(self.lines@.len() as int)),
                self.output == old(self).output,
                self.stats == old(self).stats,
                self.success == old(self).success,
            ensures
                lines_model(sorted@) == items_reversed(all),
                self.output == old(self).output,
                self.stats == old(self).stats,
                self.success == old(self).success,
            decreases self.lines@.len(),
        {
            let ghost n = self.lines@.len();
            match self.lines.pop() {
                Some(line) => {
                    assert(line@ == all.take(n as int)[n - 1]);
                    let mut p: usize = 0;
                    while p < sorted.len() && sorted[p].item_idx > line.item_idx
                        invariant
                            p <= sorted.len(),
                            forall|i: int|
                                0 <= i < p ==> (#[trigger] lines_model(sorted@)[i]).item_idx
                                    > line.item_idx,
                        decreases sorted.len() - p,
                    {
                        p += 1;
                    }
                    proof {
                        lemma_place(lines_model(sorted@), line.item_idx, p as int);
                        assert(all.skip(n - 1).drop_first() =~= all.skip(n as int));
                        assert(lines_model(sorted@.insert(p as int, line)) =~= lines_model(
                            sorted@,
                        ).insert(p as int, line@));
                    }
                    sorted.insert(p, line);
                    assert(lines_model(self.lines@) =~= all.take(n - 1));
                },
                None => {
                    assert(all.skip(0) =~= all);
                    break;
                },
            }
        }
        self.lines = sorted;
    }

    /// Removes the last line if it is blank.
    pub fn remove_blank_end(&mut self)
        ensures
            final(self)@ == old(self)@.without_blank_end(),
    {
        let n = self.lines.len();
        if n > 0 && self.lines[n - 1].content.is_blank() {
            assert(self@.lines.last() == self.lines[n - 1]@);
            self.lines.pop();
            assert(lines_model(self.lines@) =~= old(self)@.lines.drop_last());
        } else {
            assert(n > 0 ==> self@.lines.last() == self.lines[n - 1]@);
        }
    }
}

/// What's left of a command which couldn't work.
pub struct Failure {
    pub error_code: i32,
    pub output: CommandOutput,
}

/// What a command gave.
pub enum CommandResult {
    Report(Report),
    Failure(Failure),
    Nothing,
}

/// The content of a [`CommandResult`].
#[verifier::ext_equal]
pub enum ResultModel {
    Report(ReportModel),
    Failure { error_code: i32, output: Seq<Seq<TStringModel>> },
    Nothing,
}

impl View for CommandResult {
    type V = ResultModel;

    open spec fn view(&self) -> ResultModel {
        match self {
            CommandResult::Report(report) => ResultModel::Report(report@),
            CommandResult::Failure(failure) => ResultModel::Failure {
                error_code: failure.error_code,
                output: failure.output@,
            },
            CommandResult::Nothing => ResultModel::Nothing,
        }
    }
}

impl ResultModel {
    /// The output of the command, unless there's no result.
    pub open spec fn output(self) -> Option<Seq<Seq<TStringModel>>> {
        match self {
            ResultModel::Report(report) => Some(report.output),
            ResultModel::Failure { output, .. } => Some(output),
            ResultModel::Nothing => None,
        }
    }

    /// The number of lines of the report, or of the output of the failure.
    pub open spec fn lines_len(self) -> nat {
        match self {
            ResultModel::Report(report) => report.lines.len(),
            ResultModel::Failure { output, .. } => output.len(),
            ResultModel::Nothing => 0,
        }
    }

    /// The result, for a display from bottom to top.
    pub open spec fn reversed(self) -> ResultModel {
        match self {
            ResultModel::Report(report) => ResultModel::Report(
                ReportModel { lines: items_reversed(report.lines), ..report },
            ),
            ResultModel::Failure { error_code, output } => ResultModel::Failure {
                error_code,
                output: output.reverse(),
            },
            ResultModel::Nothing => ResultModel::Nothing,
        }
    }

    /// The result without the blank line which may end the report.
    pub open spec fn without_blank_end(self) -> ResultModel {
        match self {
            ResultModel::Report(report) => ResultModel::Report(report.without_blank_end()),
            _ => self,
        }
    }
}

impl CommandResult {
    /// The output of the command, unless there's no result.
    pub fn output(&self) -> (r: Option<&CommandOutput>)
        ensures
            r is Some <==> self@.output() is Some,
            r is Some ==> self@.output() == Some(r->0@),
    {
        match self {
            CommandResult::Report(report) => Some(&report.output),
            CommandResult::Failure(failure) => Some(&failure.output),
            CommandResult::Nothing => None,
        }
    }

    /// The report, if that's what the command gave.
    pub fn report(&self) -> (r: Option<&Report>)
        ensures
            r is Some <==> self is Report,
            r is Some ==> *self == CommandResult::Report(*r->0),
    {
        match self {
            CommandResult::Report(report) => Some(report),
            _ => None,
        }
    }

    /// The number of lines of the report, or of the output of the failure.
    pub fn lines_len(&self) -> (r: usize)
        ensures
            r == self@.lines_len(),
    {
        match self {
            CommandResult::Report(report) => report.lines.len(),
            CommandResult::Failure(failure) => failure.output.len(),
            CommandResult::Nothing => 0,
        }
    }

    /// Prepares the result for a display from bottom to top.
    pub fn reverse(&mut self)
        ensures
            final(self)@ == old(self)@.reversed(),
    {
        match self {
            CommandResult::Report(report) => report.reverse(),
            CommandResult::Failure(failure) => failure.output.reverse(),
            CommandResult::Nothing => {},
        }
    }

    /// Removes the blank line which may end the report.
    pub fn remove_blank_end(&mut self)
        ensures
            final(self)@ == old(self)@.without_blank_end(),
    {
        match self {
            CommandResult::Report(report) => report.remove_blank_end(),
            _ => {},
        }
    }
}

} // verus!
