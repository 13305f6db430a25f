//! What the drawing of the state is made of.
use crate::display;
use crate::display::OpModel;
use crate::model::StateModel;
use crate::report::{LineModel, ReportModel, ResultModel};
use crate::scroll;
use crate::scroll::Area;
use crate::search;
use crate::text;
use crate::tline;
use crate::tline::TStringModel;
use crate::wrap;
use crate::wrap::SubLine;
use vstd::prelude::*;

verus! {

/// The end of a row: it's cleared, and the scrollbar is drawn after it.
pub open spec fn row_end(y: int, x: u16, scrollbar: Option<(u16, u16)>) -> Seq<OpModel> {
    if scroll::in_thumb(y, scrollbar) {
        seq![OpModel::ClearLine, OpModel::Thumb { x, y: y as u16 }]
    } else {
        seq![OpModel::ClearLine]
    }
}

/// A row, from its start to its end.
pub open spec fn whole_row(
    content: Seq<OpModel>,
    y: int,
    x: u16,
    scrollbar: Option<(u16, u16)>,
) -> Seq<OpModel> {
    seq![OpModel::Goto(y as u16)] + content + row_end(y, x, scrollbar)
}

/// `n` rows from `top` on, with these contents, the scrollbar being at `x`.
pub open spec fn rows(
    contents: spec_fn(int) -> Seq<OpModel>,
    n: int,
    top: int,
    x: u16,
    scrollbar: Option<(u16, u16)>,
) -> Seq<OpModel>
    decreases n,
{
    if n <= 0 {
        Seq::empty()
    } else {
        rows(contents, n - 1, top, x, scrollbar) + whole_row(
            contents(n - 1),
            top + n - 1,
            x,
            scrollbar,
        )
    }
}

/// The `n` rows from `top` on, empty.
pub open spec fn empty_rows(top: int, n: int) -> Seq<OpModel>
    decreases n,
{
    if n <= 0 {
        Seq::empty()
    } else {
        empty_rows(top, n - 1) + seq![OpModel::Goto((top + n - 1) as u16), OpModel::ClearLine]
    }
}

/// What's drawn for a line of a report, in a width.
pub open spec fn line_ops(line: LineModel, width: u16) -> Seq<OpModel> {
    let head = seq![
        OpModel::Marker {
            line_type: line.line_type,
            item_idx: line.item_idx,
            cols: line.marker_cols,
            first: true,
        },
        OpModel::Write(" "@),
    ];
    if width > line.marker_cols + 1 {
        head.push(
            OpModel::Text {
                content: line.content,
                cols: (width - 1 - line.marker_cols) as usize,
            },
        )
    } else {
        head
    }
}

/// What's drawn for a row of a wrapped report.
pub open spec fn sub_line_ops(lines: Seq<LineModel>, sub_line: SubLine) -> Seq<OpModel> {
    let line = lines[sub_line.line_idx as int];
    seq![
        OpModel::Marker {
            line_type: line.line_type,
            item_idx: line.item_idx,
            cols: line.marker_cols,
            first: sub_line.start == 0,
        },
        OpModel::Write(" "@),
        OpModel::SubText { content: line.content, start: sub_line.start, end: sub_line.end },
    ]
}

/// The message telling the error code of a command.
pub open spec fn error_message(error_code: i32) -> Seq<char> {
    "Command error code: "@ + text::signed_decimal(error_code as int)
}

/// The badge telling how many things of a category there are, if there are
/// some.
pub open spec fn count_badges(num: usize, category: Seq<char>, bg: u8) -> Seq<TStringModel> {
    if num > 0 {
        seq![tline::badge(tline::counted(num as nat, category), 235, bg)]
    } else {
        Seq::empty()
    }
}

/// The text saying that a job is running: black over pink, then back to
/// normal.
pub open spec fn computing_text(width: u16) -> Seq<char> {
    "\u{1b}[38;5;235m\u{1b}[48;5;204m"@ + text::centered("computing..."@, width as nat)
        + "\u{1b}[0m"@
}

/// The text giving the error code of a job: black over red, then back to
/// normal.
pub open spec fn failure_text(error_code: i32, width: u16) -> Seq<char> {
    "\u{1b}[38;5;235m\u{1b}[48;5;9m"@ + text::centered(error_message(error_code), width as nat)
        + "\u{1b}[0m"@
}

impl<'s> StateModel<'s> {
    /// The markdown of the status line: it tells the search or, if there's
    /// none, gives hints if they're wanted.
    pub open spec fn status_markdown(self, hints: Seq<char>) -> Option<Seq<char>> {
        match self.search {
            Some(search) => Some(
                "Search: "@ + search.query + " ("@ + text::decimal(search.matches.len())
                    + " matches)"@,
            ),
            None => if self.help_line {
                Some(hints)
            } else {
                None
            },
        }
    }

    /// The status line, on row `y`.
    pub open spec fn help_line_ops(self, y: u16, hints: Seq<char>) -> Seq<OpModel> {
        match self.status_markdown(hints) {
            Some(markdown) if self.height > 1 => seq![
                OpModel::Goto(y),
                OpModel::Status {
                    spans: display::inline_spans(markdown),
                    width: self.width,
                    skin: self.status_skin,
                },
            ],
            _ => Seq::empty(),
        }
    }

    /// The badges about the result.
    pub open spec fn result_badges(self) -> Seq<TStringModel> {
        match self.result {
            ResultModel::Report(report) => {
                let stats = report.stats;
                let tests = if stats.test_fails == 0 && stats.passed_tests > 0 {
                    seq![tline::badge("pass!"@, 254, 2)]
                } else {
                    count_badges(stats.test_fails, "fail"@, 208)
                };
                count_badges(stats.errors, "error"@, 9) + tests + count_badges(
                    stats.warnings,
                    "warning"@,
                    11,
                )
            },
            ResultModel::Failure { error_code, .. } => seq![
                tline::badge(error_message(error_code), 235, 9),
            ],
            ResultModel::Nothing => Seq::empty(),
        }
    }

    /// All the badges: the project, the job, the result and the changes.
    pub open spec fn badges(self) -> Seq<TStringModel> {
        let about_job = seq![
            tline::badge(self.mission.location_name@, 255, 240),
            tline::badge(self.mission.job_name@, 235, 204),
        ] + self.result_badges();
        if self.show_changes_count {
            about_job.push(
                tline::badge(tline::counted(self.changes as nat, "change"@), 235, 6),
            )
        } else {
            about_job
        }
    }

    /// The line of badges, on row `y`.
    pub open spec fn badges_ops(self, y: u16) -> Seq<OpModel> {
        seq![
            OpModel::Goto(y),
            OpModel::Badges { badges: self.badges(), width: self.width },
            OpModel::ClearLine,
        ]
    }

    /// The line telling whether a job is running or, if it failed, its error
    /// code, on row `y`.
    pub open spec fn computing_ops(self, y: u16) -> Seq<OpModel> {
        seq![
            OpModel::Goto(y),
            if self.computing {
                OpModel::Write(computing_text(self.width))
            } else {
                match self.result {
                    ResultModel::Failure { error_code, .. } => OpModel::Write(
                        failure_text(error_code, self.width),
                    ),
                    _ => OpModel::ClearLine,
                }
            },
        ]
    }

    /// Whether the rows in which this report would be drawn are its own.
    pub open spec fn draws(self, report: ReportModel) -> bool {
        self.wrap && self.wrapped_report is Some ==> wrap::rows_in(
            report.lines,
            self.wrapped_report->0.sub_lines,
        )
    }

    /// The rows of a report which are shown: their indexes among the lines,
    /// or among the sub-lines if the report is wrapped.
    pub open spec fn report_rows(self, report: ReportModel) -> Seq<usize> {
        match self.wrapped_report {
            Some(wrapped) if self.wrap => wrap::shown(
                wrap::row_types(report.lines, wrapped.sub_lines),
                self.summary,
            ),
            _ => wrap::shown(wrap::line_types(report.lines), self.summary),
        }
    }

    /// The number of rows of a report, shown or not.
    pub open spec fn report_rows_count(self, report: ReportModel) -> nat {
        match self.wrapped_report {
            Some(wrapped) if self.wrap => wrapped.sub_lines.len(),
            _ => report.lines.len(),
        }
    }

    /// What's drawn for a report on the `i`th row.
    pub open spec fn report_row(self, report: ReportModel, i: int) -> Seq<OpModel> {
        let shown = self.report_rows(report);
        if self.scroll + i < shown.len() {
            let idx = shown[self.scroll + i] as int;
            match self.wrapped_report {
                Some(wrapped) if self.wrap => sub_line_ops(report.lines, wrapped.sub_lines[idx]),
                _ => line_ops(report.lines[idx], self.width),
            }
        } else {
            Seq::empty()
        }
    }

    /// The report, in the area but from row `top` on.
    pub open spec fn report_ops(
        self,
        report: ReportModel,
        area: Area,
        top: u16,
        scrollbar: Option<(u16, u16)>,
    ) -> Seq<OpModel> {
        rows(
            |i: int| self.report_row(report, i),
            area.height as int,
            top as int,
            area.width,
            scrollbar,
        ).push(OpModel::ReportDrawn)
    }

    /// The item on top of a report which is drawn on some rows.
    pub open spec fn top_item(self, report: ReportModel, height: int) -> Option<usize> {
        let items = self.shown_items(report);
        if height > 0 && self.scroll < items.len() {
            Some(items[self.scroll])
        } else {
            None
        }
    }

    /// Once the report has been drawn.
    pub open spec fn report_drawn(
        self,
        report: ReportModel,
        height: int,
        top_item_idx: Option<usize>,
    ) -> StateModel<'s> {
        let top = if top_item_idx is Some {
            top_item_idx
        } else {
            self.top_item(report, height)
        };
        StateModel {
            top_item_idx: match top {
                Some(item_idx) => item_idx,
                None => 0,
            },
            ..self
        }
    }

    /// What's drawn for an output on the `i`th row.
    pub open spec fn output_row(self, output: Seq<Seq<TStringModel>>, i: int) -> Seq<OpModel> {
        let lines = search::highlighted(self.search, output);
        let row = self.scroll + i;
        if self.wrap && self.wrapped_output is Some {
            let sub_lines = wrap::wrapped_output(lines, self.width).sub_lines;
            if row < sub_lines.len() {
                let sub_line = sub_lines[row];
                seq![
                    OpModel::SubText {
                        content: lines[sub_line.line_idx as int],
                        start: sub_line.start,
                        end: sub_line.end,
                    },
                ]
            } else {
                Seq::empty()
            }
        } else if row < lines.len() {
            seq![OpModel::Text { content: lines[row], cols: self.width as usize }]
        } else {
            Seq::empty()
        }
    }

    /// The output of a command, in the area but from row `top` on.
    pub open spec fn output_ops(
        self,
        output: Seq<Seq<TStringModel>>,
        area: Area,
        top: u16,
        scrollbar: Option<(u16, u16)>,
    ) -> Seq<OpModel> {
        rows(
            |i: int| self.output_row(output, i),
            area.height as int,
            top as int,
            area.width,
            scrollbar,
        )
    }

    /// The area of the content, from row `y` on. The last column is for the
    /// scrollbar.
    pub open spec fn content_area(self, y: u16) -> Area {
        Area { left: 0, top: y, width: (self.width - 1) as u16, height: self.page_height() as u16 }
    }

    /// The scrollbar of the content, from row `y` on.
    pub open spec fn content_scrollbar(self, y: u16) -> Option<(u16, u16)> {
        match scroll::thumb(y as int, self.page_height(), self.scroll, self.content_height()) {
            Some((first, last)) => Some((first as u16, last as u16)),
            None => None,
        }
    }

    /// The rows left empty above the content: when the display is from bottom
    /// to top, a short content is at the bottom.
    pub open spec fn rows_above(self) -> int {
        if self.reverse && self.page_height() > self.content_height() {
            self.page_height() - self.content_height()
        } else {
            0
        }
    }

    /// Whether the content can be drawn from row `y` on: there's a column for
    /// the scrollbar, and the rows are in the range of screen rows.
    pub open spec fn content_drawable(self, y: u16) -> bool {
        self.height >= 4 ==> {
            &&& self.width >= 1
            &&& scroll::thumb_fits(
                y as int,
                self.page_height(),
                self.scroll,
                self.content_height(),
            )
            &&& y + self.rows_above() <= u16::MAX
            &&& self.report_to_draw() is Some || self.shown_output() is Some ==> y
                + self.page_height() <= u16::MAX + 1
        }
    }

    /// The part of the area which isn't left empty above the content.
    pub open spec fn filled_area(self, y: u16) -> Area {
        Area {
            height: (self.page_height() - self.rows_above()) as u16,
            ..self.content_area(y)
        }
    }

    /// The content, in the page which starts on row `y`. Nothing is drawn on a
    /// screen which is too small.
    pub open spec fn content_ops(self, y: u16) -> Seq<OpModel> {
        if self.height < 4 {
            Seq::empty()
        } else {
            let area = self.filled_area(y);
            let scrollbar = self.content_scrollbar(y);
            let top = (y + self.rows_above()) as u16;
            let above = empty_rows(y as int, self.rows_above());
            match self.report_to_draw() {
                Some(report) => above + self.report_ops(report, area, top, scrollbar),
                None => match self.shown_output() {
                    Some(output) => above + self.output_ops(output, area, top, scrollbar),
                    None => above,
                },
            }
        }
    }

    /// Once the content has been drawn.
    pub open spec fn content_drawn(self) -> StateModel<'s> {
        match self.report_to_draw() {
            Some(report) if self.height >= 4 => self.report_drawn(
                report,
                self.page_height() - self.rows_above(),
                None,
            ),
            _ => self,
        }
    }

    /// Whether the state can be drawn: the screen has the rows which are
    /// needed, and the content can be drawn.
    pub open spec fn drawable(self) -> bool {
        if self.reverse {
            if self.help_page is Some {
                self.height >= 1
            } else {
                self.height >= 2 && self.content_drawable(1)
            }
        } else {
            self.height >= 1 && (self.help_page is None ==> self.content_drawable(2))
        }
    }

    /// The area given to the help page, from row `top` on.
    pub open spec fn help_area(self, top: u16) -> Area {
        Area { left: 0, top, width: self.width, height: (self.height - 1) as u16 }
    }

    /// The screen, without the status line: either the help page alone, or
    /// the content with the other lines above or, from bottom to top, below.
    pub open spec fn main_ops(self) -> Seq<OpModel> {
        match (self.help_page, self.reverse) {
            (Some(page), true) => seq![OpModel::HelpPage { page, area: self.help_area(1) }],
            (Some(page), false) => seq![OpModel::HelpPage { page, area: self.help_area(0) }],
            (None, true) => self.content_ops(1) + self.computing_ops((self.height - 2) as u16)
                + self.badges_ops((self.height - 1) as u16),
            (None, false) => self.badges_ops(0) + self.computing_ops(1) + self.content_ops(2),
        }
    }

    /// The screen, with the status line at the bottom or, from bottom to top,
    /// at the top.
    pub open spec fn screen_ops(self, hints: Seq<char>) -> Seq<OpModel> {
        if self.reverse {
            self.help_line_ops(0, hints) + self.main_ops()
        } else {
            self.main_ops() + self.help_line_ops((self.height - 1) as u16, hints)
        }
    }

    /// All that has to be done to draw the screen.
    pub open spec fn draw_ops(self, hints: Seq<char>) -> Seq<OpModel> {
        self.screen_ops(hints).push(OpModel::Flush)
    }

    /// Once everything has been drawn.
    pub open spec fn drawn(self) -> StateModel<'s> {
        if self.help_page is Some {
            self
        } else {
            self.content_drawn()
        }
    }
}

} // verus!
