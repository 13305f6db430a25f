//! The drawing of the state.
use super::AppState;
use crate::display;
use crate::display::{clear_line, goto, DrawOp, OpModel, W};
use crate::fit;
use crate::frame;
use crate::model::StateModel;
use crate::output;
use crate::output::{CommandOutput, CommandOutputLine};
use crate::report::{CommandResult, Line, Report};
use crate::scroll;
use crate::scroll::{is_thumb, Area};
use crate::search;
use crate::text;
use crate::tline;
use crate::tline::{TLine, TString};
use crate::wrap;
use crate::wrap::{SubLine, WrappedReportModel, WrappedCommandOutput};
use vstd::prelude::*;

verus! {

/// Ends a row: clears what's left of it, and draws the scrollbar after it.
fn end_row(w: &mut W, y: u16, x: u16, scrollbar: Option<(u16, u16)>)
    ensures
        final(w)@ == old(w)@ + frame::row_end(y as int, x, scrollbar),
{
    clear_line(w);
    if is_thumb(y as usize, scrollbar) {
        w.push(DrawOp::Thumb { x, y });
    }
    assert(w@ =~= old(w)@ + frame::row_end(y as int, x, scrollbar));
}

/// Draws a line of a report, in a width.
fn draw_line(w: &mut W, line: &Line, width: u16)
    ensures
        final(w)@ == old(w)@ + frame::line_ops(line@, width),
{
    w.push(
        DrawOp::Marker {
            line_type: line.line_type,
            item_idx: line.item_idx,
            cols: line.marker_cols,
            first: true,
        },
    );
    w.write(" ");
    let width: usize = width as usize;
    if width >= 1 && line.marker_cols < width - 1 {
        w.push(
            DrawOp::Text { content: line.content.clone(), cols: width - 1 - line.marker_cols },
        );
    }
    assert(w@ =~= old(w)@ + frame::line_ops(line@, width as u16));
}

/// Draws a row of a wrapped report.
fn draw_sub_line(w: &mut W, report: &Report, sub_line: SubLine)
    requires
        sub_line.line_idx < report@.lines.len(),
    ensures
        final(w)@ == old(w)@ + frame::sub_line_ops(report@.lines, sub_line),
{
    let line = &report.lines[sub_line.line_idx];
    w.push(
        DrawOp::Marker {
            line_type: line.line_type,
            item_idx: line.item_idx,
            cols: line.marker_cols,
            first: sub_line.start == 0,
        },
    );
    w.write(" ");
    w.push(
        DrawOp::SubText {
            content: line.content.clone(),
            start: sub_line.start,
            end: sub_line.end,
        },
    );
    assert(w@ =~= old(w)@ + frame::sub_line_ops(report@.lines, sub_line));
}

/// Adds the badge telling how many things of a category there are, if there
/// are some.
fn add_count_badge(t_line: &mut TLine, num: usize, category: &str, bg: u8)
    ensures
        final(t_line)@ == old(t_line)@ + frame::count_badges(num, category@, bg),
{
    if num > 0 {
        t_line.add_badge(TString::num_badge(num, category, 235, bg));
    }
    assert(t_line@ =~= old(t_line)@ + frame::count_badges(num, category@, bg));
}

/// Makes the message telling the error code of a command.
fn error_message(error_code: i32) -> (r: String)
    ensures
        r@ == frame::error_message(error_code),
{
    let mut message = String::new();
    message.append("Command error code: ");
    text::push_signed_decimal(&mut message, error_code);
    assert(message@ =~= frame::error_message(error_code));
    message
}

/// Nothing but the content depends on which item is on top.
proof fn lemma_drawn_same<'s>(state: StateModel<'s>, hints: Seq<char>)
    ensures
        forall|y: u16| #[trigger] state.drawn().computing_ops(y) == state.computing_ops(y),
        forall|y: u16| #[trigger] state.drawn().badges_ops(y) == state.badges_ops(y),
        forall|y: u16| #[trigger] state.drawn().help_line_ops(y, hints) == state.help_line_ops(
            y,
            hints,
        ),
        state.drawn().height == state.height,
        state.wf() ==> state.drawn().wf(),
{
}

impl<'s> AppState<'s> {
    /// The markdown of the status line: it tells the search or, if there's
    /// none, gives the hints if they're wanted.
    pub fn status_markdown(&self, hints: &str) -> (r: Option<String>)
        ensures
            super::opt_view(r) == self@.status_markdown(hints@),
    {
        if let Some(search) = &self.search {
            let mut markdown = String::new();
            markdown.append("Search: ");
            markdown.append(search.query.as_str());
            markdown.append(" (");
            text::push_decimal(&mut markdown, search.matches.len());
            markdown.append(" matches)");
            assert(markdown@ =~= self@.status_markdown(hints@)->0);
            Some(markdown)
        } else if self.help_line {
            Some(hints.to_owned())
        } else {
            None
        }
    }

    /// draw the grey line containing the search or the hints
    pub fn draw_help_line(&self, w: &mut W, y: u16, hints: &str)
        ensures
            final(w)@ == old(w)@ + self@.help_line_ops(y, hints@),
    {
        if let Some(markdown) = self.status_markdown(hints) {
            if self.height > 1 {
                goto(w, y);
                let spans = display::parse_inline(markdown.as_str());
                w.push(DrawOp::Status { spans, width: self.width, skin: self.status_skin });
            }
        }
        assert(w@ =~= old(w)@ + self@.help_line_ops(y, hints@));
    }

    /// draw the line of colored badges, usually on top, and return the number
    /// of columns it takes
    pub fn draw_badges(&mut self, w: &mut W, y: u16) -> (cols: usize)
        ensures
            cols == fit::fitting_cols(old(self)@.badges(), old(self)@.width as int),
            final(w)@ == old(w)@ + old(self)@.badges_ops(y),
            final(self)@ == old(self)@,
    {
        goto(w, y);
        let mut t_line = TLine::default();
        // white over grey
        t_line.add_badge(TString::badge(self.mission.location_name.as_str(), 255, 240));
        // black over pink
        t_line.add_badge(TString::badge(self.mission.job_name.as_str(), 235, 204));
        let ghost about_mission = t_line@;
        if let CommandResult::Report(report) = &self.cmd_result {
            let stats = &report.stats;
            add_count_badge(&mut t_line, stats.errors, "error", 9);
            if stats.test_fails > 0 {
                add_count_badge(&mut t_line, stats.test_fails, "fail", 208);
            } else if stats.passed_tests > 0 {
                t_line.add_badge(TString::badge("pass!", 254, 2));
            }
            add_count_badge(&mut t_line, stats.warnings, "warning", 11);
        } else if let CommandResult::Failure(failure) = &self.cmd_result {
            let message = error_message(failure.error_code);
            t_line.add_badge(TString::badge(message.as_str(), 235, 9));
        }
        assert(t_line@ =~= about_mission + self@.result_badges());
        assert(about_mission =~= seq![
            tline::badge(self.mission.location_name@, 255, 240),
            tline::badge(self.mission.job_name@, 235, 204),
        ]);
        if self.show_changes_count {
            t_line.add_badge(
                TString::num_badge(self.changes_since_last_job_start, "change", 235, 6),
            );
        }
        let (_, cols) = t_line.fitting(self.width as usize);
        w.push(DrawOp::Badges { badges: t_line, width: self.width });
        clear_line(w);
        assert(w@ =~= old(w)@ + old(self)@.badges_ops(y));
        cols
    }

    /// draw "computing...", the error code if any, or a blank line
    pub fn draw_computing(&mut self, w: &mut W, y: u16)
        ensures
            final(w)@ == old(w)@ + old(self)@.computing_ops(y),
            final(self)@ == old(self)@,
    {
        goto(w, y);
        let width: usize = self.width as usize;
        if self.computing {
            let mut message = String::new();
            message.append("\u{1b}[38;5;235m\u{1b}[48;5;204m");
            text::push_centered(&mut message, "computing...", width);
            message.append("\u{1b}[0m");
            assert(message@ =~= frame::computing_text(self.width));
            w.push(DrawOp::Write(message));
        } else if let CommandResult::Failure(failure) = &self.cmd_result {
            let mut message = String::new();
            message.append("\u{1b}[38;5;235m\u{1b}[48;5;9m");
            text::push_centered(&mut message, error_message(failure.error_code).as_str(), width);
            message.append("\u{1b}[0m");
            assert(message@ =~= frame::failure_text(failure.error_code, self.width));
            w.push(DrawOp::Write(message));
        } else {
            clear_line(w);
        }
        assert(w@ =~= old(w)@ + old(self)@.computing_ops(y));
    }

    /// Finds which rows of a report can be shown: their indexes among the
    /// lines, or among the sub-lines if the report is wrapped.
    fn find_report_rows(&self, report: &Report) -> (r: Vec<usize>)
        requires
            self@.draws(report@),
        ensures
            r@ == self@.report_rows(report@),
            forall|i: int|
                0 <= i < r.len() ==> #[trigger] r[i] < self@.report_rows_count(report@),
    {
        match &self.wrapped_report {
            Some(wrapped_report) if self.wrap => {
                let types = wrap::collect_row_types(&report.lines, &wrapped_report.sub_lines);
                wrap::find_shown(&types, self.summary)
            },
            _ => {
                let types = wrap::collect_line_types(&report.lines);
                wrap::find_shown(&types, self.summary)
            },
        }
    }

    /// Draws a report, in the area but from row `top` on, and keeps the item
    /// which is on top.
    pub fn draw_report(
        &mut self,
        report: &Report,
        area: Area,
        top: u16,
        top_item_idx: &mut Option<usize>,
        scrollbar: Option<(u16, u16)>,
        w: &mut W,
    )
        requires
            old(self)@.draws(report@),
            area.height > 0 ==> top + area.height <= u16::MAX + 1,
        ensures
            final(w)@ == old(w)@ + old(self)@.report_ops(report@, area, top, scrollbar),
            old(self)@.wf() ==> final(self)@.wf(),
            final(self)@ == old(self)@.report_drawn(
                report@,
                area.height as int,
                *old(top_item_idx),
            ),
            *final(top_item_idx) == if *old(top_item_idx) is Some {
                *old(top_item_idx)
            } else {
                old(self)@.top_item(report@, area.height as int)
            },
    {
        if let Some(item_idx) = self.push_report(report, area, top, scrollbar, w) {
            if top_item_idx.is_none() {
                *top_item_idx = Some(item_idx);
            }
        }
        self.top_item_idx = match *top_item_idx {
            Some(item_idx) => item_idx,
            None => 0,
        };
    }

    /// Draws a report, in the area but from row `top` on, and returns the
    /// item which is on top.
    fn push_report(
        &self,
        report: &Report,
        area: Area,
        top: u16,
        scrollbar: Option<(u16, u16)>,
        w: &mut W,
    ) -> (r: Option<usize>)
        requires
            self@.draws(report@),
            area.height > 0 ==> top + area.height <= u16::MAX + 1,
        ensures
            final(w)@ == old(w)@ + self@.report_ops(report@, area, top, scrollbar),
            r == self@.top_item(report@, area.height as int),
    {
        let shown = self.find_report_rows(report);
        let ghost contents = |i: int| self@.report_row(report@, i);
        let mut r: Option<usize> = None;
        for row_idx in 0..area.height
            invariant
                self@.draws(report@),
                area.height > 0 ==> top + area.height <= u16::MAX + 1,
                shown@ == self@.report_rows(report@),
                forall|i: int|
                    0 <= i < shown.len() ==> #[trigger] shown[i] < self@.report_rows_count(
                        report@,
                    ),
                contents == (|i: int| self@.report_row(report@, i)),
                w@ == old(w)@ + frame::rows(
                    contents,
                    row_idx as int,
                    top as int,
                    area.width,
                    scrollbar,
                ),
                r == self@.top_item(report@, row_idx as int),
        {
            let y = row_idx + top;
            goto(w, y);
            let row: usize = row_idx as usize;
            if self.scroll < shown.len() && row < shown.len() - self.scroll {
                let idx = shown[self.scroll + row];
                match &self.wrapped_report {
                    Some(wrapped_report) if self.wrap => {
                        let sub_line = wrapped_report.sub_lines[idx];
                        if row == 0 {
                            r = Some(report.lines[sub_line.line_idx].item_idx);
                        }
                        draw_sub_line(w, report, sub_line);
                    },
                    _ => {
                        if row == 0 {
                            r = Some(report.lines[idx].item_idx);
                        }
                        draw_line(w, &report.lines[idx], self.width);
                    },
                }
            }
            end_row(w, y, area.width, scrollbar);
            assert(w@ =~= old(w)@ + frame::rows(
                contents,
                row_idx + 1,
                top as int,
                area.width,
                scrollbar,
            ));
        }
        w.push(DrawOp::ReportDrawn);
        assert(w@ =~= old(w)@ + self@.report_ops(report@, area, top, scrollbar));
        r
    }

    /// Copies the lines of an output, with badges on those having the query
    /// of the search.
    pub fn highlight_search_in_lines(&self, output: &CommandOutput) -> (r: Vec<CommandOutputLine>)
        ensures
            output::contents(r@) == search::highlighted(self@.search, output@),
    {
        search::highlight(&self.search, output)
    }

    /// Draws the output of a command, in the area but from row `top` on.
    pub fn draw_cmd_output(
        &self,
        output: &CommandOutput,
        area: Area,
        top: u16,
        scrollbar: Option<(u16, u16)>,
        w: &mut W,
    )
        requires
            area.height > 0 ==> top + area.height <= u16::MAX + 1,
        ensures
            final(w)@ == old(w)@ + self@.output_ops(output@, area, top, scrollbar),
    {
        let highlighted = CommandOutput { lines: self.highlight_search_in_lines(output) };
        let ghost contents = |i: int| self@.output_row(output@, i);
        let wrapped = self.wrap && self.wrapped_output.is_some();
        let sub_lines: Vec<SubLine> = if wrapped {
            WrappedCommandOutput::new(&highlighted, self.width).sub_lines
        } else {
            Vec::new()
        };
        let count = highlighted.lines.len();
        proof {
            if wrapped {
                wrap::lemma_output_rows_in(highlighted@, 0, count as int, self.width);
            }
        }
        for row_idx in 0..area.height
            invariant
                area.height > 0 ==> top + area.height <= u16::MAX + 1,
                highlighted@ == search::highlighted(self@.search, output@),
                wrapped == (self@.wrap && self@.wrapped_output is Some),
                count == highlighted.lines.len(),
                wrapped ==> sub_lines@ == wrap::wrapped_output(highlighted@, self@.width).sub_lines,
                wrapped ==> forall|i: int|
                    0 <= i < sub_lines.len() ==> (#[trigger] sub_lines[i]).line_idx < count,
                contents == (|i: int| self@.output_row(output@, i)),
                w@ == old(w)@ + frame::rows(
                    contents,
                    row_idx as int,
                    top as int,
                    area.width,
                    scrollbar,
                ),
        {
            let y = row_idx + top;
            goto(w, y);
            let row: usize = row_idx as usize;
            if wrapped {
                if self.scroll < sub_lines.len() && row < sub_lines.len() - self.scroll {
                    let sub_line = sub_lines[self.scroll + row];
                    w.push(
                        DrawOp::SubText {
                            content: highlighted.lines[sub_line.line_idx].content.clone(),
                            start: sub_line.start,
                            end: sub_line.end,
                        },
                    );
                }
            } else if self.scroll < count && row < count - self.scroll {
                w.push(
                    DrawOp::Text {
                        content: highlighted.lines[self.scroll + row].content.clone(),
                        cols: self.width as usize,
                    },
                );
            }
            end_row(w, y, area.width, scrollbar);
            assert(w@ =~= old(w)@ + frame::rows(
                contents,
                row_idx + 1,
                top as int,
                area.width,
                scrollbar,
            ));
        }
    }

    /// draw the report or the lines of the current computation, in the
    /// self.page_height() rows from y on
    pub fn draw_content(&mut self, w: &mut W, y: u16)
        requires
            old(self)@.wf(),
            old(self)@.content_drawable(y),
        ensures
            final(w)@ == old(w)@ + old(self)@.content_ops(y),
            final(self)@ == old(self)@.content_drawn(),
            final(self)@.wf(),
    {
        if self.height < 4 {
            assert(w@ =~= old(w)@ + self@.content_ops(y));
            return;
        }
        proof {
            reveal(WrappedReportModel::wraps);
        }
        let page_height = self.page_height();
        let area = Area { left: 0, top: y, width: self.width - 1, height: page_height as u16 };
        let content_height = self.content_height();
        let scrollbar = scroll::scrollbar(&area, self.scroll, content_height);
        let above: usize = if self.reverse && page_height > content_height {
            page_height - content_height
        } else {
            0
        };
        let top = area.top + above as u16;
        let filled = Area { height: area.height - above as u16, ..area };
        for above_y in area.top..top
            invariant
                area.top <= top,
                w@ == old(w)@ + frame::empty_rows(area.top as int, above_y - area.top),
        {
            goto(w, above_y);
            clear_line(w);
            assert(w@ =~= old(w)@ + frame::empty_rows(area.top as int, above_y + 1 - area.top));
        }
        let ghost drawn_above = w@;
        let mut drawn_item: Option<Option<usize>> = None;
        if let Some(report) = self.report_to_draw() {
            drawn_item = Some(self.push_report(report, filled, top, scrollbar, w));
        } else if let Some(output) = self.shown_output() {
            self.draw_cmd_output(output, filled, top, scrollbar, w);
        }
        if let Some(top_item) = drawn_item {
            self.top_item_idx = match top_item {
                Some(item_idx) => item_idx,
                None => 0,
            };
        }
        assert(w@ =~= old(w)@ + old(self)@.content_ops(y));
    }

    /// Draws the screen from bottom to top, but for the flush.
    fn draw_bottom_up(&mut self, w: &mut W, hints: &str)
        requires
            old(self)@.wf(),
            old(self)@.drawable(),
            old(self)@.reverse,
        ensures
            final(w)@ == old(w)@ + old(self)@.screen_ops(hints@),
            final(self)@ == old(self)@.drawn(),
            final(self)@.wf(),
    {
        let ghost before = self@;
        let ghost status = before.help_line_ops(0, hints@);
        self.draw_help_line(w, 0, hints);
        if let Some(page) = self.help_page {
            let area = Area { left: 0, top: 1, width: self.width, height: self.height - 1 };
            w.push(DrawOp::HelpPage { page, area });
            proof {
                lemma_push_added(old(w)@, status, OpModel::HelpPage { page, area });
            }
        } else {
            self.draw_content(w, 1);
            proof {
                lemma_drawn_same(before, hints@);
            }
            self.draw_computing(w, self.height - 2);
            self.draw_badges(w, self.height - 1);
            proof {
                lemma_four_added(
                    old(w)@,
                    status,
                    before.content_ops(1),
                    before.computing_ops((before.height - 2) as u16),
                    before.badges_ops((before.height - 1) as u16),
                );
            }
        }
    }

    /// Draws the screen from top to bottom, but for the flush.
    fn draw_top_down(&mut self, w: &mut W, hints: &str)
        requires
            old(self)@.wf(),
            old(self)@.drawable(),
            !old(self)@.reverse,
        ensures
            final(w)@ == old(w)@ + old(self)@.screen_ops(hints@),
            final(self)@ == old(self)@.drawn(),
            final(self)@.wf(),
    {
        let ghost before = self@;
        let ghost main = before.main_ops();
        if let Some(page) = self.help_page {
            let area = Area { left: 0, top: 0, width: self.width, height: self.height - 1 };
            w.push(DrawOp::HelpPage { page, area });
            assert(w@ =~= old(w)@ + main);
        } else {
            self.draw_badges(w, 0);
            self.draw_computing(w, 1);
            self.draw_content(w, 2);
            proof {
                lemma_drawn_same(before, hints@);
                lemma_three_added(
                    old(w)@,
                    before.badges_ops(0),
                    before.computing_ops(1),
                    before.content_ops(2),
                );
            }
        }
        self.draw_help_line(w, self.height - 1, hints);
        proof {
            lemma_two_added(
                old(w)@,
                main,
                before.help_line_ops((before.height - 1) as u16, hints@),
            );
        }
    }

    /// Tells whether the content can be drawn from row `y` on.
    fn is_content_drawable(&self, y: u16) -> (r: bool)
        requires
            self@.wf(),
        ensures
            r == self@.content_drawable(y),
    {
        if self.height < 4 {
            return true;
        }
        if self.width < 1 {
            return false;
        }
        let page_height = self.page_height();
        let content_height = self.content_height();
        let area = Area { left: 0, top: y, width: self.width - 1, height: page_height as u16 };
        if !scroll::is_thumb_placed(&area, self.scroll, content_height) {
            return false;
        }
        let above: usize = if self.reverse && page_height > content_height {
            page_height - content_height
        } else {
            0
        };
        let some_content = self.report_to_draw().is_some() || self.shown_output().is_some();
        y as u32 + above as u32 <= 0xffff && (!some_content || y as u32 + page_height as u32
            <= 0x1_0000)
    }

    /// Tells whether the state can be drawn: the screen has the rows which
    /// are needed, and the content can be drawn.
    pub fn is_drawable(&self) -> (r: bool)
        requires
            self@.wf(),
        ensures
            r == self@.drawable(),
    {
        if self.reverse {
            if self.help_page.is_some() {
                self.height >= 1
            } else {
                self.height >= 2 && self.is_content_drawable(1)
            }
        } else {
            self.height >= 1 && (self.help_page.is_some() || self.is_content_drawable(2))
        }
    }

    /// draw the state on the whole terminal
    pub fn draw(&mut self, w: &mut W, hints: &str)
        requires
            old(self)@.wf(),
            old(self)@.drawable(),
        ensures
            final(w)@ == old(w)@ + old(self)@.draw_ops(hints@),
            final(self)@ == old(self)@.drawn(),
            final(self)@.wf(),
    {
        if self.reverse {
            self.draw_bottom_up(w, hints);
        } else {
            self.draw_top_down(w, hints);
        }
        w.push(DrawOp::Flush);
        proof {
            lemma_push_added(old(w)@, old(self)@.screen_ops(hints@), OpModel::Flush);
        }
    }
}

proof fn lemma_push_added(w: Seq<OpModel>, a: Seq<OpModel>, op: OpModel)
    ensures
        (w + a).push(op) == w + a.push(op),
        a.push(op) == a + seq![op],
{
    assert((w + a).push(op) =~= w + a.push(op));
    assert(a.push(op) =~= a + seq![op]);
}

proof fn lemma_two_added(w: Seq<OpModel>, a: Seq<OpModel>, b: Seq<OpModel>)
    ensures
        (w + a) + b == w + (a + b),
{
    assert((w + a) + b =~= w + (a + b));
}

proof fn lemma_three_added(w: Seq<OpModel>, a: Seq<OpModel>, b: Seq<OpModel>, c: Seq<OpModel>)
    ensures
        ((w + a) + b) + c == w + (a + b + c),
{
    assert(((w + a) + b) + c =~= w + (a + b + c));
}

proof fn lemma_four_added(
    w: Seq<OpModel>,
    a: Seq<OpModel>,
    b: Seq<OpModel>,
    c: Seq<OpModel>,
    d: Seq<OpModel>,
)
    ensures
        (((w + a) + b) + c) + d == w + (a + (b + c + d)),
{
    assert((((w + a) + b) + c) + d =~= w + (a + (b + c + d)));
}

} // verus!
