//! What's drawn, and what's remembered of it.
use crate::display::OpModel;
use crate::frame;
use crate::model::StateModel;
use crate::report::ReportModel;
use crate::scroll;
use crate::wrap;
use crate::wrap::WrappedReportModel;
use vstd::prelude::*;

verus! {

/// The rows which are gone to, in order.
pub open spec fn gotos(ops: Seq<OpModel>) -> Seq<u16>
    decreases ops.len(),
{
    if ops.len() == 0 {
        Seq::empty()
    } else {
        let before = gotos(ops.drop_last());
        match ops.last() {
            OpModel::Goto(y) => before.push(y),
            _ => before,
        }
    }
}

/// Whether these operations stay on the same row.
pub open spec fn stays(ops: Seq<OpModel>) -> bool {
    forall|i: int| 0 <= i < ops.len() ==> !(#[trigger] ops[i] is Goto)
}

proof fn lemma_gotos_stay(ops: Seq<OpModel>)
    requires
        stays(ops),
    ensures
        gotos(ops) == Seq::<u16>::empty(),
    decreases ops.len(),
{
    if ops.len() > 0 {
        lemma_gotos_stay(ops.drop_last());
    }
}

pub(crate) proof fn lemma_gotos_add(a: Seq<OpModel>, b: Seq<OpModel>)
    ensures
        gotos(a + b) == gotos(a) + gotos(b),
    decreases b.len(),
{
    if b.len() == 0 {
        assert(a + b =~= a);
        assert(gotos(a) + gotos(b) =~= gotos(a));
    } else {
        assert((a + b).drop_last() =~= a + b.drop_last());
        lemma_gotos_add(a, b.drop_last());
        assert(gotos(a + b) =~= gotos(a) + gotos(b));
    }
}

/// The rows `top..top + n`.
pub open spec fn range(top: int, n: int) -> Seq<u16> {
    Seq::new(n as nat, |i: int| (top + i) as u16)
}

proof fn lemma_gotos_row(content: Seq<OpModel>, y: int, x: u16, scrollbar: Option<(u16, u16)>)
    requires
        stays(content),
    ensures
        gotos(frame::whole_row(content, y, x, scrollbar)) == seq![y as u16],
{
    let start = seq![OpModel::Goto(y as u16)];
    let end = frame::row_end(y, x, scrollbar);
    assert(stays(end));
    lemma_gotos_stay(end);
    lemma_gotos_stay(content);
    lemma_gotos_stay(start.drop_last());
    assert(gotos(start) =~= seq![y as u16]);
    lemma_gotos_add(start, content);
    lemma_gotos_add(start + content, end);
    assert(gotos(frame::whole_row(content, y, x, scrollbar)) =~= seq![y as u16]);
}

proof fn lemma_gotos_rows(
    contents: spec_fn(int) -> Seq<OpModel>,
    n: int,
    top: int,
    x: u16,
    scrollbar: Option<(u16, u16)>,
)
    requires
        0 <= n,
        forall|i: int| 0 <= i < n ==> stays(#[trigger] contents(i)),
    ensures
        gotos(frame::rows(contents, n, top, x, scrollbar)) == range(top, n),
    decreases n,
{
    if n > 0 {
        lemma_gotos_rows(contents, n - 1, top, x, scrollbar);
        assert(stays(contents(n - 1)));
        lemma_gotos_row(contents(n - 1), top + n - 1, x, scrollbar);
        lemma_gotos_add(
            frame::rows(contents, n - 1, top, x, scrollbar),
            frame::whole_row(contents(n - 1), top + n - 1, x, scrollbar),
        );
    }
    assert(gotos(frame::rows(contents, n, top, x, scrollbar)) =~= range(top, n));
}

proof fn lemma_gotos_empty_rows(top: int, n: int)
    requires
        0 <= n,
    ensures
        gotos(frame::empty_rows(top, n)) == range(top, n),
    decreases n,
{
    if n > 0 {
        lemma_gotos_empty_rows(top, n - 1);
        let y = (top + n - 1) as u16;
        let row = seq![OpModel::Goto(y), OpModel::ClearLine];
        lemma_gotos_first(y, seq![OpModel::ClearLine]);
        assert(row =~= seq![OpModel::Goto(y)] + seq![OpModel::ClearLine]);
        lemma_gotos_add(frame::empty_rows(top, n - 1), row);
    }
    assert(gotos(frame::empty_rows(top, n)) =~= range(top, n));
}

/// When there's something to show, all the rows of the page are gone to, from
/// the top to the bottom and each one once. Otherwise only those which are left
/// empty above the content are.
pub proof fn page_is_gone_through<'s>(state: StateModel<'s>, y: u16)
    requires
        y + state.rows_above() <= u16::MAX,
        state.height >= 4,
    ensures
        gotos(state.content_ops(y)) == range(
            y as int,
            if state.report_to_draw() is Some || state.shown_output() is Some {
                state.page_height()
            } else {
                state.rows_above()
            },
        ),
{
    let area = state.filled_area(y);
    let scrollbar = state.content_scrollbar(y);
    let top = (y + state.rows_above()) as u16;
    let above = frame::empty_rows(y as int, state.rows_above());
    lemma_gotos_empty_rows(y as int, state.rows_above());
    match state.report_to_draw() {
        Some(report) => {
            let contents = |i: int| state.report_row(report, i);
            lemma_gotos_rows(contents, area.height as int, top as int, area.width, scrollbar);
            let drawn = frame::rows(
                contents,
                area.height as int,
                top as int,
                area.width,
                scrollbar,
            );
            assert(drawn.push(OpModel::ReportDrawn).drop_last() =~= drawn);
            lemma_gotos_add(above, state.report_ops(report, area, top, scrollbar));
        },
        None => if let Some(output) = state.shown_output() {
            let contents = |i: int| state.output_row(output, i);
            lemma_gotos_rows(contents, area.height as int, top as int, area.width, scrollbar);
            lemma_gotos_add(above, state.output_ops(output, area, top, scrollbar));
        },
    }
    assert(range(y as int, state.rows_above()) + range(top as int, area.height as int) =~= range(
        y as int,
        state.page_height(),
    ));
}

/// The content is drawn in its page: no row above or below it is gone to.
pub proof fn content_stays_in_its_page<'s>(state: StateModel<'s>, y: u16, r: u16)
    requires
        state.content_drawable(y),
        gotos(state.content_ops(y)).contains(r),
    ensures
        y <= r < y + state.page_height(),
{
    if state.height >= 4 {
        page_is_gone_through(state, y);
    }
}

proof fn lemma_gotos_first(first: u16, rest: Seq<OpModel>)
    requires
        stays(rest),
    ensures
        gotos(seq![OpModel::Goto(first)] + rest) == seq![first],
{
    let start = seq![OpModel::Goto(first)];
    lemma_gotos_stay(start.drop_last());
    assert(gotos(start) =~= seq![first]);
    lemma_gotos_stay(rest);
    lemma_gotos_add(start, rest);
    assert(gotos(start + rest) =~= seq![first]);
}

proof fn lemma_gotos_lines<'s>(state: StateModel<'s>, y: u16, hints: Seq<char>)
    requires
        state.height > 1,
        state.status_markdown(hints) is Some,
    ensures
        gotos(state.badges_ops(y)) == seq![y],
        gotos(state.computing_ops(y)) == seq![y],
        gotos(state.help_line_ops(y, hints)) == seq![y],
{
    let badges = state.badges_ops(y);
    let computing = state.computing_ops(y);
    let status = state.help_line_ops(y, hints);
    lemma_gotos_first(y, badges.skip(1));
    lemma_gotos_first(y, computing.skip(1));
    lemma_gotos_first(y, status.skip(1));
    assert(badges =~= seq![OpModel::Goto(y)] + badges.skip(1));
    assert(computing =~= seq![OpModel::Goto(y)] + computing.skip(1));
    assert(status =~= seq![OpModel::Goto(y)] + status.skip(1));
}

/// On a screen of at least four rows, all the rows are drawn, from the top to
/// the bottom and each one once, when there's something to show and something
/// to tell in the status line.
pub proof fn rows_are_drawn_once<'s>(state: StateModel<'s>, hints: Seq<char>)
    requires
        state.height >= 4,
        state.help_page is None,
        state.status_markdown(hints) is Some,
        state.report_to_draw() is Some || state.shown_output() is Some,
    ensures
        gotos(state.screen_ops(hints)) == range(0, state.height as int),
{
    let last = (state.height - 1) as u16;
    if state.reverse {
        let computing_y = (state.height - 2) as u16;
        let a = state.help_line_ops(0, hints);
        let b = state.content_ops(1);
        let c = state.computing_ops(computing_y);
        let d = state.badges_ops(last);
        lemma_gotos_lines(state, 0, hints);
        page_is_gone_through(state, 1);
        lemma_gotos_lines(state, computing_y, hints);
        lemma_gotos_lines(state, last, hints);
        lemma_gotos_add(b, c);
        lemma_gotos_add(b + c, d);
        lemma_gotos_add(a, b + c + d);
    } else {
        let a = state.badges_ops(0);
        let b = state.computing_ops(1);
        let c = state.content_ops(2);
        let d = state.help_line_ops(last, hints);
        lemma_gotos_lines(state, 0, hints);
        lemma_gotos_lines(state, 1, hints);
        page_is_gone_through(state, 2);
        lemma_gotos_lines(state, last, hints);
        lemma_gotos_add(a, b);
        lemma_gotos_add(a + b, c);
        lemma_gotos_add(a + b + c, d);
    }
    assert(gotos(state.screen_ops(hints)) =~= range(0, state.height as int));
}

/// The state is drawn on the whole screen: when there's something to show and
/// something to tell in the status line, no row of a screen of at least four
/// rows is left as it was.
pub proof fn whole_screen_is_drawn<'s>(state: StateModel<'s>, hints: Seq<char>, y: u16)
    requires
        state.height >= 4,
        state.help_page is None,
        state.status_markdown(hints) is Some,
        state.report_to_draw() is Some || state.shown_output() is Some,
        y < state.height,
    ensures
        gotos(state.screen_ops(hints)).contains(y),
{
    rows_are_drawn_once(state, hints);
    assert(gotos(state.screen_ops(hints))[y as int] == y);
}

proof fn lemma_same_rows(
    a: spec_fn(int) -> Seq<OpModel>,
    b: spec_fn(int) -> Seq<OpModel>,
    n: int,
    top: int,
    x: u16,
    scrollbar: Option<(u16, u16)>,
)
    requires
        forall|i: int| #[trigger] a(i) == b(i),
    ensures
        frame::rows(a, n, top, x, scrollbar) == frame::rows(b, n, top, x, scrollbar),
    decreases n,
{
    if n > 0 {
        lemma_same_rows(a, b, n - 1, top, x, scrollbar);
        assert(a(n - 1) == b(n - 1));
    }
}

proof fn lemma_content_drawn_again<'s>(state: StateModel<'s>, y: u16)
    ensures
        state.content_drawn().content_ops(y) == state.content_ops(y),
        state.content_drawn().content_drawn() == state.content_drawn(),
{
    let drawn = state.content_drawn();
    let area = state.filled_area(y);
    let scrollbar = state.content_scrollbar(y);
    let top = (y + state.rows_above()) as u16;
    if let Some(report) = state.report_to_draw() {
        lemma_same_rows(
            |i: int| drawn.report_row(report, i),
            |i: int| state.report_row(report, i),
            area.height as int,
            top as int,
            area.width,
            scrollbar,
        );
    }
}

/// Drawing only changes which item is known to be on top, and drawing again
/// gives the same screen.
pub proof fn drawing_again_is_the_same<'s>(state: StateModel<'s>, hints: Seq<char>)
    ensures
        state.drawn() == (StateModel { top_item_idx: state.drawn().top_item_idx, ..state }),
        state.drawn().draw_ops(hints) == state.draw_ops(hints),
        state.drawn().drawn() == state.drawn(),
{
    lemma_content_drawn_again(state, 1);
    lemma_content_drawn_again(state, 2);
}

/// There's a scrollbar when, and only when, the content is higher than the
/// page.
pub proof fn scrollbar_tells_there_is_more<'s>(state: StateModel<'s>, y: u16)
    ensures
        state.content_scrollbar(y) is Some <==> state.content_height() > state.page_height(),
{
}

/// A content which isn't scrolled further than its bottom can be drawn, as
/// long as the place of the scrollbar can be computed.
pub proof fn ordinary_content_is_drawable<'s>(state: StateModel<'s>)
    requires
        state.width >= 1,
        state.height >= 2,
        0 <= state.scroll <= scroll::max_scroll(state.content_height(), state.page_height()),
        state.content_height() * state.height <= usize::MAX,
    ensures
        state.drawable(),
{
    let height = state.page_height();
    let content_height = state.content_height();
    if state.height >= 4 && content_height > height {
        let scroll = state.scroll;
        let share = scroll * height / content_height;
        let shown = height * height / content_height;
        assert(share + shown <= height && 0 <= share && 0 <= shown < height) by (nonlinear_arith)
            requires
                share == scroll * height / content_height,
                shown == height * height / content_height,
                0 <= scroll,
                scroll + height <= content_height,
                0 < height < content_height,
        ;
        assert(scroll * height <= content_height * state.height) by (nonlinear_arith)
            requires
                0 <= scroll <= content_height,
                0 <= height <= state.height,
        ;
        assert(content_height <= content_height * state.height) by (nonlinear_arith)
            requires
                0 <= content_height,
                state.height >= 1,
        ;
    }
}

/// When there are rows for it, the item which was on top when the report was
/// drawn is found again: it's on the row we go back to, which is the first one
/// of this item.
pub proof fn top_item_is_found_again<'s>(state: StateModel<'s>, report: ReportModel)
    requires
        state.wf(),
        state.height >= 4,
        state.help_page is None,
        state.report_to_draw() == Some(report),
        state.rows_above() < state.page_height(),
        state.scroll < state.shown_items(report).len(),
    ensures
        state.drawn().top_item_idx == state.shown_items(report)[state.scroll],
        0 <= state.drawn().last_item_scroll() <= state.scroll,
        state.drawn().shown_items(report)[state.drawn().last_item_scroll()]
            == state.shown_items(report)[state.scroll],
{
    let drawn = state.drawn();
    let items = state.shown_items(report);
    assert(drawn.shown_items(report) == items);
    items.index_of_first_ensures(drawn.top_item_idx);
    assert(items.contains(items[state.scroll]));
}

/// Switching between the report and its summary keeps on top the item which
/// was drawn there, when it's still shown and unless it's too near of the
/// bottom.
pub proof fn summary_keeps_the_top_item<'s>(state: StateModel<'s>, report: ReportModel)
    requires
        state.wf(),
        state.height >= 4,
        state.help_page is None,
        state.report_to_draw() == Some(report),
        state.rows_above() < state.page_height(),
        state.scroll < state.shown_items(report).len(),
        state.drawn().summary_toggled().shown_items(report).contains(
            state.shown_items(report)[state.scroll],
        ),
        state.drawn().summary_toggled().last_item_scroll() <= scroll::max_scroll(
            state.drawn().summary_toggled().content_height(),
            state.page_height(),
        ),
    ensures
        state.drawn().summary_toggled().shown_items(
            report,
        )[state.drawn().summary_toggled().scroll] == state.shown_items(report)[state.scroll],
{
    let item = state.shown_items(report)[state.scroll];
    top_item_is_found_again(state, report);
    let drawn = state.drawn();
    let toggled = drawn.summary_toggled();
    let items = toggled.shown_items(report);
    items.index_of_first_ensures(item);
    let unscrolled = StateModel { summary: !drawn.summary, ..drawn };
    assert(unscrolled.shown_items(report) == items);
    assert(toggled.content_height() == unscrolled.content_height());
    assert(unscrolled.last_item_scroll() == toggled.last_item_scroll());
}

/// The height of a wrapped report is the number of rows which can be shown.
pub proof fn wrapped_height_is_what_is_shown<'s>(
    state: StateModel<'s>,
    report: ReportModel,
    wrapped: WrappedReportModel,
)
    requires
        state.wf(),
        state.wrap,
        state.report_to_draw() == Some(report),
        state.wrapped_report == Some(wrapped),
    ensures
        state.content_height() == state.report_rows(report).len(),
        state.content_height() == state.shown_items(report).len(),
{
    reveal(WrappedReportModel::wraps);
    if !state.summary {
        wrap::lemma_all_shown(
            wrap::row_types(report.lines, wrapped.sub_lines),
            state.summary,
        );
    }
}

} // verus!
